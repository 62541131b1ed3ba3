use archie::token::{tokenize, tokenize_panics, Token, TokenValue};

fn describe<'a>(t: &Token<'a>) -> (String, &'a str, usize, usize) {
    let v = match t.value {
        TokenValue::Text(s) => format!("text {s}"),
        TokenValue::Symbol(s) => format!("symbol {s}"),
        TokenValue::Number(n) => format!("number {n}"),
    };
    (v, t.original, t.start, t.end)
}

fn lex(line: &str) -> Result<Vec<(String, &str, usize, usize)>, String> {
    tokenize(line).map(|ts| ts.iter().map(describe).collect())
}

#[test]
fn identifiers_numbers_and_symbols_with_byte_offsets() {
    assert_eq!(
        lex("mov r1, 0x1F").unwrap(),
        vec![
            ("text mov".to_string(), "mov", 0, 2),
            ("text r1".to_string(), "r1", 4, 5),
            ("symbol ,".to_string(), ",", 6, 6),
            ("number 31".to_string(), "0x1F", 8, 11),
        ]
    );
}

#[test]
fn numbers_in_three_bases_with_separators() {
    assert_eq!(lex("1_000").unwrap(), vec![("number 1000".to_string(), "1_000", 0, 4)]);
    assert_eq!(lex("0b1010").unwrap(), vec![("number 10".to_string(), "0b1010", 0, 5)]);
    assert_eq!(lex("0xff_ff").unwrap(), vec![("number 65535".to_string(), "0xff_ff", 0, 6)]);
    assert_eq!(lex("0").unwrap(), vec![("number 0".to_string(), "0", 0, 0)]);
    assert_eq!(lex("0512").unwrap(), vec![("number 512".to_string(), "0512", 0, 3)]);
    // The digit right after a leading zero only counts once another follows.
    assert_eq!(lex("05").unwrap(), vec![("number 0".to_string(), "0", 0, 0)]);
}

#[test]
fn doubled_plus_and_minus_are_one_symbol() {
    assert_eq!(
        lex("++ - --").unwrap(),
        vec![
            ("symbol ++".to_string(), "++", 0, 1),
            ("symbol -".to_string(), "-", 3, 3),
            ("symbol --".to_string(), "--", 5, 6),
        ]
    );
}

#[test]
fn a_semicolon_ends_the_lexed_line() {
    assert_eq!(lex("a ; b").unwrap(), vec![("text a".to_string(), "a", 0, 0)]);
}

#[test]
fn offsets_count_bytes_of_wide_whitespace() {
    assert_eq!(lex("\u{3000}ab").unwrap(), vec![("text ab".to_string(), "ab", 3, 4)]);
}

#[test]
fn malformed_literals_are_errors() {
    assert_eq!(lex("12a"), Err("Invalid digit 'a' in decimal literal".to_string()));
    assert_eq!(lex("0 "), Err("Invalid character ' ' in number literal".to_string()));
    assert_eq!(lex("0x"), Err("Incomplete binary litteral".to_string()));
    assert_eq!(lex("0b"), Err("Incomplete binary litteral".to_string()));
    assert_eq!(lex("0x1g"), Err("Invalid digit 'g' in hex literal".to_string()));
    assert_eq!(lex("0b102"), Err("Invalid digit '2' in binary literal".to_string()));
}

#[test]
fn lines_the_lexer_cannot_take_are_told_apart() {
    assert!(tokenize_panics("mov r1, \u{20ac}"));
    assert!(tokenize_panics("99999999999999999999"));
    assert!(tokenize_panics("0xffff_ffff_ffff_ffff_f"));
    assert!(!tokenize_panics("mov r1, 0x1F"));
    assert!(!tokenize_panics("12a"));
    assert!(!tokenize_panics("a ; \u{20ac}"));
    assert!(!tokenize_panics("\u{3000}ab"));
}

#[test]
fn tokens_cover_every_character_before_the_comment() {
    let line = "ADD R1, 0x1F ; comment";
    let tokens = tokenize(line).unwrap();
    let comment = line.find(';').unwrap();
    for (i, c) in line.char_indices() {
        if i < comment && !c.is_whitespace() {
            assert!(tokens.iter().any(|t| t.start <= i && i <= t.end), "offset {i}");
        }
    }
    for t in &tokens {
        assert_eq!(t.original, &line[t.start..=t.end]);
    }
    for w in tokens.windows(2) {
        assert!(w[0].end < w[1].start);
    }
    // The digit after a lone leading zero is the one character left out.
    let tokens = tokenize("01").unwrap();
    assert_eq!(tokens.len(), 1);
    assert_eq!((tokens[0].start, tokens[0].end), (0, 0));
}
