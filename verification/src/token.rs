//! The lexer of the assembly language: identifiers, numbers in decimal,
//! hexadecimal and binary with `_` separators, and symbols, with their
//! places in the line.
use vstd::prelude::*;
use vstd::string::*;
use vstd::utf8::encode_utf8;

use crate::text::{
    char_is_whitespace, char_to_string, concat3, digit_value, digits_value, i64_from_str_radix,
    is_whitespace_char, parse_int_in, remove_underscores, without_underscores,
};

verus! {

/// A token of a line, with the text it was read from and the byte offsets of
/// its first and last character.
#[derive(Debug)]
pub struct Token<'a> {
    pub value: TokenValue<'a>,
    pub original: &'a str,
    pub start: usize,
    pub end: usize,
}

#[derive(Debug)]
pub enum TokenValue<'a> {
    Text(&'a str),
    Number(i64),
    Symbol(&'a str),
}

/// What kind of token a span of the line is.
pub enum LexKind {
    Text,
    Symbol,
    Number(int),
}

/// A token as the span `a..b` of character positions.
pub struct LexTok {
    pub kind: LexKind,
    pub a: int,
    pub b: int,
}

/// The lexer's state between characters: at the top level, or inside an
/// identifier or a number that started at `p` and whose last character so
/// far is at `last` (`p` itself when nothing followed yet).
pub enum LexMode {
    Top,
    Ident(int),
    Dec(int, int),
    Zero(int),
    Hex(int, int),
    Bin(int, int),
}

pub enum LexOutcome {
    Done(Seq<LexTok>),
    Fail(Seq<char>),
    /// The line makes the lexer slice through a multi-byte character or
    /// read a number that does not fit in 64 bits.
    Panic,
}

pub open spec fn is_ascii_letter(c: char) -> bool {
    ('a' <= c && c <= 'z') || ('A' <= c && c <= 'Z')
}

pub open spec fn is_ascii_digit(c: char) -> bool {
    '0' <= c && c <= '9'
}

pub open spec fn is_ident_start(c: char) -> bool {
    is_ascii_letter(c) || c == '_'
}

pub open spec fn is_ident_char(c: char) -> bool {
    is_ident_start(c) || is_ascii_digit(c)
}

pub open spec fn is_dec_char(c: char) -> bool {
    c == '_' || is_ascii_digit(c)
}

pub open spec fn is_hex_char(c: char) -> bool {
    c == '_' || is_ascii_digit(c) || ('a' <= c && c <= 'f') || ('A' <= c && c <= 'F')
}

pub open spec fn is_hex_bad(c: char) -> bool {
    ('g' <= c && c <= 'z') || ('G' <= c && c <= 'Z')
}

pub open spec fn is_bin_char(c: char) -> bool {
    c == '_' || c == '0' || c == '1'
}

pub open spec fn is_bin_bad(c: char) -> bool {
    ('2' <= c && c <= '9') || is_ascii_letter(c)
}

/// The value of the digits in `s[p + skip .. b]` in `radix`, underscores
/// dropped, if it fits in an `i64`.
pub open spec fn number_value(s: Seq<char>, p: int, b: int, skip: int, radix: int) -> Option<int> {
    parse_int_in(
        without_underscores(s.subrange(p + skip, b)),
        radix,
        true,
        i64::MIN as int,
        i64::MAX as int,
    )
}

pub open spec fn mode_rank(mode: LexMode) -> int {
    if mode is Top {
        0
    } else {
        1
    }
}

/// The lexer as a state machine over character positions.
pub open spec fn lex_scan(s: Seq<char>, i: int, mode: LexMode, acc: Seq<LexTok>) -> LexOutcome
    decreases (s.len() - i) * 2 + mode_rank(mode),
{
    if i < 0 || i > s.len() {
        LexOutcome::Panic
    } else {
        match mode {
            LexMode::Top => if i == s.len() {
                LexOutcome::Done(acc)
            } else {
                let c = s[i];
                if is_whitespace_char(c) {
                    lex_scan(s, i + 1, LexMode::Top, acc)
                } else if is_ident_start(c) {
                    lex_scan(s, i + 1, LexMode::Ident(i), acc)
                } else if '1' <= c && c <= '9' {
                    lex_scan(s, i + 1, LexMode::Dec(i, i), acc)
                } else if c == '0' {
                    lex_scan(s, i + 1, LexMode::Zero(i), acc)
                } else if (c == '+' || c == '-') && i + 1 < s.len() && s[i + 1] == c {
                    lex_scan(s, i + 2, LexMode::Top, acc.push(LexTok { kind: LexKind::Symbol, a: i, b: i + 2 }))
                } else if c == ';' {
                    LexOutcome::Done(acc)
                } else if c as u32 >= 128 {
                    LexOutcome::Panic
                } else {
                    lex_scan(s, i + 1, LexMode::Top, acc.push(LexTok { kind: LexKind::Symbol, a: i, b: i + 1 }))
                }
            },
            LexMode::Ident(p) => if i < s.len() && is_ident_char(s[i]) {
                lex_scan(s, i + 1, LexMode::Ident(p), acc)
            } else {
                lex_scan(s, i, LexMode::Top, acc.push(LexTok { kind: LexKind::Text, a: p, b: i }))
            },
            LexMode::Dec(p, last) => if i < s.len() && is_dec_char(s[i]) {
                lex_scan(s, i + 1, LexMode::Dec(p, i), acc)
            } else if i < s.len() && is_ascii_letter(s[i]) {
                LexOutcome::Fail("Invalid digit '"@ + seq![s[i]] + "' in decimal literal"@)
            } else {
                match number_value(s, p, last + 1, 0, 10) {
                    Some(v) => lex_scan(
                        s,
                        i,
                        LexMode::Top,
                        acc.push(LexTok { kind: LexKind::Number(v), a: p, b: last + 1 }),
                    ),
                    None => LexOutcome::Panic,
                }
            },
            LexMode::Zero(p) => if i == s.len() {
                lex_scan(s, i, LexMode::Top, acc.push(LexTok { kind: LexKind::Number(0), a: p, b: p + 1 }))
            } else {
                let c = s[i];
                if is_ascii_digit(c) {
                    lex_scan(s, i + 1, LexMode::Dec(p, p), acc)
                } else if c == 'x' {
                    lex_scan(s, i + 1, LexMode::Hex(p, p), acc)
                } else if c == 'b' {
                    lex_scan(s, i + 1, LexMode::Bin(p, p), acc)
                } else {
                    LexOutcome::Fail("Invalid character '"@ + seq![c] + "' in number literal"@)
                }
            },
            LexMode::Hex(p, last) => if i < s.len() && is_hex_char(s[i]) {
                lex_scan(s, i + 1, LexMode::Hex(p, i), acc)
            } else if i < s.len() && is_hex_bad(s[i]) {
                LexOutcome::Fail("Invalid digit '"@ + seq![s[i]] + "' in hex literal"@)
            } else if last == p {
                LexOutcome::Fail("Incomplete binary litteral"@)
            } else {
                match number_value(s, p, last + 1, 2, 16) {
                    Some(v) => lex_scan(
                        s,
                        i,
                        LexMode::Top,
                        acc.push(LexTok { kind: LexKind::Number(v), a: p, b: last + 1 }),
                    ),
                    None => LexOutcome::Panic,
                }
            },
            LexMode::Bin(p, last) => if i < s.len() && is_bin_char(s[i]) {
                lex_scan(s, i + 1, LexMode::Bin(p, i), acc)
            } else if i < s.len() && is_bin_bad(s[i]) {
                LexOutcome::Fail("Invalid digit '"@ + seq![s[i]] + "' in binary literal"@)
            } else if last == p {
                LexOutcome::Fail("Incomplete binary litteral"@)
            } else {
                match number_value(s, p, last + 1, 2, 2) {
                    Some(v) => lex_scan(
                        s,
                        i,
                        LexMode::Top,
                        acc.push(LexTok { kind: LexKind::Number(v), a: p, b: last + 1 }),
                    ),
                    None => LexOutcome::Panic,
                }
            },
        }
    }
}

/// What lexing a whole line gives.
pub open spec fn lex_line(s: Seq<char>) -> LexOutcome {
    lex_scan(s, 0, LexMode::Top, seq![])
}

/// The byte offset of character position `k` in the UTF-8 encoding.
pub open spec fn byte_offset(s: Seq<char>, k: int) -> usize {
    encode_utf8(s.subrange(0, k)).len() as usize
}

/// How a token relates to its span: the text, the byte offsets of the first
/// and last character, and the value.
pub open spec fn token_view_ok(t: Token, s: Seq<char>, lt: LexTok) -> bool {
    &&& t.original@ == s.subrange(lt.a, lt.b)
    &&& t.start == byte_offset(s, lt.a)
    &&& t.end == byte_offset(s, lt.b - 1)
    &&& match lt.kind {
        LexKind::Text => t.value matches TokenValue::Text(x) && x@ == s.subrange(lt.a, lt.b),
        LexKind::Symbol => t.value matches TokenValue::Symbol(x) && x@ == s.subrange(lt.a, lt.b),
        LexKind::Number(v) => t.value matches TokenValue::Number(n) && n == v,
    }
}

pub open spec fn tokens_ok(ts: Seq<Token>, s: Seq<char>, acc: Seq<LexTok>) -> bool {
    &&& ts.len() == acc.len()
    &&& forall|k: int| 0 <= k < ts.len() ==> #[trigger] token_view_ok(ts[k], s, acc[k])
}

fn byte_offset_of(line: &str, k: usize) -> (r: usize)
    requires
        k <= line@.len(),
    ensures
        r == byte_offset(line@, k as int),
{
    line.substring_char(0, k).len()
}

/// The kind of a token being built.
enum Kind {
    Text,
    Symbol,
    Number(i64),
}

spec fn kind_view(k: Kind) -> LexKind {
    match k {
        Kind::Text => LexKind::Text,
        Kind::Symbol => LexKind::Symbol,
        Kind::Number(n) => LexKind::Number(n as int),
    }
}

/// Builds the token for the span `a..b`.
fn make_token<'a>(line: &'a str, a: usize, b: usize, kind: Kind) -> (t: Token<'a>)
    requires
        a < b <= line@.len(),
    ensures
        token_view_ok(t, line@, LexTok { kind: kind_view(kind), a: a as int, b: b as int }),
{
    let original = line.substring_char(a, b);
    let start: usize = byte_offset_of(line, a);
    let end: usize = byte_offset_of(line, b - 1);
    let value = match kind {
        Kind::Text => TokenValue::Text(original),
        Kind::Symbol => TokenValue::Symbol(original),
        Kind::Number(n) => TokenValue::Number(n),
    };
    Token { value, original, start, end }
}

/// Reads the rest of an identifier that started at `start`; `chars` is the
/// position of the next unread character.
fn lex_identifier<'a>(line: &'a str, start: usize, chars: &mut usize, Ghost(acc): Ghost<Seq<LexTok>>) -> (t: Token<'a>)
    requires
        start < line@.len(),
        *old(chars) == start + 1,
    ensures
        start < *final(chars) <= line@.len(),
        lex_scan(line@, start + 1, LexMode::Ident(start as int), acc) == lex_scan(
            line@,
            *final(chars) as int,
            LexMode::Top,
            acc.push(LexTok { kind: LexKind::Text, a: start as int, b: *final(chars) as int }),
        ),
        token_view_ok(t, line@, LexTok { kind: LexKind::Text, a: start as int, b: *final(chars) as int }),
{
    let ghost s = line@;
    let n: usize = line.unicode_len();
    let mut stop: bool = false;
    while *chars < n && !stop
        invariant
            s == line@,
            n == s.len(),
            start < *chars <= n,
            lex_scan(s, start + 1, LexMode::Ident(start as int), acc) == if stop {
                lex_scan(s, *chars as int, LexMode::Top, acc.push(LexTok { kind: LexKind::Text, a: start as int, b: *chars as int }))
            } else {
                lex_scan(s, *chars as int, LexMode::Ident(start as int), acc)
            },
        decreases n - *chars + (if stop { 0int } else { 1int }),
    {
        let c: char = line.get_char(*chars);
        if ('a' <= c && c <= 'z') || ('A' <= c && c <= 'Z') || c == '_' || ('0' <= c && c <= '9') {
            *chars = *chars + 1;
        } else {
            stop = true;
        }
    }
    make_token(line, start, *chars, Kind::Text)
}

/// Reads the rest of a decimal literal that started at `start`; the digits
/// already read do not count as read in `start`'s span until another digit
/// follows.
fn lex_number_base_10<'a>(
    line: &'a str,
    start: usize,
    chars: &mut usize,
    Ghost(acc): Ghost<Seq<LexTok>>,
) -> (r: Option<Result<(Token<'a>, Ghost<LexTok>), String>>)
    requires
        start < *old(chars) <= line@.len(),
    ensures
        *old(chars) <= *final(chars),
        match r {
            Some(Ok((t, lt))) => {
                &&& *final(chars) <= line@.len()
                &&& token_view_ok(t, line@, lt@)
                &&& lex_scan(line@, *old(chars) as int, LexMode::Dec(start as int, start as int), acc)
                    == lex_scan(line@, *final(chars) as int, LexMode::Top, acc.push(lt@))
            },
            Some(Err(e)) => lex_scan(line@, *old(chars) as int, LexMode::Dec(start as int, start as int), acc)
                == LexOutcome::Fail(e@),
            None => lex_scan(line@, *old(chars) as int, LexMode::Dec(start as int, start as int), acc) is Panic,
        },
{
    let ghost s = line@;
    let ghost q0 = *chars as int;
    let n: usize = line.unicode_len();
    let mut end: usize = start;
    let mut stop: bool = false;
    while *chars < n && !stop
        invariant
            s == line@,
            n == s.len(),
            q0 == *old(chars) as int,
            q0 <= *chars,
            start < *chars <= n,
            start <= end < *chars,
            lex_scan(s, q0, LexMode::Dec(start as int, start as int), acc) == lex_scan(
                s,
                *chars as int,
                LexMode::Dec(start as int, end as int),
                acc,
            ),
            stop ==> !is_dec_char(s[*chars as int]) && !is_ascii_letter(s[*chars as int]),
        decreases n - *chars + (if stop { 0int } else { 1int }),
    {
        let c: char = line.get_char(*chars);
        if c == '_' || ('0' <= c && c <= '9') {
            end = *chars;
            *chars = *chars + 1;
        } else if ('a' <= c && c <= 'z') || ('A' <= c && c <= 'Z') {
            let shown = char_to_string(c);
            let m = concat3("Invalid digit '", shown.as_str(), "' in decimal literal");
            assert(lex_scan(s, *chars as int, LexMode::Dec(start as int, end as int), acc) == LexOutcome::Fail(m@));
            *chars = *chars + 1;
            return Some(Err(m));
        } else {
            stop = true;
        }
    }
    let original = line.substring_char(start, end + 1);
    let sanitized = remove_underscores(original);
    let num: i64 = match i64_from_str_radix(sanitized.as_str(), 10) {
        Some(v) => v,
        None => {
            return None;
        },
    };
    let ghost lt = LexTok { kind: LexKind::Number(num as int), a: start as int, b: end + 1 };
    let t = make_token(line, start, end + 1, Kind::Number(num));
    Some(Ok((t, Ghost(lt))))
}

/// Reads the digits of a hexadecimal (`radix` 16) or binary (`radix` 2)
/// literal whose `0x` or `0b` prefix started at `start`.
fn lex_number_prefixed<'a>(
    line: &'a str,
    start: usize,
    chars: &mut usize,
    radix: u32,
    Ghost(acc): Ghost<Seq<LexTok>>,
) -> (r: Option<Result<(Token<'a>, Ghost<LexTok>), String>>)
    requires
        radix == 16 || radix == 2,
        *old(chars) == start + 2 <= line@.len(),
    ensures
        *old(chars) <= *final(chars),
        match r {
            Some(Ok((t, lt))) => {
                &&& *final(chars) <= line@.len()
                &&& token_view_ok(t, line@, lt@)
                &&& lex_scan(line@, *old(chars) as int, prefixed_mode(radix, start as int, start as int), acc)
                    == lex_scan(line@, *final(chars) as int, LexMode::Top, acc.push(lt@))
            },
            Some(Err(e)) => lex_scan(line@, *old(chars) as int, prefixed_mode(radix, start as int, start as int), acc)
                == LexOutcome::Fail(e@),
            None => lex_scan(line@, *old(chars) as int, prefixed_mode(radix, start as int, start as int), acc) is Panic,
        },
{
    let ghost s = line@;
    let ghost q0 = *chars as int;
    let n: usize = line.unicode_len();
    let mut end: usize = start;
    let mut stop: bool = false;
    while *chars < n && !stop
        invariant
            s == line@,
            n == s.len(),
            q0 == *old(chars) as int,
            q0 <= *chars,
            radix == 16 || radix == 2,
            start + 2 <= *chars <= n,
            end == start || start + 2 <= end < *chars,
            lex_scan(s, q0, prefixed_mode(radix, start as int, start as int), acc) == lex_scan(
                s,
                *chars as int,
                prefixed_mode(radix, start as int, end as int),
                acc,
            ),
            stop ==> !prefixed_digit(radix, s[*chars as int]) && !prefixed_bad(radix, s[*chars as int]),
        decreases n - *chars + (if stop { 0int } else { 1int }),
    {
        let c: char = line.get_char(*chars);
        let digit: bool = if radix == 16 {
            c == '_' || ('0' <= c && c <= '9') || ('a' <= c && c <= 'f') || ('A' <= c && c <= 'F')
        } else {
            c == '_' || c == '0' || c == '1'
        };
        let bad: bool = if radix == 16 {
            ('g' <= c && c <= 'z') || ('G' <= c && c <= 'Z')
        } else {
            ('2' <= c && c <= '9') || ('a' <= c && c <= 'z') || ('A' <= c && c <= 'Z')
        };
        if digit {
            end = *chars;
            *chars = *chars + 1;
        } else if bad {
            let shown = char_to_string(c);
            let msg = if radix == 16 {
                concat3("Invalid digit '", shown.as_str(), "' in hex literal")
            } else {
                concat3("Invalid digit '", shown.as_str(), "' in binary literal")
            };
            assert(lex_scan(s, *chars as int, prefixed_mode(radix, start as int, end as int), acc) == LexOutcome::Fail(msg@));
            *chars = *chars + 1;
            return Some(Err(msg));
        } else {
            stop = true;
        }
    }
    if start == end {
        return Some(Err(String::from_str("Incomplete binary litteral")));
    }
    let digits = line.substring_char(start + 2, end + 1);
    let sanitized = remove_underscores(digits);
    let num: i64 = match i64_from_str_radix(sanitized.as_str(), radix) {
        Some(v) => v,
        None => {
            return None;
        },
    };
    let ghost lt = LexTok { kind: LexKind::Number(num as int), a: start as int, b: end + 1 };
    let t = make_token(line, start, end + 1, Kind::Number(num));
    Some(Ok((t, Ghost(lt))))
}

/// Reads a number literal that starts with `0`: a further digit makes it
/// decimal, `x` hexadecimal, `b` binary; a `0` at the end of the line is the
/// number zero, and any other character is an error.
fn lex_number_with_any_base<'a>(
    line: &'a str,
    start: usize,
    chars: &mut usize,
    Ghost(acc): Ghost<Seq<LexTok>>,
) -> (r: Option<Result<(Token<'a>, Ghost<LexTok>), String>>)
    requires
        start < line@.len(),
        *old(chars) == start + 1,
    ensures
        *old(chars) <= *final(chars),
        match r {
            Some(Ok((t, lt))) => {
                &&& *final(chars) <= line@.len()
                &&& token_view_ok(t, line@, lt@)
                &&& lex_scan(line@, start + 1, LexMode::Zero(start as int), acc)
                    == lex_scan(line@, *final(chars) as int, LexMode::Top, acc.push(lt@))
            },
            Some(Err(e)) => lex_scan(line@, start + 1, LexMode::Zero(start as int), acc) == LexOutcome::Fail(e@),
            None => lex_scan(line@, start + 1, LexMode::Zero(start as int), acc) is Panic,
        },
{
    let n: usize = line.unicode_len();
    if *chars >= n {
        let ghost lt = LexTok { kind: LexKind::Number(0), a: start as int, b: start + 1 };
        let t = make_token(line, start, start + 1, Kind::Number(0));
        return Some(Ok((t, Ghost(lt))));
    }
    let c: char = line.get_char(*chars);
    *chars = *chars + 1;
    if '0' <= c && c <= '9' {
        lex_number_base_10(line, start, chars, Ghost(acc))
    } else if c == 'x' {
        lex_number_base_16(line, start, chars, Ghost(acc))
    } else if c == 'b' {
        lex_number_base_2(line, start, chars, Ghost(acc))
    } else {
        let shown = char_to_string(c);
        Some(Err(concat3("Invalid character '", shown.as_str(), "' in number literal")))
    }
}

/// Lexes a line as [`lex_scan`] does; `None` where the lexer would slice
/// through a multi-byte character or read a number beyond 64 bits.
fn lex_tokens<'a>(line: &'a str) -> (r: Option<Result<Vec<Token<'a>>, String>>)
    ensures
        match lex_line(line@) {
            LexOutcome::Done(ts) => r matches Some(Ok(v)) && tokens_ok(v@, line@, ts),
            LexOutcome::Fail(m) => r matches Some(Err(e)) && e@ == m,
            LexOutcome::Panic => r is None,
        },
{
    let ghost s = line@;
    let n: usize = line.unicode_len();
    let mut token: Vec<Token<'a>> = Vec::new();
    let ghost mut acc: Seq<LexTok> = seq![];
    let mut i: usize = 0;
    while i < n
        invariant
            s == line@,
            n == s.len(),
            i <= n,
            lex_line(s) == lex_scan(s, i as int, LexMode::Top, acc),
            tokens_ok(token@, s, acc),
        decreases n - i,
    {
        let start_idx: usize = i;
        let next_char: char = line.get_char(i);
        i = i + 1;
        if char_is_whitespace(next_char) {
            continue;
        }
        if ('a' <= next_char && next_char <= 'z') || ('A' <= next_char && next_char <= 'Z') || next_char == '_' {
            let t = lex_identifier(line, start_idx, &mut i, Ghost(acc));
            token.push(t);
            proof {
                acc = acc.push(LexTok { kind: LexKind::Text, a: start_idx as int, b: i as int });
            }
        } else if '1' <= next_char && next_char <= '9' {
            match lex_number_base_10(line, start_idx, &mut i, Ghost(acc)) {
                Some(Ok((t, lt))) => {
                    token.push(t);
                    proof {
                        acc = acc.push(lt@);
                    }
                },
                Some(Err(e)) => {
                    return Some(Err(e));
                },
                None => {
                    return None;
                },
            }
        } else if next_char == '0' {
            match lex_number_with_any_base(line, start_idx, &mut i, Ghost(acc)) {
                Some(Ok((t, lt))) => {
                    token.push(t);
                    proof {
                        acc = acc.push(lt@);
                    }
                },
                Some(Err(e)) => {
                    return Some(Err(e));
                },
                None => {
                    return None;
                },
            }
        } else if (next_char == '+' || next_char == '-') && i < n && line.get_char(i) == next_char {
            i = i + 1;
            let t = make_token(line, start_idx, start_idx + 2, Kind::Symbol);
            token.push(t);
            proof {
                acc = acc.push(LexTok { kind: LexKind::Symbol, a: start_idx as int, b: start_idx + 2 });
            }
        } else if next_char == ';' {
            return Some(Ok(token));
        } else if next_char >= '\u{80}' {
            return None;
        } else {
            let t = make_token(line, start_idx, start_idx + 1, Kind::Symbol);
            token.push(t);
            proof {
                acc = acc.push(LexTok { kind: LexKind::Symbol, a: start_idx as int, b: start_idx + 1 });
            }
        }
    }
    Some(Ok(token))
}

/// Splits a line into tokens; see [`lex_scan`]. Lines on which the lexer
/// would slice through a multi-byte character or read a number beyond 64
/// bits are excluded; [`tokenize_panics`] tells them apart.
pub fn tokenize<'a>(line: &'a str) -> (r: Result<Vec<Token<'a>>, String>)
    requires
        !(lex_line(line@) is Panic),
    ensures
        match lex_line(line@) {
            LexOutcome::Done(ts) => r matches Ok(v) && tokens_ok(v@, line@, ts),
            LexOutcome::Fail(m) => r matches Err(e) && e@ == m,
            LexOutcome::Panic => false,
        },
{
    match lex_tokens(line) {
        Some(r) => r,
        None => {
            proof {
                assert(false);
            }
            Ok(Vec::new())
        },
    }
}

/// Whether `line` is one that [`tokenize`] excludes: lexing it would slice
/// through a multi-byte character or read a number beyond 64 bits.
pub fn tokenize_panics(line: &str) -> (r: bool)
    ensures
        r == (lex_line(line@) is Panic),
{
    lex_tokens(line).is_none()
}

/// Reads the digits of a hexadecimal literal after its `0x`.
fn lex_number_base_16<'a>(
    line: &'a str,
    start: usize,
    chars: &mut usize,
    Ghost(acc): Ghost<Seq<LexTok>>,
) -> (r: Option<Result<(Token<'a>, Ghost<LexTok>), String>>)
    requires
        *old(chars) == start + 2 <= line@.len(),
    ensures
        *old(chars) <= *final(chars),
        match r {
            Some(Ok((t, lt))) => {
                &&& *final(chars) <= line@.len()
                &&& token_view_ok(t, line@, lt@)
                &&& lex_scan(line@, *old(chars) as int, LexMode::Hex(start as int, start as int), acc)
                    == lex_scan(line@, *final(chars) as int, LexMode::Top, acc.push(lt@))
            },
            Some(Err(e)) => lex_scan(line@, *old(chars) as int, LexMode::Hex(start as int, start as int), acc)
                == LexOutcome::Fail(e@),
            None => lex_scan(line@, *old(chars) as int, LexMode::Hex(start as int, start as int), acc) is Panic,
        },
{
    lex_number_prefixed(line, start, chars, 16, Ghost(acc))
}

/// Reads the digits of a binary literal after its `0b`.
fn lex_number_base_2<'a>(
    line: &'a str,
    start: usize,
    chars: &mut usize,
    Ghost(acc): Ghost<Seq<LexTok>>,
) -> (r: Option<Result<(Token<'a>, Ghost<LexTok>), String>>)
    requires
        *old(chars) == start + 2 <= line@.len(),
    ensures
        *old(chars) <= *final(chars),
        match r {
            Some(Ok((t, lt))) => {
                &&& *final(chars) <= line@.len()
                &&& token_view_ok(t, line@, lt@)
                &&& lex_scan(line@, *old(chars) as int, LexMode::Bin(start as int, start as int), acc)
                    == lex_scan(line@, *final(chars) as int, LexMode::Top, acc.push(lt@))
            },
            Some(Err(e)) => lex_scan(line@, *old(chars) as int, LexMode::Bin(start as int, start as int), acc)
                == LexOutcome::Fail(e@),
            None => lex_scan(line@, *old(chars) as int, LexMode::Bin(start as int, start as int), acc) is Panic,
        },
{
    lex_number_prefixed(line, start, chars, 2, Ghost(acc))
}

pub open spec fn prefixed_mode(radix: u32, p: int, last: int) -> LexMode {
    if radix == 16 {
        LexMode::Hex(p, last)
    } else {
        LexMode::Bin(p, last)
    }
}

pub open spec fn prefixed_digit(radix: u32, c: char) -> bool {
    if radix == 16 {
        is_hex_char(c)
    } else {
        is_bin_char(c)
    }
}

pub open spec fn prefixed_bad(radix: u32, c: char) -> bool {
    if radix == 16 {
        is_hex_bad(c)
    } else {
        is_bin_bad(c)
    }
}

/// Spans that lie inside a line of length `n`, are non-empty, and follow
/// each other without overlapping.
pub open spec fn spans_ordered(ts: Seq<LexTok>, n: int) -> bool {
    &&& forall|k: int| 0 <= k < ts.len() ==> 0 <= #[trigger] ts[k].a < ts[k].b <= n
    &&& forall|k: int| 0 <= k < ts.len() - 1 ==> #[trigger] ts[k].b <= ts[k + 1].a
}

/// Where the token being read started, or the position at the top level.
pub open spec fn mode_start(mode: LexMode, i: int) -> int {
    match mode {
        LexMode::Top => i,
        LexMode::Ident(p) => p,
        LexMode::Dec(p, _) => p,
        LexMode::Zero(p) => p,
        LexMode::Hex(p, _) => p,
        LexMode::Bin(p, _) => p,
    }
}

/// The shapes the lexer's state takes at position `i`.
pub open spec fn mode_ok(mode: LexMode, i: int) -> bool {
    match mode {
        LexMode::Top => true,
        LexMode::Ident(p) => 0 <= p < i,
        LexMode::Dec(p, last) => 0 <= p <= last < i,
        LexMode::Zero(p) => 0 <= p && p + 1 == i,
        LexMode::Hex(p, last) => 0 <= p && p + 2 <= i && (last == p || p + 2 <= last < i),
        LexMode::Bin(p, last) => 0 <= p && p + 2 <= i && (last == p || p + 2 <= last < i),
    }
}

proof fn lemma_push_ordered(acc: Seq<LexTok>, t: LexTok, n: int)
    requires
        spans_ordered(acc, n),
        0 <= t.a < t.b <= n,
        acc.len() > 0 ==> acc.last().b <= t.a,
    ensures
        spans_ordered(acc.push(t), n),
        acc.push(t).last().b == t.b,
{
    let r = acc.push(t);
    assert forall|k: int| 0 <= k < r.len() - 1 implies #[trigger] r[k].b <= r[k + 1].a by {
        if k == acc.len() - 1 {
            assert(r[k] == acc.last());
        } else {
            assert(r[k] == acc[k] && r[k + 1] == acc[k + 1]);
        }
    }
    assert forall|k: int| 0 <= k < r.len() implies 0 <= #[trigger] r[k].a < r[k].b <= n by {
        if k < acc.len() {
            assert(r[k] == acc[k]);
        }
    }
}

proof fn lemma_lex_scan_ordered(s: Seq<char>, i: int, mode: LexMode, acc: Seq<LexTok>)
    requires
        0 <= i <= s.len(),
        mode_ok(mode, i),
        spans_ordered(acc, s.len() as int),
        acc.len() > 0 ==> acc.last().b <= mode_start(mode, i),
    ensures
        lex_scan(s, i, mode, acc) matches LexOutcome::Done(ts) ==> spans_ordered(ts, s.len() as int),
    decreases (s.len() - i) * 2 + mode_rank(mode),
{
    let n = s.len() as int;
    match mode {
        LexMode::Top => if i < n {
            let c = s[i];
            if is_whitespace_char(c) {
                lemma_lex_scan_ordered(s, i + 1, LexMode::Top, acc);
            } else if is_ident_start(c) {
                lemma_lex_scan_ordered(s, i + 1, LexMode::Ident(i), acc);
            } else if '1' <= c && c <= '9' {
                lemma_lex_scan_ordered(s, i + 1, LexMode::Dec(i, i), acc);
            } else if c == '0' {
                lemma_lex_scan_ordered(s, i + 1, LexMode::Zero(i), acc);
            } else if (c == '+' || c == '-') && i + 1 < n && s[i + 1] == c {
                let t = LexTok { kind: LexKind::Symbol, a: i, b: i + 2 };
                lemma_push_ordered(acc, t, n);
                lemma_lex_scan_ordered(s, i + 2, LexMode::Top, acc.push(t));
            } else if c == ';' {
            } else if c as u32 >= 128 {
            } else {
                let t = LexTok { kind: LexKind::Symbol, a: i, b: i + 1 };
                lemma_push_ordered(acc, t, n);
                lemma_lex_scan_ordered(s, i + 1, LexMode::Top, acc.push(t));
            }
        },
        LexMode::Ident(p) => if i < n && is_ident_char(s[i]) {
            lemma_lex_scan_ordered(s, i + 1, LexMode::Ident(p), acc);
        } else {
            let t = LexTok { kind: LexKind::Text, a: p, b: i };
            lemma_push_ordered(acc, t, n);
            lemma_lex_scan_ordered(s, i, LexMode::Top, acc.push(t));
        },
        LexMode::Dec(p, last) => if i < n && is_dec_char(s[i]) {
            lemma_lex_scan_ordered(s, i + 1, LexMode::Dec(p, i), acc);
        } else if i < n && is_ascii_letter(s[i]) {
        } else {
            if let Some(v) = number_value(s, p, last + 1, 0, 10) {
                let t = LexTok { kind: LexKind::Number(v), a: p, b: last + 1 };
                lemma_push_ordered(acc, t, n);
                lemma_lex_scan_ordered(s, i, LexMode::Top, acc.push(t));
            }
        },
        LexMode::Zero(p) => if i == n {
            let t = LexTok { kind: LexKind::Number(0), a: p, b: p + 1 };
            lemma_push_ordered(acc, t, n);
            lemma_lex_scan_ordered(s, i, LexMode::Top, acc.push(t));
        } else {
            let c = s[i];
            if is_ascii_digit(c) {
                lemma_lex_scan_ordered(s, i + 1, LexMode::Dec(p, p), acc);
            } else if c == 'x' {
                lemma_lex_scan_ordered(s, i + 1, LexMode::Hex(p, p), acc);
            } else if c == 'b' {
                lemma_lex_scan_ordered(s, i + 1, LexMode::Bin(p, p), acc);
            }
        },
        LexMode::Hex(p, last) => if i < n && is_hex_char(s[i]) {
            lemma_lex_scan_ordered(s, i + 1, LexMode::Hex(p, i), acc);
        } else if i < n && is_hex_bad(s[i]) {
        } else if last == p {
        } else {
            if let Some(v) = number_value(s, p, last + 1, 2, 16) {
                let t = LexTok { kind: LexKind::Number(v), a: p, b: last + 1 };
                lemma_push_ordered(acc, t, n);
                lemma_lex_scan_ordered(s, i, LexMode::Top, acc.push(t));
            }
        },
        LexMode::Bin(p, last) => if i < n && is_bin_char(s[i]) {
            lemma_lex_scan_ordered(s, i + 1, LexMode::Bin(p, i), acc);
        } else if i < n && is_bin_bad(s[i]) {
        } else if last == p {
        } else {
            if let Some(v) = number_value(s, p, last + 1, 2, 2) {
                let t = LexTok { kind: LexKind::Number(v), a: p, b: last + 1 };
                lemma_push_ordered(acc, t, n);
                lemma_lex_scan_ordered(s, i, LexMode::Top, acc.push(t));
            }
        },
    }
}

/// No character of `s[a..b]` is whitespace or `;`.
pub open spec fn clean_span(s: Seq<char>, a: int, b: int) -> bool {
    forall|k: int| a <= k < b ==> !is_whitespace_char(#[trigger] s[k]) && s[k] != ';'
}

/// Every token's text holds no whitespace and no `;`, and no `;` comes
/// before the end of any token.
pub open spec fn tokens_clean(ts: Seq<LexTok>, s: Seq<char>) -> bool {
    forall|j: int|
        0 <= j < ts.len() ==> clean_span(s, #[trigger] ts[j].a, ts[j].b) && (forall|k: int|
            0 <= k < ts[j].b ==> s[k] != ';')
}

proof fn lemma_plain_chars(c: char)
    ensures
        (is_ident_char(c) || is_hex_char(c) || is_bin_char(c) || is_dec_char(c) || c == 'x' || c
            == 'b' || c == '+' || c == '-') ==> !is_whitespace_char(c) && c != ';',
{
}

proof fn lemma_push_clean(acc: Seq<LexTok>, t: LexTok, s: Seq<char>)
    requires
        tokens_clean(acc, s),
        clean_span(s, t.a, t.b),
        forall|k: int| 0 <= k < t.b ==> s[k] != ';',
    ensures
        tokens_clean(acc.push(t), s),
{
    let r = acc.push(t);
    assert forall|j: int| 0 <= j < r.len() implies clean_span(s, #[trigger] r[j].a, r[j].b) && (
    forall|k: int| 0 <= k < r[j].b ==> s[k] != ';') by {
        if j < acc.len() {
            assert(r[j] == acc[j]);
        }
    }
}

proof fn lemma_lex_scan_clean(s: Seq<char>, i: int, mode: LexMode, acc: Seq<LexTok>)
    requires
        0 <= i <= s.len(),
        mode_ok(mode, i),
        tokens_clean(acc, s),
        forall|k: int| 0 <= k < i ==> s[k] != ';',
        clean_span(s, mode_start(mode, i), i),
    ensures
        lex_scan(s, i, mode, acc) matches LexOutcome::Done(ts) ==> tokens_clean(ts, s),
    decreases (s.len() - i) * 2 + mode_rank(mode),
{
    let n = s.len() as int;
    if i < n {
        lemma_plain_chars(s[i]);
    }
    if i + 1 < n {
        lemma_plain_chars(s[i + 1]);
    }
    match mode {
        LexMode::Top => if i < n {
            let c = s[i];
            if is_whitespace_char(c) {
                lemma_lex_scan_clean(s, i + 1, LexMode::Top, acc);
            } else if is_ident_start(c) {
                lemma_lex_scan_clean(s, i + 1, LexMode::Ident(i), acc);
            } else if '1' <= c && c <= '9' {
                lemma_lex_scan_clean(s, i + 1, LexMode::Dec(i, i), acc);
            } else if c == '0' {
                lemma_lex_scan_clean(s, i + 1, LexMode::Zero(i), acc);
            } else if (c == '+' || c == '-') && i + 1 < n && s[i + 1] == c {
                let t = LexTok { kind: LexKind::Symbol, a: i, b: i + 2 };
                lemma_push_clean(acc, t, s);
                lemma_lex_scan_clean(s, i + 2, LexMode::Top, acc.push(t));
            } else if c == ';' {
            } else if c as u32 >= 128 {
            } else {
                let t = LexTok { kind: LexKind::Symbol, a: i, b: i + 1 };
                lemma_push_clean(acc, t, s);
                lemma_lex_scan_clean(s, i + 1, LexMode::Top, acc.push(t));
            }
        },
        LexMode::Ident(p) => if i < n && is_ident_char(s[i]) {
            lemma_lex_scan_clean(s, i + 1, LexMode::Ident(p), acc);
        } else {
            let t = LexTok { kind: LexKind::Text, a: p, b: i };
            lemma_push_clean(acc, t, s);
            lemma_lex_scan_clean(s, i, LexMode::Top, acc.push(t));
        },
        LexMode::Dec(p, last) => if i < n && is_dec_char(s[i]) {
            lemma_lex_scan_clean(s, i + 1, LexMode::Dec(p, i), acc);
        } else if i < n && is_ascii_letter(s[i]) {
        } else {
            if let Some(v) = number_value(s, p, last + 1, 0, 10) {
                let t = LexTok { kind: LexKind::Number(v), a: p, b: last + 1 };
                lemma_push_clean(acc, t, s);
                lemma_lex_scan_clean(s, i, LexMode::Top, acc.push(t));
            }
        },
        LexMode::Zero(p) => if i == n {
            let t = LexTok { kind: LexKind::Number(0), a: p, b: p + 1 };
            lemma_push_clean(acc, t, s);
            lemma_lex_scan_clean(s, i, LexMode::Top, acc.push(t));
        } else {
            let c = s[i];
            if is_ascii_digit(c) {
                lemma_lex_scan_clean(s, i + 1, LexMode::Dec(p, p), acc);
            } else if c == 'x' {
                lemma_lex_scan_clean(s, i + 1, LexMode::Hex(p, p), acc);
            } else if c == 'b' {
                lemma_lex_scan_clean(s, i + 1, LexMode::Bin(p, p), acc);
            }
        },
        LexMode::Hex(p, last) => if i < n && is_hex_char(s[i]) {
            lemma_lex_scan_clean(s, i + 1, LexMode::Hex(p, i), acc);
        } else if i < n && is_hex_bad(s[i]) {
        } else if last == p {
        } else {
            if let Some(v) = number_value(s, p, last + 1, 2, 16) {
                let t = LexTok { kind: LexKind::Number(v), a: p, b: last + 1 };
                lemma_push_clean(acc, t, s);
                lemma_lex_scan_clean(s, i, LexMode::Top, acc.push(t));
            }
        },
        LexMode::Bin(p, last) => if i < n && is_bin_char(s[i]) {
            lemma_lex_scan_clean(s, i + 1, LexMode::Bin(p, i), acc);
        } else if i < n && is_bin_bad(s[i]) {
        } else if last == p {
        } else {
            if let Some(v) = number_value(s, p, last + 1, 2, 2) {
                let t = LexTok { kind: LexKind::Number(v), a: p, b: last + 1 };
                lemma_push_clean(acc, t, s);
                lemma_lex_scan_clean(s, i, LexMode::Top, acc.push(t));
            }
        },
    }
}

/// The tokens of a line lie inside it, are non-empty and come in the order
/// of the line without overlapping; their text holds no whitespace, and
/// they all end before the first `;`.
pub proof fn lemma_tokens_in_order(s: Seq<char>)
    ensures
        lex_line(s) matches LexOutcome::Done(ts) ==> spans_ordered(ts, s.len() as int)
            && tokens_clean(ts, s),
{
    lemma_lex_scan_ordered(s, 0, LexMode::Top, seq![]);
    lemma_lex_scan_clean(s, 0, LexMode::Top, seq![]);
}

/// No character of `s[0..=k]` is `;`: position `k` lies before the comment.
pub open spec fn before_comment(s: Seq<char>, k: int) -> bool {
    forall|m: int| 0 <= m <= k ==> s[m] != ';'
}

/// Position `k` holds a character that is neither whitespace nor part of the
/// comment.
pub open spec fn needs_cover(s: Seq<char>, k: int) -> bool {
    &&& 0 <= k < s.len()
    &&& !is_whitespace_char(s[k])
    &&& before_comment(s, k)
}

/// Some token's span holds position `k`.
pub open spec fn in_some_token(ts: Seq<LexTok>, k: int) -> bool {
    exists|j: int| 0 <= j < ts.len() && (#[trigger] ts[j]).a <= k < ts[j].b
}

/// Position `k` is the digit right after a literal `0` that the lexer reads
/// as the number zero and ends there, as in `01`: that digit is dropped.
pub open spec fn dropped_digit(ts: Seq<LexTok>, s: Seq<char>, k: int) -> bool {
    exists|j: int|
        0 <= j < ts.len() && (#[trigger] ts[j]).kind is Number && ts[j].a + 1 == k && ts[j].b == k
            && s[ts[j].a] == '0' && is_ascii_digit(s[k])
}

pub open spec fn covered(ts: Seq<LexTok>, s: Seq<char>, k: int) -> bool {
    in_some_token(ts, k) || dropped_digit(ts, s, k)
}

/// Every position below `upto` that needs a token has one.
pub open spec fn covered_upto(ts: Seq<LexTok>, s: Seq<char>, upto: int) -> bool {
    forall|k: int| k < upto && #[trigger] needs_cover(s, k) ==> covered(ts, s, k)
}

/// What the lexer's state says of the characters read since its token
/// started: a number's last digit is the one just read, except right after
/// a leading `0` and one more digit.
pub open spec fn mode_tight(s: Seq<char>, mode: LexMode, i: int) -> bool {
    match mode {
        LexMode::Top => true,
        LexMode::Ident(_) => true,
        LexMode::Dec(p, last) => last + 1 == i || (last == p && i == p + 2 && s[p] == '0'
            && is_ascii_digit(s[p + 1])),
        LexMode::Zero(p) => s[p] == '0',
        LexMode::Hex(p, last) => last == p || last + 1 == i,
        LexMode::Bin(p, last) => last == p || last + 1 == i,
    }
}

proof fn lemma_push_covers(acc: Seq<LexTok>, s: Seq<char>, t: LexTok, upto: int)
    requires
        covered_upto(acc, s, t.a),
        t.b <= upto,
        forall|k: int| t.b <= k < upto ==> !needs_cover(s, k) || (t.kind is Number && t.a + 1 == k
            && t.b == k && s[t.a] == '0' && is_ascii_digit(s[k])),
    ensures
        covered_upto(acc.push(t), s, upto),
{
    let r = acc.push(t);
    assert(r[acc.len() as int] == t);
    assert forall|k: int| k < upto && #[trigger] needs_cover(s, k) implies covered(r, s, k) by {
        if k < t.a {
            assert(covered(acc, s, k));
            if in_some_token(acc, k) {
                let j = choose|j: int| 0 <= j < acc.len() && (#[trigger] acc[j]).a <= k < acc[j].b;
                assert(r[j] == acc[j]);
            } else {
                let j = choose|j: int|
                    0 <= j < acc.len() && (#[trigger] acc[j]).kind is Number && acc[j].a + 1 == k
                        && acc[j].b == k && s[acc[j].a] == '0' && is_ascii_digit(s[k]);
                assert(r[j] == acc[j]);
            }
        } else if k < t.b {
            assert(in_some_token(r, k));
        } else {
            assert(dropped_digit(r, s, k));
        }
    }
}

proof fn lemma_lex_scan_covers(s: Seq<char>, i: int, mode: LexMode, acc: Seq<LexTok>)
    requires
        0 <= i <= s.len(),
        mode_ok(mode, i),
        mode_tight(s, mode, i),
        covered_upto(acc, s, mode_start(mode, i)),
    ensures
        lex_scan(s, i, mode, acc) matches LexOutcome::Done(ts) ==> covered_upto(ts, s, s.len() as int),
    decreases (s.len() - i) * 2 + mode_rank(mode),
{
    let n = s.len() as int;
    match mode {
        LexMode::Top => if i < n {
            let c = s[i];
            if is_whitespace_char(c) {
                assert(!needs_cover(s, i));
                lemma_lex_scan_covers(s, i + 1, LexMode::Top, acc);
            } else if is_ident_start(c) {
                lemma_lex_scan_covers(s, i + 1, LexMode::Ident(i), acc);
            } else if '1' <= c && c <= '9' {
                lemma_lex_scan_covers(s, i + 1, LexMode::Dec(i, i), acc);
            } else if c == '0' {
                lemma_lex_scan_covers(s, i + 1, LexMode::Zero(i), acc);
            } else if (c == '+' || c == '-') && i + 1 < n && s[i + 1] == c {
                let t = LexTok { kind: LexKind::Symbol, a: i, b: i + 2 };
                lemma_push_covers(acc, s, t, i + 2);
                lemma_lex_scan_covers(s, i + 2, LexMode::Top, acc.push(t));
            } else if c == ';' {
                assert forall|k: int| k < n && #[trigger] needs_cover(s, k) implies covered(acc, s, k) by {
                    if k >= i {
                        assert(s[i] != ';');
                    }
                }
            } else if c as u32 >= 128 {
            } else {
                let t = LexTok { kind: LexKind::Symbol, a: i, b: i + 1 };
                lemma_push_covers(acc, s, t, i + 1);
                lemma_lex_scan_covers(s, i + 1, LexMode::Top, acc.push(t));
            }
        },
        LexMode::Ident(p) => if i < n && is_ident_char(s[i]) {
            lemma_lex_scan_covers(s, i + 1, LexMode::Ident(p), acc);
        } else {
            let t = LexTok { kind: LexKind::Text, a: p, b: i };
            lemma_push_covers(acc, s, t, i);
            lemma_lex_scan_covers(s, i, LexMode::Top, acc.push(t));
        },
        LexMode::Dec(p, last) => if i < n && is_dec_char(s[i]) {
            lemma_lex_scan_covers(s, i + 1, LexMode::Dec(p, i), acc);
        } else if i < n && is_ascii_letter(s[i]) {
        } else {
            if let Some(v) = number_value(s, p, last + 1, 0, 10) {
                let t = LexTok { kind: LexKind::Number(v), a: p, b: last + 1 };
                lemma_push_covers(acc, s, t, i);
                lemma_lex_scan_covers(s, i, LexMode::Top, acc.push(t));
            }
        },
        LexMode::Zero(p) => if i == n {
            let t = LexTok { kind: LexKind::Number(0), a: p, b: p + 1 };
            lemma_push_covers(acc, s, t, i);
            lemma_lex_scan_covers(s, i, LexMode::Top, acc.push(t));
        } else {
            let c = s[i];
            if is_ascii_digit(c) {
                lemma_lex_scan_covers(s, i + 1, LexMode::Dec(p, p), acc);
            } else if c == 'x' {
                lemma_lex_scan_covers(s, i + 1, LexMode::Hex(p, p), acc);
            } else if c == 'b' {
                lemma_lex_scan_covers(s, i + 1, LexMode::Bin(p, p), acc);
            }
        },
        LexMode::Hex(p, last) => if i < n && is_hex_char(s[i]) {
            lemma_lex_scan_covers(s, i + 1, LexMode::Hex(p, i), acc);
        } else if i < n && is_hex_bad(s[i]) {
        } else if last == p {
        } else {
            if let Some(v) = number_value(s, p, last + 1, 2, 16) {
                let t = LexTok { kind: LexKind::Number(v), a: p, b: last + 1 };
                lemma_push_covers(acc, s, t, i);
                lemma_lex_scan_covers(s, i, LexMode::Top, acc.push(t));
            }
        },
        LexMode::Bin(p, last) => if i < n && is_bin_char(s[i]) {
            lemma_lex_scan_covers(s, i + 1, LexMode::Bin(p, i), acc);
        } else if i < n && is_bin_bad(s[i]) {
        } else if last == p {
        } else {
            if let Some(v) = number_value(s, p, last + 1, 2, 2) {
                let t = LexTok { kind: LexKind::Number(v), a: p, b: last + 1 };
                lemma_push_covers(acc, s, t, i);
                lemma_lex_scan_covers(s, i, LexMode::Top, acc.push(t));
            }
        },
    }
}

/// The tokens of a line cover it: every character before the first `;`
/// that is not whitespace lies in some token, except the digit right after
/// a leading `0` that ends a number there, as the `1` of `01`.
pub proof fn lemma_tokens_cover_line(s: Seq<char>)
    ensures
        lex_line(s) matches LexOutcome::Done(ts) ==> forall|k: int|
            #[trigger] needs_cover(s, k) ==> in_some_token(ts, k) || dropped_digit(ts, s, k),
{
    lemma_lex_scan_covers(s, 0, LexMode::Top, seq![]);
}

/// On a line without a number that starts with `0` and one more digit and
/// ends there, every character before the first `;` that is not whitespace
/// lies in some token.
pub proof fn lemma_tokens_cover_line_fully(s: Seq<char>)
    requires
        lex_line(s) matches LexOutcome::Done(ts) ==> forall|j: int|
            0 <= j < ts.len() ==> !(#[trigger] ts[j].kind is Number && ts[j].b == ts[j].a + 1
                && ts[j].b < s.len() && s[ts[j].a] == '0' && is_ascii_digit(s[ts[j].b])),
    ensures
        lex_line(s) matches LexOutcome::Done(ts) ==> forall|k: int|
            #[trigger] needs_cover(s, k) ==> in_some_token(ts, k),
{
    lemma_tokens_cover_line(s);
}

proof fn lemma_digits_value_nonneg(x: Seq<char>, radix: int)
    requires
        radix >= 0,
    ensures
        digits_value(x, radix) >= 0,
    decreases x.len(),
{
    if x.len() > 0 {
        lemma_digits_value_nonneg(x.drop_last(), radix);
        assert(digits_value(x.drop_last(), radix) * radix >= 0) by (nonlinear_arith)
            requires
                digits_value(x.drop_last(), radix) >= 0,
                radix >= 0,
        ;
    }
}

/// Digits of base `radix` and `_` separators, with at least one digit.
pub open spec fn is_digits_body(d: Seq<char>, radix: int) -> bool {
    &&& forall|k: int| 0 <= k < d.len() ==> #[trigger] d[k] == '_' || digit_value(d[k]) < radix
    &&& exists|k: int| 0 <= k < d.len() && d[k] != '_' && #[trigger] digit_value(d[k]) < radix
}

proof fn lemma_digits_body_value(d: Seq<char>, radix: int)
    requires
        2 <= radix <= 16,
        is_digits_body(d, radix),
        digits_value(without_underscores(d), radix) <= i64::MAX,
    ensures
        parse_int_in(without_underscores(d), radix, true, i64::MIN as int, i64::MAX as int) == Some(
            digits_value(without_underscores(d), radix),
        ),
{
    let x = without_underscores(d);
    let pred = |c: char| c != '_';
    let k0 = choose|k: int| 0 <= k < d.len() && d[k] != '_' && #[trigger] digit_value(d[k]) < radix;
    d.lemma_filter_contains(pred, k0);
    assert(x.contains(d[k0]));
    assert(x.len() > 0);
    assert forall|i: int| 0 <= i < x.len() implies #[trigger] digit_value(x[i]) < radix by {
        assert(x.contains(x[i]));
        d.lemma_filter_contains_rev(pred, x[i]);
        d.lemma_filter_pred(pred, i);
        assert(x[i] != '_');
    }
    assert(x[0] != '+' && x[0] != '-') by {
        assert(digit_value(x[0]) < radix);
    }
    lemma_digits_value_nonneg(x, radix);
}

proof fn lemma_bin_run(s: Seq<char>, j: int, last: int, acc: Seq<LexTok>)
    requires
        2 <= j < s.len(),
        forall|k: int| 2 <= k < s.len() ==> #[trigger] is_bin_char(s[k]),
    ensures
        lex_scan(s, j, LexMode::Bin(0, last), acc) == lex_scan(s, s.len() as int, LexMode::Bin(0, s.len() - 1), acc),
    decreases s.len() - j,
{
    assert(is_bin_char(s[j]));
    if j + 1 < s.len() {
        lemma_bin_run(s, j + 1, j, acc);
    }
}

proof fn lemma_hex_run(s: Seq<char>, j: int, last: int, acc: Seq<LexTok>)
    requires
        2 <= j < s.len(),
        forall|k: int| 2 <= k < s.len() ==> #[trigger] is_hex_char(s[k]),
    ensures
        lex_scan(s, j, LexMode::Hex(0, last), acc) == lex_scan(s, s.len() as int, LexMode::Hex(0, s.len() - 1), acc),
    decreases s.len() - j,
{
    assert(is_hex_char(s[j]));
    if j + 1 < s.len() {
        lemma_hex_run(s, j + 1, j, acc);
    }
}

proof fn lemma_dec_run(s: Seq<char>, j: int, acc: Seq<LexTok>)
    requires
        1 <= j < s.len(),
        forall|k: int| 1 <= k < s.len() ==> #[trigger] is_dec_char(s[k]),
    ensures
        lex_scan(s, j, LexMode::Dec(0, j - 1), acc) == lex_scan(s, s.len() as int, LexMode::Dec(0, s.len() - 1), acc),
    decreases s.len() - j,
{
    assert(is_dec_char(s[j]));
    if j + 1 < s.len() {
        lemma_dec_run(s, j + 1, acc);
    }
}

/// A binary literal `0b` followed by binary digits and `_` separators, with
/// at least one digit and a value that fits in 64 bits, lexes as one number
/// token that spans the whole literal; its value is that of the digits in
/// base 2, the separators left out.
pub proof fn lemma_binary_literal(d: Seq<char>)
    requires
        forall|k: int| 0 <= k < d.len() ==> #[trigger] d[k] == '0' || d[k] == '1' || d[k] == '_',
        exists|k: int| 0 <= k < d.len() && (#[trigger] d[k] == '0' || d[k] == '1'),
        digits_value(without_underscores(d), 2) <= i64::MAX,
    ensures
        lex_line(seq!['0', 'b'] + d) == LexOutcome::Done(
            seq![LexTok { kind: LexKind::Number(digits_value(without_underscores(d), 2)), a: 0, b: (d.len() + 2) as int }],
        ),
{
    let s = seq!['0', 'b'] + d;
    let n = s.len() as int;
    let k0 = choose|k: int| 0 <= k < d.len() && (#[trigger] d[k] == '0' || d[k] == '1');
    assert(d[k0] != '_' && digit_value(d[k0]) < 2);
    lemma_digits_body_value(d, 2);
    assert(s.subrange(2, n) =~= d);
    assert forall|k: int| 2 <= k < n implies #[trigger] is_bin_char(s[k]) by {
        assert(s[k] == d[k - 2]);
    }
    assert(s[0] == '0' && s[1] == 'b');
    lemma_bin_run(s, 2, 0, seq![]);
    let v = digits_value(without_underscores(d), 2);
    assert(number_value(s, 0, n, 2, 2) == Some(v));
    let t = LexTok { kind: LexKind::Number(v), a: 0, b: n };
    assert(lex_scan(s, n, LexMode::Bin(0, n - 1), seq![]) == lex_scan(s, n, LexMode::Top, seq![t]));
    assert(lex_scan(s, n, LexMode::Top, seq![t]) == LexOutcome::Done(seq![t]));
    assert(!is_whitespace_char(s[0]));
    assert(lex_scan(s, 0, LexMode::Top, seq![]) == lex_scan(s, 1, LexMode::Zero(0), seq![]));
    assert(lex_scan(s, 1, LexMode::Zero(0), seq![]) == lex_scan(s, 2, LexMode::Bin(0, 0), seq![]));
}

/// A hexadecimal literal `0x` followed by hexadecimal digits of either case
/// (`0-9`, `a-f`, `A-F`) and `_` separators, with at least one digit and a value that fits in 64
/// bits, lexes as one number token that spans the whole literal; its value
/// is that of the digits in base 16, the separators left out.
pub proof fn lemma_hex_literal(d: Seq<char>)
    requires
        is_digits_body(d, 16),
        digits_value(without_underscores(d), 16) <= i64::MAX,
    ensures
        lex_line(seq!['0', 'x'] + d) == LexOutcome::Done(
            seq![LexTok { kind: LexKind::Number(digits_value(without_underscores(d), 16)), a: 0, b: (d.len() + 2) as int }],
        ),
{
    let s = seq!['0', 'x'] + d;
    let n = s.len() as int;
    lemma_digits_body_value(d, 16);
    assert(s.subrange(2, n) =~= d);
    assert forall|k: int| 2 <= k < n implies #[trigger] is_hex_char(s[k]) by {
        assert(s[k] == d[k - 2]);
        assert(d[k - 2] == '_' || digit_value(d[k - 2]) < 16);
    }
    assert(s[0] == '0' && s[1] == 'x');
    lemma_hex_run(s, 2, 0, seq![]);
    let v = digits_value(without_underscores(d), 16);
    assert(number_value(s, 0, n, 2, 16) == Some(v));
    let t = LexTok { kind: LexKind::Number(v), a: 0, b: n };
    assert(lex_scan(s, n, LexMode::Hex(0, n - 1), seq![]) == lex_scan(s, n, LexMode::Top, seq![t]));
    assert(lex_scan(s, n, LexMode::Top, seq![t]) == LexOutcome::Done(seq![t]));
    assert(!is_whitespace_char(s[0]));
    assert(lex_scan(s, 0, LexMode::Top, seq![]) == lex_scan(s, 1, LexMode::Zero(0), seq![]));
    assert(lex_scan(s, 1, LexMode::Zero(0), seq![]) == lex_scan(s, 2, LexMode::Hex(0, 0), seq![]));
}

/// A decimal literal that starts with a digit from 1 to 9, followed by
/// digits and `_` separators, with a value that fits in 64 bits, lexes as
/// one number token that spans the whole literal; its value is that of the
/// digits in base 10, the separators left out.
pub proof fn lemma_decimal_literal(d: Seq<char>)
    requires
        d.len() > 0,
        '1' <= d[0] <= '9',
        forall|k: int| 1 <= k < d.len() ==> #[trigger] d[k] == '_' || ('0' <= d[k] <= '9'),
        digits_value(without_underscores(d), 10) <= i64::MAX,
    ensures
        lex_line(d) == LexOutcome::Done(
            seq![LexTok { kind: LexKind::Number(digits_value(without_underscores(d), 10)), a: 0, b: d.len() as int }],
        ),
{
    let n = d.len() as int;
    assert(d[0] != '_' && digit_value(d[0]) < 10);
    assert forall|k: int| 0 <= k < d.len() implies #[trigger] d[k] == '_' || digit_value(d[k]) < 10 by {
        if k > 0 {
            assert(d[k] == '_' || ('0' <= d[k] <= '9'));
        }
    }
    lemma_digits_body_value(d, 10);
    assert forall|k: int| 1 <= k < n implies #[trigger] is_dec_char(d[k]) by {
        assert(d[k] == '_' || ('0' <= d[k] <= '9'));
    }
    if n > 1 {
        lemma_dec_run(d, 1, seq![]);
    }
    assert(d.subrange(0, n) =~= d);
    let v = digits_value(without_underscores(d), 10);
    assert(number_value(d, 0, n, 0, 10) == Some(v));
    let t = LexTok { kind: LexKind::Number(v), a: 0, b: n };
    assert(lex_scan(d, n, LexMode::Dec(0, n - 1), seq![]) == lex_scan(d, n, LexMode::Top, seq![t]));
    assert(lex_scan(d, n, LexMode::Top, seq![t]) == LexOutcome::Done(seq![t]));
    assert(!is_whitespace_char(d[0]));
    assert(lex_scan(d, 0, LexMode::Top, seq![]) == lex_scan(d, 1, LexMode::Dec(0, 0), seq![]));
}

} // verus!
