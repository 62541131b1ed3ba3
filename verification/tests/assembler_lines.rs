use archie::assembler::{
    assemble_line, parse_address, parse_instruction, parse_interrupt, parse_register, parse_tag,
    parse_u16, tokenize, tokenize_fails, AddressMode, LineOutcome, TokenStream,
};

fn assemble(line: &str) -> Result<Vec<u16>, String> {
    let tokens = tokenize(line);
    let mut stream = TokenStream::new(tokens);
    let op = stream.next().expect("an operation");
    let mut out = Vec::new();
    parse_instruction(op, &mut stream, &mut out).map(|_| out)
}

#[test]
fn lines_split_into_words_and_symbols() {
    assert_eq!(tokenize("LDI R1, 5"), vec!["LDI", "R1", ",", "5"]);
    assert_eq!(tokenize("  STW [R3], R4  "), vec!["STW", "[", "R3", "]", ",", "R4"]);
    assert_eq!(tokenize("LDW R1, [--R2]"), vec!["LDW", "R1", ",", "[", "-", "-", "R2", "]"]);
    assert_eq!(tokenize(""), Vec::<&str>::new());
}

#[test]
fn a_semicolon_ends_the_line() {
    assert_eq!(tokenize("ADD R1, R2 ; add them"), vec!["ADD", "R1", ",", "R2"]);
    assert_eq!(tokenize("; only a comment"), Vec::<&str>::new());
    assert_eq!(tokenize("NOP;x y"), vec!["NOP"]);
    assert_eq!(tokenize("RET;x"), vec!["RET"]);
    assert_eq!(tokenize("LDW R1, [R2 + 4] ; c"), vec!["LDW", "R1", ",", "[", "R2", "+", "4", "]"]);
}

#[test]
fn non_ascii_letters_are_part_of_words() {
    assert_eq!(tokenize("MOV Rä, R2"), vec!["MOV", "Rä", ",", "R2"]);
    assert!(!tokenize_fails("MOV Rä, R2"));
    assert!(tokenize_fails("MOV R1 €"));
    assert!(!tokenize_fails("; €"));
}

#[test]
fn registers_and_tags_parse() {
    let mut s = TokenStream::new(vec!["r7", "SP", "x", "]"]);
    assert_eq!(parse_register(&mut s), Ok(7));
    assert_eq!(parse_register(&mut s), Ok(14));
    assert_eq!(parse_register(&mut s), Err("Invalid register 'x'".to_string()));
    assert_eq!(parse_tag(&mut s, ","), Err("Expected a ',' but got ']'".to_string()));
    assert_eq!(parse_tag(&mut s, ","), Err("Expected a ',' but got nothing".to_string()));
    assert_eq!(parse_register(&mut s), Err("Expected a register but got nothing".to_string()));
}

#[test]
fn numbers_parse_in_decimal_then_hex_then_octal() {
    let mut s = TokenStream::new(vec!["10", "1F", "-1", "70000", "x", "-32769"]);
    assert_eq!(parse_u16(&mut s), Ok(10));
    assert_eq!(parse_u16(&mut s), Ok(31));
    assert_eq!(parse_u16(&mut s), Ok(0xFFFF));
    assert_eq!(
        parse_u16(&mut s),
        Err("Value '70000' does not fit in the 16 bit value range from -32768 to 65535".to_string())
    );
    assert_eq!(parse_u16(&mut s), Err("Expected a number but got 'x'".to_string()));
    assert_eq!(
        parse_u16(&mut s),
        Err("Value '-32769' does not fit in the 16 bit value range from -32768 to 65535".to_string())
    );
    assert_eq!(parse_u16(&mut s), Err("Expected a number but got nothing".to_string()));
}

#[test]
fn interrupt_numbers_are_below_sixteen() {
    let mut s = TokenStream::new(vec!["5"]);
    assert_eq!(parse_interrupt(&mut s), Ok(5));
    let mut s = TokenStream::new(vec!["1F"]);
    assert_eq!(parse_interrupt(&mut s), Err("Invalid interrupt number '31'".to_string()));
    let mut s = TokenStream::new(vec!["q"]);
    assert_eq!(parse_interrupt(&mut s), Err("Expected an interrupt number but got 'q'".to_string()));
    let mut s = TokenStream::new(vec!["3", "4"]);
    assert_eq!(parse_interrupt(&mut s), Err("Unexpected extra token '4'".to_string()));
}

#[test]
fn address_operands_parse() {
    let mut s = TokenStream::new(tokenize("[R2]"));
    assert_eq!(parse_address(&mut s), Ok(AddressMode::Indirect { r: 2 }));
    let mut s = TokenStream::new(tokenize("[--R2]"));
    assert_eq!(parse_address(&mut s), Ok(AddressMode::PreDecrement { r: 2 }));
    let mut s = TokenStream::new(tokenize("[R2 + 10]"));
    assert_eq!(parse_address(&mut s), Ok(AddressMode::Offset { r: 2, offset: 10 }));
    let mut s = TokenStream::new(tokenize("[R1++]"));
    assert_eq!(parse_address(&mut s), Ok(AddressMode::PostIncrement { r: 1 }));
    assert_eq!(s.next(), None);
    let mut s = TokenStream::new(tokenize("[R1+]"));
    assert_eq!(parse_address(&mut s), Err("Expected a number but got ']'".to_string()));
    let mut s = TokenStream::new(tokenize("[R2 - 1]"));
    assert_eq!(
        parse_address(&mut s),
        Err("Expected either a post increment or a offset addition".to_string())
    );
    let mut s = TokenStream::new(tokenize("["));
    assert_eq!(parse_address(&mut s), Err("Expected an addressing mode but got nothing".to_string()));
    assert_eq!(AddressMode::PostIncrement { r: 3 }.mode(), 0x0100);
    assert_eq!(AddressMode::Offset { r: 3, offset: 9 }.reg(), 3);
    assert_eq!(AddressMode::Offset { r: 3, offset: 9 }.offset(), Some(9));
    assert_eq!(AddressMode::Indirect { r: 3 }.offset(), None);
}

#[test]
fn system_instructions_assemble_to_one_word() {
    assert_eq!(assemble("NOP"), Ok(vec![0x0000]));
    assert_eq!(assemble("RET"), Ok(vec![0x0030]));
    assert_eq!(assemble("IRET"), Ok(vec![0x0050]));
    assert_eq!(assemble("CLI"), Ok(vec![0x0060]));
    assert_eq!(assemble("STI"), Ok(vec![0x0070]));
    assert_eq!(assemble("DBG"), Ok(vec![0x00BB]));
    assert_eq!(assemble("HALT"), Ok(vec![0x0FFF]));
    assert_eq!(assemble("INT 5"), Ok(vec![0x0045]));
}

fn assemble_tokens(op: &str, operands: Vec<&str>) -> Result<Vec<u16>, String> {
    let mut stream = TokenStream::new(operands);
    let mut out = Vec::new();
    parse_instruction(op, &mut stream, &mut out).map(|_| out)
}

#[test]
fn immediate_loads_pick_the_shortest_form() {
    assert_eq!(assemble("LDI R1, 5"), Ok(vec![0x4115]));
    assert_eq!(assemble_tokens("LDI", vec!["R1", ",", "-1"]), Ok(vec![0x421F]));
    assert_eq!(assemble_tokens("LDI", vec!["R1", ",", "-15"]), Ok(vec![0x4211]));
    assert_eq!(assemble("LDI R1, 65535"), Ok(vec![0x421F]));
    assert_eq!(assemble_tokens("LDI", vec!["R1", ",", "-16"]), Ok(vec![0x4010, 0xFFF0]));
    assert_eq!(assemble("LDI R2, 300"), Ok(vec![0x4020, 300]));
    assert_eq!(assemble("LDI R2, FFFF"), Ok(vec![0x422F]));
    // The tokenizer makes a minus sign a token of its own.
    assert_eq!(assemble("LDI R1, -1"), Err("Expected a number but got '-'".to_string()));
}

#[test]
fn calls_and_jumps_take_a_register_or_a_value() {
    assert_eq!(assemble("CALL R1"), Ok(vec![0x0021]));
    assert_eq!(assemble("CALL 100"), Ok(vec![0x0010, 100]));
    assert_eq!(assemble("JMP R1"), Ok(vec![0x5110]));
    let mut s = TokenStream::new(vec!["R1"]);
    assert_eq!(archie::assembler::parse_register_or_u16(&mut s), Ok(archie::assembler::RegisterOrU16::Register(1)));
    assert_eq!(s.next(), None);
    let mut s = TokenStream::new(vec!["100"]);
    assert_eq!(archie::assembler::parse_register_or_u16(&mut s), Ok(archie::assembler::RegisterOrU16::U16(100)));
    assert_eq!(s.next(), None);
}

#[test]
fn register_instructions_assemble() {
    assert_eq!(assemble("MOV R1, R2"), Ok(vec![0x4312]));
    assert_eq!(assemble("PUSH R3"), Ok(vec![0x4E30]));
    assert_eq!(assemble("POP R3"), Ok(vec![0x4F30]));
    assert_eq!(assemble("ADD R1, R2"), Ok(vec![0x6012]));
    assert_eq!(assemble("ADDC R1, R2"), Ok(vec![0x6112]));
    assert_eq!(assemble("SUB R1, R2"), Ok(vec![0x6212]));
    assert_eq!(assemble("SUBC R1, R2"), Ok(vec![0x6312]));
    assert_eq!(assemble("XOR R1, R2"), Ok(vec![0x6612]));
    assert_eq!(assemble("SHL R1, R2"), Ok(vec![0x6812]));
    assert_eq!(assemble("SHR R1, R2"), Ok(vec![0x6912]));
    assert_eq!(assemble("ASR R1, R2"), Ok(vec![0x6A12]));
    assert_eq!(assemble("CMP R1, R2"), Ok(vec![0x6F12]));
    assert_eq!(assemble("NOT R5"), Ok(vec![0x6750]));
    assert_eq!(assemble("NEG R5"), Ok(vec![0x6F05]));
    assert_eq!(assemble("DECW R5"), Ok(vec![0x6F55]));
}

#[test]
fn memory_instructions_assemble_with_offsets() {
    assert_eq!(assemble("LDW R1, [R2]"), Ok(vec![0x1421]));
    assert_eq!(assemble("LDW R1, [R2 + 4]"), Ok(vec![0x1721, 4]));
    assert_eq!(assemble("LDW R1, [R2++]"), Ok(vec![0x1521]));
    assert_eq!(assemble("LRS R1, [--R2]"), Ok(vec![0x2A21]));
    assert_eq!(assemble("LDB R1, [R2 + 10]"), Ok(vec![0x1321, 10]));
    assert_eq!(assemble("LDS R1, [R2]"), Ok(vec![0x1821]));
    assert_eq!(assemble("STW [R3], R4"), Ok(vec![0x3443]));
    assert_eq!(assemble("STB [R3 + 1F], R4"), Ok(vec![0x3343, 31]));
}

#[test]
fn operand_errors_are_reported() {
    assert_eq!(assemble("FOO"), Err("Unknown instruction 'FOO'".to_string()));
    assert_eq!(assemble("MOV R1 R2"), Err("Expected a ',' but got 'R2'".to_string()));
    assert_eq!(assemble("PUSH R1, R2"), Err("Unexpected extra token ','".to_string()));
    assert_eq!(assemble("CALL R1 R2"), Err("Unexpected extra token 'R2'".to_string()));
    assert_eq!(
        assemble("CALL x 100"),
        Err("Expected either a register or a 16 bit value but got neither".to_string())
    );
    assert_eq!(
        assemble("CALL"),
        Err("Expected either a register or a 16 bit value but got neither".to_string())
    );
    assert_eq!(assemble("JMP R1, R2"), Err("Unexpected extra token ','".to_string()));
    assert_eq!(assemble("JE"), Err("Expected a label but got nothing".to_string()));
}

#[test]
fn assembling_a_line_reports_what_happened() {
    let mut out = vec![0xAAAA];
    assert!(matches!(assemble_line("LDI R1, 300", &mut out), LineOutcome::Assembled));
    assert_eq!(out, vec![0xAAAA, 0x4010, 300]);
    assert!(matches!(assemble_line("   ; nothing", &mut out), LineOutcome::Empty));
    match assemble_line("MOV R1", &mut out) {
        LineOutcome::Error(m) => assert_eq!(m, "Expected a ',' but got nothing"),
        other => panic!("{:?}", other),
    }
    assert!(matches!(assemble_line("loop:", &mut out), LineOutcome::LabelDefinition));
    match assemble_line("loop: NOP", &mut out) {
        LineOutcome::UnexpectedToken(t) => assert_eq!(t, "NOP"),
        other => panic!("{:?}", other),
    }
    assert!(matches!(assemble_line("JE loop", &mut out), LineOutcome::Unimplemented));
    assert!(matches!(assemble_line("JMP loop", &mut out), LineOutcome::Unimplemented));
    assert!(matches!(assemble_line("NOP €", &mut out), LineOutcome::UnsupportedCharacter));
    assert_eq!(out, vec![0xAAAA, 0x4010, 300]);
}

#[test]
fn compare_and_the_one_register_forms_share_words() {
    assert_eq!(assemble("CMP R0, R1"), assemble("NEG R1"));
    assert_eq!(assemble("CMP R2, R7"), assemble("INCB R7"));
    assert_eq!(assemble("CMP R3, R7"), assemble("INCW R7"));
    assert_eq!(assemble("CMP R4, R7"), assemble("DECB R7"));
    assert_eq!(assemble("CMP R5, R7"), assemble("DECW R7"));
    assert_eq!(assemble("CMP R0, R1"), Ok(vec![0x6F01]));
}
