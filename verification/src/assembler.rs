//! The assembler: splits a source line into tokens, parses operands and
//! encodes one instruction into machine words.
use vstd::prelude::*;
use vstd::string::*;

use crate::text::{
    char_is_alphanumeric, char_is_whitespace, concat3, i32_from_str_radix, i64_to_string,
    is_alphanumeric_char, is_whitespace_char, parse_int_in, str_eq, u8_from_str_radix, decimal,
    decimal_digits,
};

verus! {

/// A parse result with its error message as a character sequence.
pub open spec fn rv<T>(r: Result<T, String>) -> Result<T, Seq<char>> {
    match r {
        Ok(v) => Ok(v),
        Err(e) => Err(e@),
    }
}

/// The token at `pos`, if there is one.
pub open spec fn tok_at(toks: Seq<Seq<char>>, pos: int) -> Option<Seq<char>> {
    if 0 <= pos < toks.len() {
        Some(toks[pos])
    } else {
        None
    }
}

/// The position after taking the next token, if there is one.
pub open spec fn after_next(toks: Seq<Seq<char>>, pos: int) -> int {
    if 0 <= pos < toks.len() {
        pos + 1
    } else {
        pos
    }
}

/// The tokens of a line with a read position; taking a token advances it.
pub struct TokenStream<'a> {
    pub tokens: Vec<&'a str>,
    pub pos: usize,
}

impl<'a> TokenStream<'a> {
    pub open spec fn toks(&self) -> Seq<Seq<char>> {
        self.tokens@.map_values(|t: &str| t@)
    }

    /// A stream at the first of the given tokens.
    pub fn new(tokens: Vec<&'a str>) -> (r: Self)
        ensures
            r.tokens@ == tokens@,
            r.pos == 0,
    {
        TokenStream { tokens, pos: 0 }
    }

    /// Takes the next token.
    pub fn next(&mut self) -> (r: Option<&'a str>)
        ensures
            final(self).tokens@ == old(self).tokens@,
            final(self).pos == after_next(old(self).toks(), old(self).pos as int),
            match r {
                Some(t) => tok_at(old(self).toks(), old(self).pos as int) == Some(t@),
                None => tok_at(old(self).toks(), old(self).pos as int) is None,
            },
    {
        if self.pos < self.tokens.len() {
            let t = self.tokens[self.pos];
            self.pos = self.pos + 1;
            Some(t)
        } else {
            None
        }
    }

    /// The next token, without taking it.
    pub fn peek(&self) -> (r: Option<&'a str>)
        ensures
            match r {
                Some(t) => tok_at(self.toks(), self.pos as int) == Some(t@),
                None => tok_at(self.toks(), self.pos as int) is None,
            },
    {
        if self.pos < self.tokens.len() {
            Some(self.tokens[self.pos])
        } else {
            None
        }
    }
}

/// Builds a message from five pieces.
fn msg5(a: &str, b: &str, c: &str, d: &str, e: &str) -> (r: String)
    ensures
        r@ == a@ + b@ + c@ + d@ + e@,
{
    let mut r = String::from_str(a);
    r.append(b);
    r.append(c);
    r.append(d);
    r.append(e);
    r
}

/// The register number a register name denotes: `R0`..`R15` in either case,
/// and the aliases `ST`, `SP` and `PC` for 13, 14 and 15.
pub open spec fn register_number(t: Seq<char>) -> Option<u8> {
    if t == "R0"@ || t == "r0"@ {
        Some(0u8)
    } else if t == "R1"@ || t == "r1"@ {
        Some(1u8)
    } else if t == "R2"@ || t == "r2"@ {
        Some(2u8)
    } else if t == "R3"@ || t == "r3"@ {
        Some(3u8)
    } else if t == "R4"@ || t == "r4"@ {
        Some(4u8)
    } else if t == "R5"@ || t == "r5"@ {
        Some(5u8)
    } else if t == "R6"@ || t == "r6"@ {
        Some(6u8)
    } else if t == "R7"@ || t == "r7"@ {
        Some(7u8)
    } else if t == "R8"@ || t == "r8"@ {
        Some(8u8)
    } else if t == "R9"@ || t == "r9"@ {
        Some(9u8)
    } else if t == "R10"@ || t == "r10"@ {
        Some(10u8)
    } else if t == "R11"@ || t == "r11"@ {
        Some(11u8)
    } else if t == "R12"@ || t == "r12"@ {
        Some(12u8)
    } else if t == "R13"@ || t == "r13"@ || t == "ST"@ {
        Some(13u8)
    } else if t == "R14"@ || t == "r14"@ || t == "SP"@ {
        Some(14u8)
    } else if t == "R15"@ || t == "r15"@ || t == "PC"@ {
        Some(15u8)
    } else {
        None
    }
}

pub open spec fn spec_parse_register(toks: Seq<Seq<char>>, pos: int) -> (Result<u8, Seq<char>>, int) {
    match tok_at(toks, pos) {
        None => (Err("Expected a register but got nothing"@), pos),
        Some(t) => (
            match register_number(t) {
                Some(n) => Ok(n),
                None => Err("Invalid register '"@ + t + "'"@),
            },
            pos + 1,
        ),
    }
}

/// Calls `ux::u4::new` on a value below 16 and converts back with
/// `u8::from`; the source stores the value unchanged.
#[verifier::external_body]
fn new_u4(v: u8) -> (r: u8)
    requires
        v < 16,
    ensures
        r == v,
{
    u8::from(ux::u4::new(v))
}

/// Calls `ux::u4::try_from` on a byte and converts a success back with
/// `u8::from`; the source accepts exactly the values up to `u4::MAX`, 15.
#[verifier::external_body]
fn checked_u4(v: u8) -> (r: Option<u8>)
    ensures
        r == (if v < 16 {
            Some(v)
        } else {
            None
        }),
{
    ux::u4::try_from(v).ok().map(u8::from)
}

fn register_number_of(t: &str) -> (r: Option<u8>)
    ensures
        r == register_number(t@),
{
    if str_eq(t, "R0") || str_eq(t, "r0") {
        Some(new_u4(0))
    } else if str_eq(t, "R1") || str_eq(t, "r1") {
        Some(new_u4(1))
    } else if str_eq(t, "R2") || str_eq(t, "r2") {
        Some(new_u4(2))
    } else if str_eq(t, "R3") || str_eq(t, "r3") {
        Some(new_u4(3))
    } else if str_eq(t, "R4") || str_eq(t, "r4") {
        Some(new_u4(4))
    } else if str_eq(t, "R5") || str_eq(t, "r5") {
        Some(new_u4(5))
    } else if str_eq(t, "R6") || str_eq(t, "r6") {
        Some(new_u4(6))
    } else if str_eq(t, "R7") || str_eq(t, "r7") {
        Some(new_u4(7))
    } else if str_eq(t, "R8") || str_eq(t, "r8") {
        Some(new_u4(8))
    } else if str_eq(t, "R9") || str_eq(t, "r9") {
        Some(new_u4(9))
    } else if str_eq(t, "R10") || str_eq(t, "r10") {
        Some(new_u4(10))
    } else if str_eq(t, "R11") || str_eq(t, "r11") {
        Some(new_u4(11))
    } else if str_eq(t, "R12") || str_eq(t, "r12") {
        Some(new_u4(12))
    } else if str_eq(t, "R13") || str_eq(t, "r13") || str_eq(t, "ST") {
        Some(new_u4(13))
    } else if str_eq(t, "R14") || str_eq(t, "r14") || str_eq(t, "SP") {
        Some(new_u4(14))
    } else if str_eq(t, "R15") || str_eq(t, "r15") || str_eq(t, "PC") {
        Some(new_u4(15))
    } else {
        None
    }
}

/// Parses a register name.
pub fn parse_register(token: &mut TokenStream) -> (r: Result<u8, String>)
    ensures
        final(token).tokens@ == old(token).tokens@,
        (rv(r), final(token).pos as int) == spec_parse_register(old(token).toks(), old(token).pos as int),
{
    let t = match token.next() {
        Some(t) => t,
        None => {
            return Err(String::from_str("Expected a register but got nothing"));
        },
    };
    match register_number_of(t) {
        Some(n) => Ok(n),
        None => Err(concat3("Invalid register '", t, "'")),
    }
}

pub open spec fn spec_parse_tag(toks: Seq<Seq<char>>, pos: int, tag: Seq<char>) -> (Result<(), Seq<char>>, int) {
    match tok_at(toks, pos) {
        None => (Err("Expected a '"@ + tag + "' but got nothing"@), pos),
        Some(t) => (
            if t != tag {
                Err("Expected a '"@ + tag + "' but got '"@ + t + "'"@)
            } else {
                Ok(())
            },
            pos + 1,
        ),
    }
}

/// Takes the next token, which must be `tag`.
pub fn parse_tag(token: &mut TokenStream, tag: &str) -> (r: Result<(), String>)
    ensures
        final(token).tokens@ == old(token).tokens@,
        (rv(r), final(token).pos as int) == spec_parse_tag(old(token).toks(), old(token).pos as int, tag@),
{
    let t = match token.next() {
        Some(t) => t,
        None => {
            return Err(concat3("Expected a '", tag, "' but got nothing"));
        },
    };
    if !str_eq(t, tag) {
        return Err(msg5("Expected a '", tag, "' but got '", t, "'"));
    }
    Ok(())
}

pub open spec fn spec_expect_no_more_tokens(toks: Seq<Seq<char>>, pos: int) -> (Result<(), Seq<char>>, int) {
    match tok_at(toks, pos) {
        Some(t) => (Err("Unexpected extra token '"@ + t + "'"@), pos + 1),
        None => (Ok(()), pos),
    }
}

/// Fails on a token left over at the end of an operand list.
pub fn expect_no_more_tokens(token: &mut TokenStream) -> (r: Result<(), String>)
    ensures
        final(token).tokens@ == old(token).tokens@,
        (rv(r), final(token).pos as int) == spec_expect_no_more_tokens(old(token).toks(), old(token).pos as int),
{
    if let Some(remaining) = token.next() {
        return Err(concat3("Unexpected extra token '", remaining, "'"));
    }
    Ok(())
}

pub open spec fn spec_parse_label(toks: Seq<Seq<char>>, pos: int) -> (Result<Seq<char>, Seq<char>>, int) {
    match tok_at(toks, pos) {
        None => (Err("Expected a label but got nothing"@), pos),
        Some(t) => (Ok(t), pos + 1),
    }
}

/// Takes the next token as a label.
pub fn parse_label<'a>(token: &mut TokenStream<'a>) -> (r: Result<&'a str, String>)
    ensures
        final(token).tokens@ == old(token).tokens@,
        final(token).pos as int == spec_parse_label(old(token).toks(), old(token).pos as int).1,
        spec_parse_label(old(token).toks(), old(token).pos as int).0 == match r {
            Ok(l) => Ok(l@),
            Err(e) => Err(e@),
        },
{
    let Some(label) = token.next() else {
        return Err(String::from_str("Expected a label but got nothing"));
    };
    Ok(label)
}

/// The number a token denotes, read as decimal, else hexadecimal, else
/// octal, the first that parses.
pub open spec fn first_number(t: Seq<char>, signed: bool, lo: int, hi: int) -> Option<int> {
    match parse_int_in(t, 10, signed, lo, hi) {
        Some(v) => Some(v),
        None => match parse_int_in(t, 16, signed, lo, hi) {
            Some(v) => Some(v),
            None => parse_int_in(t, 8, signed, lo, hi),
        },
    }
}

/// A value in `-32768..=65535` as a 16-bit word; negatives wrap.
pub open spec fn word_of(n: int) -> u16 {
    if n < 0 {
        (n + 65536) as u16
    } else {
        n as u16
    }
}

pub open spec fn spec_parse_u16(toks: Seq<Seq<char>>, pos: int) -> (Result<u16, Seq<char>>, int) {
    match tok_at(toks, pos) {
        None => (Err("Expected a number but got nothing"@), pos),
        Some(t) => (
            match first_number(t, true, i32::MIN as int, i32::MAX as int) {
                None => Err("Expected a number but got '"@ + t + "'"@),
                Some(n) => if n < -32768 || n > 65535 {
                    Err(
                        "Value '"@ + decimal(n)
                            + "' does not fit in the 16 bit value range from -32768 to 65535"@,
                    )
                } else {
                    Ok(word_of(n))
                },
            },
            pos + 1,
        ),
    }
}

/// Parses a 16-bit value: a signed or unsigned number in decimal,
/// hexadecimal or octal (no prefix), from -32768 to 65535.
pub fn parse_u16(token: &mut TokenStream) -> (r: Result<u16, String>)
    ensures
        final(token).tokens@ == old(token).tokens@,
        (rv(r), final(token).pos as int) == spec_parse_u16(old(token).toks(), old(token).pos as int),
{
    let Some(t) = token.next() else {
        return Err(String::from_str("Expected a number but got nothing"));
    };
    let parsed: Option<i32> = match i32_from_str_radix(t, 10) {
        Some(v) => Some(v),
        None => match i32_from_str_radix(t, 16) {
            Some(v) => Some(v),
            None => i32_from_str_radix(t, 8),
        },
    };
    let Some(int_number) = parsed else {
        return Err(concat3("Expected a number but got '", t, "'"));
    };
    if int_number < -32768 || int_number > 65535 {
        let digits = i64_to_string(int_number as i64);
        return Err(
            concat3(
                "Value '",
                digits.as_str(),
                "' does not fit in the 16 bit value range from -32768 to 65535",
            ),
        );
    }
    assert(-32768 <= int_number < 0 ==> (int_number as u16) as int == int_number + 65536)
        by (bit_vector);
    assert(0 <= int_number <= 65535 ==> (int_number as u16) as int == int_number as int)
        by (bit_vector);
    Ok(int_number as u16)
}

pub open spec fn spec_parse_interrupt(toks: Seq<Seq<char>>, pos: int) -> (Result<u8, Seq<char>>, int) {
    match tok_at(toks, pos) {
        None => (Err("Expected an interrupt number but got nothing"@), pos),
        Some(t) => match first_number(t, false, 0, 255) {
            None => (Err("Expected an interrupt number but got '"@ + t + "'"@), pos + 1),
            Some(n) => if n >= 16 {
                (Err("Invalid interrupt number '"@ + decimal(n) + "'"@), pos + 1)
            } else {
                let (e, p) = spec_expect_no_more_tokens(toks, pos + 1);
                (
                    match e {
                        Err(m) => Err(m),
                        Ok(_) => Ok(n as u8),
                    },
                    p,
                )
            },
        },
    }
}

/// Parses an interrupt vector number, 0 to 15, as the only operand.
pub fn parse_interrupt(token: &mut TokenStream) -> (r: Result<u8, String>)
    ensures
        final(token).tokens@ == old(token).tokens@,
        (rv(r), final(token).pos as int) == spec_parse_interrupt(old(token).toks(), old(token).pos as int),
{
    let Some(t) = token.next() else {
        return Err(String::from_str("Expected an interrupt number but got nothing"));
    };
    let parsed: Option<u8> = match u8_from_str_radix(t, 10) {
        Some(v) => Some(v),
        None => match u8_from_str_radix(t, 16) {
            Some(v) => Some(v),
            None => u8_from_str_radix(t, 8),
        },
    };
    let Some(int_number) = parsed else {
        return Err(concat3("Expected an interrupt number but got '", t, "'"));
    };
    let Some(u4_number) = checked_u4(int_number) else {
        let digits = i64_to_string(int_number as i64);
        return Err(concat3("Invalid interrupt number '", digits.as_str(), "'"));
    };
    expect_no_more_tokens(token)?;
    Ok(u4_number)
}

pub open spec fn spec_parse_one_register(toks: Seq<Seq<char>>, pos: int) -> (Result<u8, Seq<char>>, int) {
    let (r, p1) = spec_parse_register(toks, pos);
    match r {
        Err(e) => (Err(e), p1),
        Ok(reg) => {
            let (e, p2) = spec_expect_no_more_tokens(toks, p1);
            (
                match e {
                    Err(m) => Err(m),
                    Ok(_) => Ok(reg),
                },
                p2,
            )
        },
    }
}

/// Parses a register as the only operand.
pub fn parse_one_register(token: &mut TokenStream) -> (r: Result<u8, String>)
    ensures
        final(token).tokens@ == old(token).tokens@,
        (rv(r), final(token).pos as int) == spec_parse_one_register(old(token).toks(), old(token).pos as int),
{
    let register = parse_register(token)?;
    expect_no_more_tokens(token)?;
    Ok(register)
}

pub open spec fn spec_parse_two_registers(toks: Seq<Seq<char>>, pos: int) -> (Result<(u8, u8), Seq<char>>, int) {
    let (r1, p1) = spec_parse_register(toks, pos);
    match r1 {
        Err(e) => (Err(e), p1),
        Ok(dst) => {
            let (c, p2) = spec_parse_tag(toks, p1, ","@);
            match c {
                Err(e) => (Err(e), p2),
                Ok(_) => {
                    let (r2, p3) = spec_parse_register(toks, p2);
                    match r2 {
                        Err(e) => (Err(e), p3),
                        Ok(src) => {
                            let (e, p4) = spec_expect_no_more_tokens(toks, p3);
                            (
                                match e {
                                    Err(m) => Err(m),
                                    Ok(_) => Ok((dst, src)),
                                },
                                p4,
                            )
                        },
                    }
                },
            }
        },
    }
}

/// Parses `Ra, Rb` as the whole operand list.
pub fn parse_two_registers(token: &mut TokenStream) -> (r: Result<(u8, u8), String>)
    ensures
        final(token).tokens@ == old(token).tokens@,
        (rv(r), final(token).pos as int) == spec_parse_two_registers(old(token).toks(), old(token).pos as int),
{
    let dst = parse_register(token)?;
    parse_tag(token, ",")?;
    let src = parse_register(token)?;
    expect_no_more_tokens(token)?;
    Ok((dst, src))
}

pub open spec fn spec_parse_register_u16(toks: Seq<Seq<char>>, pos: int) -> (Result<(u8, u16), Seq<char>>, int) {
    let (r1, p1) = spec_parse_register(toks, pos);
    match r1 {
        Err(e) => (Err(e), p1),
        Ok(dst) => {
            let (c, p2) = spec_parse_tag(toks, p1, ","@);
            match c {
                Err(e) => (Err(e), p2),
                Ok(_) => {
                    let (r2, p3) = spec_parse_u16(toks, p2);
                    match r2 {
                        Err(e) => (Err(e), p3),
                        Ok(value) => {
                            let (e, p4) = spec_expect_no_more_tokens(toks, p3);
                            (
                                match e {
                                    Err(m) => Err(m),
                                    Ok(_) => Ok((dst, value)),
                                },
                                p4,
                            )
                        },
                    }
                },
            }
        },
    }
}

/// Parses `Ra, value` as the whole operand list.
pub fn parse_register_u16(token: &mut TokenStream) -> (r: Result<(u8, u16), String>)
    ensures
        final(token).tokens@ == old(token).tokens@,
        (rv(r), final(token).pos as int) == spec_parse_register_u16(old(token).toks(), old(token).pos as int),
{
    let dst = parse_register(token)?;
    parse_tag(token, ",")?;
    let value = parse_u16(token)?;
    expect_no_more_tokens(token)?;
    Ok((dst, value))
}

/// A register or a 16-bit value.
#[derive(Clone, Copy, Debug, PartialEq, Eq, Structural)]
pub enum RegisterOrU16 {
    Register(u8),
    U16(u16),
}

/// Tries a register, then a value, each from the same place; the attempt that
/// succeeds is kept and must end the operand list.
pub open spec fn spec_parse_register_or_u16(toks: Seq<Seq<char>>, pos: int) -> (Result<RegisterOrU16, Seq<char>>, int) {
    let (r1, p1) = spec_parse_register(toks, pos);
    match r1 {
        Ok(reg) => {
            let (e, p) = spec_expect_no_more_tokens(toks, p1);
            (
                match e {
                    Err(m) => Err(m),
                    Ok(_) => Ok(RegisterOrU16::Register(reg)),
                },
                p,
            )
        },
        Err(_) => {
            let (r2, p2) = spec_parse_u16(toks, pos);
            match r2 {
                Ok(value) => {
                    let (e, p) = spec_expect_no_more_tokens(toks, p2);
                    (
                        match e {
                            Err(m) => Err(m),
                            Ok(_) => Ok(RegisterOrU16::U16(value)),
                        },
                        p,
                    )
                },
                Err(_) => (
                    Err("Expected either a register or a 16 bit value but got neither"@),
                    pos,
                ),
            }
        },
    }
}

/// Parses a register or a 16-bit value as the whole operand list.
pub fn parse_register_or_u16(token: &mut TokenStream) -> (r: Result<RegisterOrU16, String>)
    ensures
        final(token).tokens@ == old(token).tokens@,
        (rv(r), final(token).pos as int) == spec_parse_register_or_u16(old(token).toks(), old(token).pos as int),
{
    let attempt: usize = token.pos;
    if let Ok(reg) = parse_register(token) {
        expect_no_more_tokens(token)?;
        return Ok(RegisterOrU16::Register(reg));
    };
    token.pos = attempt;
    if let Ok(value) = parse_u16(token) {
        expect_no_more_tokens(token)?;
        return Ok(RegisterOrU16::U16(value));
    };
    token.pos = attempt;
    Err(String::from_str("Expected either a register or a 16 bit value but got neither"))
}

/// A register or a label.
#[derive(Clone, Copy, Debug, PartialEq, Eq)]
pub enum RegisterOrLabel<'a> {
    Register(u8),
    Label(&'a str),
}

/// The label form of a register-or-label result.
pub enum SpecRegisterOrLabel {
    Register(u8),
    Label(Seq<char>),
}

pub open spec fn register_or_label_view(r: Result<RegisterOrLabel, String>) -> Result<SpecRegisterOrLabel, Seq<char>> {
    match r {
        Ok(RegisterOrLabel::Register(n)) => Ok(SpecRegisterOrLabel::Register(n)),
        Ok(RegisterOrLabel::Label(l)) => Ok(SpecRegisterOrLabel::Label(l@)),
        Err(e) => Err(e@),
    }
}

/// Tries a register, then a label, as [`spec_parse_register_or_u16`] does.
pub open spec fn spec_parse_register_or_label(toks: Seq<Seq<char>>, pos: int) -> (Result<SpecRegisterOrLabel, Seq<char>>, int) {
    let (r1, p1) = spec_parse_register(toks, pos);
    match r1 {
        Ok(reg) => {
            let (e, p) = spec_expect_no_more_tokens(toks, p1);
            (
                match e {
                    Err(m) => Err(m),
                    Ok(_) => Ok(SpecRegisterOrLabel::Register(reg)),
                },
                p,
            )
        },
        Err(_) => {
            let (r2, p2) = spec_parse_label(toks, pos);
            match r2 {
                Ok(label) => {
                    let (e, p) = spec_expect_no_more_tokens(toks, p2);
                    (
                        match e {
                            Err(m) => Err(m),
                            Ok(_) => Ok(SpecRegisterOrLabel::Label(label)),
                        },
                        p,
                    )
                },
                Err(_) => (
                    Err("Expected either a register or a label bit value but got neither"@),
                    pos,
                ),
            }
        },
    }
}

/// Parses a register or a label as the whole operand list.
pub fn parse_register_or_label<'a>(token: &mut TokenStream<'a>) -> (r: Result<RegisterOrLabel<'a>, String>)
    ensures
        final(token).tokens@ == old(token).tokens@,
        (register_or_label_view(r), final(token).pos as int) == spec_parse_register_or_label(
            old(token).toks(),
            old(token).pos as int,
        ),
{
    let attempt: usize = token.pos;
    if let Ok(reg) = parse_register(token) {
        expect_no_more_tokens(token)?;
        return Ok(RegisterOrLabel::Register(reg));
    };
    token.pos = attempt;
    if let Ok(label) = parse_label(token) {
        expect_no_more_tokens(token)?;
        return Ok(RegisterOrLabel::Label(label));
    };
    token.pos = attempt;
    Err(String::from_str("Expected either a register or a label bit value but got neither"))
}

pub open spec fn spec_parse_label_terminating(toks: Seq<Seq<char>>, pos: int) -> (Result<Seq<char>, Seq<char>>, int) {
    let (r, p1) = spec_parse_label(toks, pos);
    match r {
        Err(e) => (Err(e), p1),
        Ok(label) => {
            let (e, p2) = spec_expect_no_more_tokens(toks, p1);
            (
                match e {
                    Err(m) => Err(m),
                    Ok(_) => Ok(label),
                },
                p2,
            )
        },
    }
}

/// Parses a label as the only operand.
pub fn parse_label_terminating<'a>(token: &mut TokenStream<'a>) -> (r: Result<&'a str, String>)
    ensures
        final(token).tokens@ == old(token).tokens@,
        final(token).pos as int == spec_parse_label_terminating(old(token).toks(), old(token).pos as int).1,
        spec_parse_label_terminating(old(token).toks(), old(token).pos as int).0 == match r {
            Ok(l) => Ok(l@),
            Err(e) => Err(e@),
        },
{
    let label = parse_label(token)?;
    expect_no_more_tokens(token)?;
    Ok(label)
}

/// An addressing mode as written in the source: `[Rn]`, `[Rn++]`, `[--Rn]`
/// or `[Rn + offset]`.
#[derive(Clone, Copy, Debug, PartialEq, Eq, Structural)]
pub enum AddressMode {
    Indirect { r: u8 },
    PostIncrement { r: u8 },
    PreDecrement { r: u8 },
    Offset { r: u8, offset: u16 },
}

impl AddressMode {
    pub open spec fn spec_mode(self) -> u16 {
        match self {
            AddressMode::Indirect { .. } => 0x0000,
            AddressMode::PostIncrement { .. } => 0x0100,
            AddressMode::PreDecrement { .. } => 0x0200,
            AddressMode::Offset { .. } => 0x0300,
        }
    }

    /// The mode field of the encoding, bits 9..8.
    pub fn mode(&self) -> (r: u16)
        ensures
            r == self.spec_mode(),
    {
        match self {
            AddressMode::Indirect { .. } => 0x0000,
            AddressMode::PostIncrement { .. } => 0x0100,
            AddressMode::PreDecrement { .. } => 0x0200,
            AddressMode::Offset { .. } => 0x0300,
        }
    }

    pub open spec fn spec_reg(self) -> u16 {
        match self {
            AddressMode::Indirect { r } => r as u16,
            AddressMode::PostIncrement { r } => r as u16,
            AddressMode::PreDecrement { r } => r as u16,
            AddressMode::Offset { r, .. } => r as u16,
        }
    }

    /// The address register.
    pub fn reg(&self) -> (r: u16)
        ensures
            r == self.spec_reg(),
    {
        match self {
            AddressMode::Indirect { r } => *r as u16,
            AddressMode::PostIncrement { r } => *r as u16,
            AddressMode::PreDecrement { r } => *r as u16,
            AddressMode::Offset { r, .. } => *r as u16,
        }
    }

    pub open spec fn spec_offset(self) -> Option<u16> {
        match self {
            AddressMode::Offset { offset, .. } => Some(offset),
            _ => None,
        }
    }

    /// The offset word, for the offset mode.
    pub fn offset(&self) -> (r: Option<u16>)
        ensures
            r == self.spec_offset(),
    {
        match self {
            AddressMode::Indirect { .. } => None,
            AddressMode::PostIncrement { .. } => None,
            AddressMode::PreDecrement { .. } => None,
            AddressMode::Offset { offset, .. } => Some(*offset),
        }
    }
}

/// The address operand grammar, step by step:
/// `[`, then `--` and a register and `]` for pre-decrement; otherwise a
/// register and then `]` (indirect), or `+` followed by a second `+` and `]`
/// (post-increment) or an offset value and `]`.
pub open spec fn spec_parse_address(toks: Seq<Seq<char>>, pos: int) -> (Result<AddressMode, Seq<char>>, int) {
    let (o, p1) = spec_parse_tag(toks, pos, "["@);
    match o {
        Err(e) => (Err(e), p1),
        Ok(_) => match tok_at(toks, p1) {
            None => (Err("Expected an addressing mode but got nothing"@), p1),
            Some(next) => if next == "-"@ {
                let (m1, p2) = spec_parse_tag(toks, p1, "-"@);
                match m1 {
                    Err(e) => (Err(e), p2),
                    Ok(_) => {
                        let (m2, p3) = spec_parse_tag(toks, p2, "-"@);
                        match m2 {
                            Err(e) => (Err(e), p3),
                            Ok(_) => {
                                let (rr, p4) = spec_parse_register(toks, p3);
                                match rr {
                                    Err(e) => (Err(e), p4),
                                    Ok(reg) => {
                                        let (c, p5) = spec_parse_tag(toks, p4, "]"@);
                                        (
                                            match c {
                                                Err(e) => Err(e),
                                                Ok(_) => Ok(AddressMode::PreDecrement { r: reg }),
                                            },
                                            p5,
                                        )
                                    },
                                }
                            },
                        }
                    },
                }
            } else {
                let (rr, p2) = spec_parse_register(toks, p1);
                match rr {
                    Err(e) => (Err(e), p2),
                    Ok(reg) => match tok_at(toks, p2) {
                        None => (Err("Expected an addressing mode but got nothing"@), p2),
                        Some(n2) => if n2 == "]"@ {
                            let (c, p3) = spec_parse_tag(toks, p2, "]"@);
                            (
                                match c {
                                    Err(e) => Err(e),
                                    Ok(_) => Ok(AddressMode::Indirect { r: reg }),
                                },
                                p3,
                            )
                        } else if n2 != "+"@ {
                            (Err("Expected either a post increment or a offset addition"@), p2)
                        } else {
                            let (pl, p3) = spec_parse_tag(toks, p2, "+"@);
                            match pl {
                                Err(e) => (Err(e), p3),
                                Ok(_) => match tok_at(toks, p3) {
                                    None => (
                                        Err(
                                            "Expected either a post increment or a offset addition"@,
                                        ),
                                        p3,
                                    ),
                                    Some(n3) => if n3 == "+"@ {
                                        let (c, p5) = spec_parse_tag(toks, p3 + 1, "]"@);
                                        (
                                            match c {
                                                Err(e) => Err(e),
                                                Ok(_) => Ok(AddressMode::PostIncrement { r: reg }),
                                            },
                                            p5,
                                        )
                                    } else {
                                        let (ov, p4) = spec_parse_u16(toks, p3);
                                        match ov {
                                            Err(e) => (Err(e), p4),
                                            Ok(offset) => {
                                                let (c, p5) = spec_parse_tag(toks, p4, "]"@);
                                                (
                                                    match c {
                                                        Err(e) => Err(e),
                                                        Ok(_) => Ok(
                                                            AddressMode::Offset { r: reg, offset },
                                                        ),
                                                    },
                                                    p5,
                                                )
                                            },
                                        }
                                    },
                                },
                            }
                        },
                    },
                }
            },
        },
    }
}

/// Parses a bracketed address operand.
pub fn parse_address(token: &mut TokenStream) -> (r: Result<AddressMode, String>)
    ensures
        final(token).tokens@ == old(token).tokens@,
        (rv(r), final(token).pos as int) == spec_parse_address(old(token).toks(), old(token).pos as int),
{
    parse_tag(token, "[")?;
    let Some(next) = token.peek() else {
        return Err(String::from_str("Expected an addressing mode but got nothing"));
    };
    if str_eq(next, "-") {
        parse_tag(token, "-")?;
        parse_tag(token, "-")?;
        let reg = parse_register(token)?;
        parse_tag(token, "]")?;
        return Ok(AddressMode::PreDecrement { r: reg });
    }
    let reg = parse_register(token)?;
    let Some(next) = token.peek() else {
        return Err(String::from_str("Expected an addressing mode but got nothing"));
    };
    if str_eq(next, "]") {
        parse_tag(token, "]")?;
        return Ok(AddressMode::Indirect { r: reg });
    }
    if !str_eq(next, "+") {
        return Err(String::from_str("Expected either a post increment or a offset addition"));
    }
    parse_tag(token, "+")?;
    let Some(next) = token.peek() else {
        return Err(String::from_str("Expected either a post increment or a offset addition"));
    };
    if str_eq(next, "+") {
        parse_tag(token, "+")?;
        parse_tag(token, "]")?;
        return Ok(AddressMode::PostIncrement { r: reg });
    }
    let offset = parse_u16(token)?;
    parse_tag(token, "]")?;
    Ok(AddressMode::Offset { r: reg, offset })
}

pub open spec fn spec_parse_register_and_address(toks: Seq<Seq<char>>, pos: int) -> (Result<(u8, AddressMode), Seq<char>>, int) {
    let (r1, p1) = spec_parse_register(toks, pos);
    match r1 {
        Err(e) => (Err(e), p1),
        Ok(dst) => {
            let (c, p2) = spec_parse_tag(toks, p1, ","@);
            match c {
                Err(e) => (Err(e), p2),
                Ok(_) => {
                    let (a, p3) = spec_parse_address(toks, p2);
                    match a {
                        Err(e) => (Err(e), p3),
                        Ok(addr) => {
                            let (e, p4) = spec_expect_no_more_tokens(toks, p3);
                            (
                                match e {
                                    Err(m) => Err(m),
                                    Ok(_) => Ok((dst, addr)),
                                },
                                p4,
                            )
                        },
                    }
                },
            }
        },
    }
}

/// Parses `Ra, [address]` as the whole operand list.
pub fn parse_register_and_address(token: &mut TokenStream) -> (r: Result<(u8, AddressMode), String>)
    ensures
        final(token).tokens@ == old(token).tokens@,
        (rv(r), final(token).pos as int) == spec_parse_register_and_address(old(token).toks(), old(token).pos as int),
{
    let dst = parse_register(token)?;
    parse_tag(token, ",")?;
    let addr = parse_address(token)?;
    expect_no_more_tokens(token)?;
    Ok((dst, addr))
}

pub open spec fn spec_parse_address_and_register(toks: Seq<Seq<char>>, pos: int) -> (Result<(AddressMode, u8), Seq<char>>, int) {
    let (a, p1) = spec_parse_address(toks, pos);
    match a {
        Err(e) => (Err(e), p1),
        Ok(addr) => {
            let (c, p2) = spec_parse_tag(toks, p1, ","@);
            match c {
                Err(e) => (Err(e), p2),
                Ok(_) => {
                    let (r2, p3) = spec_parse_register(toks, p2);
                    match r2 {
                        Err(e) => (Err(e), p3),
                        Ok(src) => {
                            let (e, p4) = spec_expect_no_more_tokens(toks, p3);
                            (
                                match e {
                                    Err(m) => Err(m),
                                    Ok(_) => Ok((addr, src)),
                                },
                                p4,
                            )
                        },
                    }
                },
            }
        },
    }
}

/// Parses `[address], Ra` as the whole operand list.
pub fn parse_address_and_register(token: &mut TokenStream) -> (r: Result<(AddressMode, u8), String>)
    ensures
        final(token).tokens@ == old(token).tokens@,
        (rv(r), final(token).pos as int) == spec_parse_address_and_register(old(token).toks(), old(token).pos as int),
{
    let addr = parse_address(token)?;
    parse_tag(token, ",")?;
    let src = parse_register(token)?;
    expect_no_more_tokens(token)?;
    Ok((addr, src))
}

/// The instructions without operands, and their single word.
pub open spec fn fixed_word(op: Seq<char>) -> Option<u16> {
    if op == "NOP"@ {
        Some(0x0000u16)
    } else if op == "RET"@ {
        Some(0x0030u16)
    } else if op == "IRET"@ {
        Some(0x0050u16)
    } else if op == "CLI"@ {
        Some(0x0060u16)
    } else if op == "STI"@ {
        Some(0x0070u16)
    } else if op == "DBG"@ {
        Some(0x00BBu16)
    } else if op == "HALT"@ {
        Some(0x0FFFu16)
    } else {
        None
    }
}

fn fixed_word_of(op: &str) -> (r: Option<u16>)
    ensures
        r == fixed_word(op@),
{
    if str_eq(op, "NOP") {
        Some(0x0000)
    } else if str_eq(op, "RET") {
        Some(0x0030)
    } else if str_eq(op, "IRET") {
        Some(0x0050)
    } else if str_eq(op, "CLI") {
        Some(0x0060)
    } else if str_eq(op, "STI") {
        Some(0x0070)
    } else if str_eq(op, "DBG") {
        Some(0x00BB)
    } else if str_eq(op, "HALT") {
        Some(0x0FFF)
    } else {
        None
    }
}

/// The load instructions and their `S` and `BW` bits: bit 11 sign-extends a
/// byte, bit 10 selects a word.
pub open spec fn load_base(op: Seq<char>) -> Option<u16> {
    if op == "LDW"@ {
        Some(0x1400u16)
    } else if op == "LDB"@ {
        Some(0x1000u16)
    } else if op == "LDS"@ {
        Some(0x1800u16)
    } else if op == "LRW"@ {
        Some(0x2400u16)
    } else if op == "LRB"@ {
        Some(0x2000u16)
    } else if op == "LRS"@ {
        Some(0x2800u16)
    } else {
        None
    }
}

fn load_base_of(op: &str) -> (r: Option<u16>)
    ensures
        r == load_base(op@),
{
    if str_eq(op, "LDW") {
        Some(0x1400)
    } else if str_eq(op, "LDB") {
        Some(0x1000)
    } else if str_eq(op, "LDS") {
        Some(0x1800)
    } else if str_eq(op, "LRW") {
        Some(0x2400)
    } else if str_eq(op, "LRB") {
        Some(0x2000)
    } else if str_eq(op, "LRS") {
        Some(0x2800)
    } else {
        None
    }
}

/// The store instructions and their `BW` bit (bit 10 selects a word).
pub open spec fn store_base(op: Seq<char>) -> Option<u16> {
    if op == "STW"@ {
        Some(0x3400u16)
    } else if op == "STB"@ {
        Some(0x3000u16)
    } else {
        None
    }
}

fn store_base_of(op: &str) -> (r: Option<u16>)
    ensures
        r == store_base(op@),
{
    if str_eq(op, "STW") {
        Some(0x3400)
    } else if str_eq(op, "STB") {
        Some(0x3000)
    } else {
        None
    }
}

/// The two-register ALU instructions, `base | Ra << 4 | Rb`.
///
/// `CMP` takes the compare block `0x6F00`, which the one-register forms of
/// [`one_register_base`] also use: `CMP R0, Rb` is the same word as
/// `NEG Rb`, and `CMP R2, Rb`, `CMP R3, Rb`, `CMP R4, Rb` and `CMP R5, Rb`
/// are those of `INCB Rb`, `INCW Rb`, `DECB Rb` and `DECW Rb`. A decoder
/// cannot tell these pairs apart.
pub open spec fn two_register_base(op: Seq<char>) -> Option<u16> {
    if op == "ADD"@ {
        Some(0x6000u16)
    } else if op == "ADDC"@ {
        Some(0x6100u16)
    } else if op == "SUB"@ {
        Some(0x6200u16)
    } else if op == "SUBC"@ {
        Some(0x6300u16)
    } else if op == "AND"@ {
        Some(0x6400u16)
    } else if op == "OR"@ {
        Some(0x6500u16)
    } else if op == "XOR"@ {
        Some(0x6600u16)
    } else if op == "SHL"@ {
        Some(0x6800u16)
    } else if op == "SHR"@ {
        Some(0x6900u16)
    } else if op == "ASR"@ {
        Some(0x6A00u16)
    } else if op == "CMP"@ {
        Some(0x6F00u16)
    } else {
        None
    }
}

fn two_register_base_of(op: &str) -> (r: Option<u16>)
    ensures
        r == two_register_base(op@),
{
    if str_eq(op, "ADD") {
        Some(0x6000)
    } else if str_eq(op, "ADDC") {
        Some(0x6100)
    } else if str_eq(op, "SUB") {
        Some(0x6200)
    } else if str_eq(op, "SUBC") {
        Some(0x6300)
    } else if str_eq(op, "AND") {
        Some(0x6400)
    } else if str_eq(op, "OR") {
        Some(0x6500)
    } else if str_eq(op, "XOR") {
        Some(0x6600)
    } else if str_eq(op, "SHL") {
        Some(0x6800)
    } else if str_eq(op, "SHR") {
        Some(0x6900)
    } else if str_eq(op, "ASR") {
        Some(0x6A00)
    } else if str_eq(op, "CMP") {
        Some(0x6F00)
    } else {
        None
    }
}

/// The one-register instructions with the register in bits 3..0.
///
/// Their words lie in the compare block `0x6F00` of [`two_register_base`]:
/// `NEG Rb`, `INCB Rb`, `INCW Rb`, `DECB Rb` and `DECW Rb` are the words of
/// `CMP R0, Rb`, `CMP R2, Rb`, `CMP R3, Rb`, `CMP R4, Rb` and `CMP R5, Rb`.
pub open spec fn one_register_base(op: Seq<char>) -> Option<u16> {
    if op == "NEG"@ {
        Some(0x6F00u16)
    } else if op == "INCB"@ {
        Some(0x6F20u16)
    } else if op == "INCW"@ {
        Some(0x6F30u16)
    } else if op == "DECB"@ {
        Some(0x6F40u16)
    } else if op == "DECW"@ {
        Some(0x6F50u16)
    } else {
        None
    }
}

fn one_register_base_of(op: &str) -> (r: Option<u16>)
    ensures
        r == one_register_base(op@),
{
    if str_eq(op, "NEG") {
        Some(0x6F00)
    } else if str_eq(op, "INCB") {
        Some(0x6F20)
    } else if str_eq(op, "INCW") {
        Some(0x6F30)
    } else if str_eq(op, "DECB") {
        Some(0x6F40)
    } else if str_eq(op, "DECW") {
        Some(0x6F50)
    } else {
        None
    }
}

/// The conditional branches.
pub open spec fn is_branch(op: Seq<char>) -> bool {
    op == "JE"@ || op == "JNE"@ || op == "JL"@ || op == "JLE"@ || op == "JG"@ || op == "JGE"@ || op == "JB"@ || op == "JBE"@ || op == "JA"@ || op == "JAE"@
}

fn is_branch_of(op: &str) -> (r: bool)
    ensures
        r == is_branch(op@),
{
    str_eq(op, "JE") || str_eq(op, "JNE") || str_eq(op, "JL") || str_eq(op, "JLE") || str_eq(op, "JG") || str_eq(op, "JGE") || str_eq(op, "JB") || str_eq(op, "JBE") || str_eq(op, "JA") || str_eq(op, "JAE")
}

/// The words an address operand adds after the instruction word.
pub open spec fn offset_words(addr: AddressMode) -> Seq<u16> {
    match addr.spec_offset() {
        Some(offset) => seq![offset],
        None => seq![],
    }
}

/// The encoding of `LDI dst, value`: a value below 16 fits in the word
/// (zero-padded), one from -15 to -1 keeps its low four bits in a one-padded
/// form, anything else follows in an immediate word.
pub open spec fn ldi_words(dst: u8, value: u16) -> Seq<u16> {
    if value < 16 {
        seq![(0x4100 + dst * 16 + value) as u16]
    } else if value >= 0xFFF1 {
        seq![(0x4200 + dst * 16 + value % 16) as u16]
    } else {
        seq![(0x4000 + dst * 16) as u16, value]
    }
}

/// Attaches a parse result to words built from its value.
pub open spec fn with_words<T>(r: (Result<T, Seq<char>>, int), f: spec_fn(T) -> Seq<u16>) -> (Result<Seq<u16>, Seq<char>>, int) {
    (
        match r.0 {
            Ok(v) => Ok(f(v)),
            Err(e) => Err(e),
        },
        r.1,
    )
}

/// How a call that appends words relates to its specified outcome: on
/// success exactly the words are appended, on failure the message is
/// returned and `output` is kept.
pub open spec fn emitted(
    res: (Result<Seq<u16>, Seq<char>>, int),
    r: Result<(), String>,
    out0: Seq<u16>,
    out1: Seq<u16>,
) -> bool {
    match res.0 {
        Ok(words) => r is Ok && out1 == out0 + words,
        Err(e) => rv(r) == Err::<(), Seq<char>>(e) && out1 == out0,
    }
}

pub open spec fn spec_call(toks: Seq<Seq<char>>, pos: int) -> (Result<Seq<u16>, Seq<char>>, int) {
    with_words(
        spec_parse_register_or_u16(toks, pos),
        |x: RegisterOrU16|
            match x {
                RegisterOrU16::Register(reg) => seq![(0x0020 + reg) as u16],
                RegisterOrU16::U16(value) => seq![0x0010u16, value],
            },
    )
}

pub open spec fn spec_int(toks: Seq<Seq<char>>, pos: int) -> (Result<Seq<u16>, Seq<char>>, int) {
    with_words(spec_parse_interrupt(toks, pos), |n: u8| seq![(0x0040 + n) as u16])
}

/// A load `Ra, [address]`: `base | mm << 8 | Rn << 4 | Ra`, then the offset
/// word if there is one.
pub open spec fn spec_load(base: u16, toks: Seq<Seq<char>>, pos: int) -> (Result<Seq<u16>, Seq<char>>, int) {
    with_words(
        spec_parse_register_and_address(toks, pos),
        |x: (u8, AddressMode)|
            seq![(base + x.1.spec_mode() + x.1.spec_reg() * 16 + x.0) as u16] + offset_words(x.1),
    )
}

/// A store `[address], Ra`: `base | mm << 8 | Ra << 4 | Rn`, then the offset
/// word if there is one.
pub open spec fn spec_store(base: u16, toks: Seq<Seq<char>>, pos: int) -> (Result<Seq<u16>, Seq<char>>, int) {
    with_words(
        spec_parse_address_and_register(toks, pos),
        |x: (AddressMode, u8)|
            seq![(base + x.0.spec_mode() + x.1 * 16 + x.0.spec_reg()) as u16] + offset_words(x.0),
    )
}

pub open spec fn spec_ldi(toks: Seq<Seq<char>>, pos: int) -> (Result<Seq<u16>, Seq<char>>, int) {
    with_words(spec_parse_register_u16(toks, pos), |x: (u8, u16)| ldi_words(x.0, x.1))
}

/// Two registers `dst, src` encoded as `base + dst * 16 + src`.
pub open spec fn spec_two(base: u16, toks: Seq<Seq<char>>, pos: int) -> (Result<Seq<u16>, Seq<char>>, int) {
    with_words(
        spec_parse_two_registers(toks, pos),
        |x: (u8, u8)| seq![(base + x.0 * 16 + x.1) as u16],
    )
}

/// One register encoded as `base + r * scale`.
pub open spec fn spec_one(base: u16, scale: u16, toks: Seq<Seq<char>>, pos: int) -> (Result<Seq<u16>, Seq<char>>, int) {
    with_words(spec_parse_one_register(toks, pos), |r: u8| seq![(base + r * scale) as u16])
}

pub open spec fn spec_jmp(toks: Seq<Seq<char>>, pos: int) -> (Result<Seq<u16>, Seq<char>>, int) {
    let (r, p) = spec_parse_register_or_label(toks, pos);
    (
        match r {
            Ok(SpecRegisterOrLabel::Register(reg)) => Ok(seq![(0x5100 + reg * 16) as u16]),
            Ok(SpecRegisterOrLabel::Label(_)) => Ok(seq![]),
            Err(e) => Err(e),
        },
        p,
    )
}

pub open spec fn spec_branch(toks: Seq<Seq<char>>, pos: int) -> (Result<Seq<u16>, Seq<char>>, int) {
    with_words(spec_parse_label_terminating(toks, pos), |l: Seq<char>| seq![])
}

/// The words one source instruction assembles to, or the error message, and
/// the read position after its operands.
pub open spec fn spec_parse_instruction(op: Seq<char>, toks: Seq<Seq<char>>, pos: int) -> (Result<Seq<u16>, Seq<char>>, int) {
    if fixed_word(op) is Some {
        (Ok(seq![fixed_word(op)->0]), pos)
    } else if op == "CALL"@ {
        spec_call(toks, pos)
    } else if op == "INT"@ {
        spec_int(toks, pos)
    } else if load_base(op) is Some {
        spec_load(load_base(op)->0, toks, pos)
    } else if store_base(op) is Some {
        spec_store(store_base(op)->0, toks, pos)
    } else if op == "LDI"@ {
        spec_ldi(toks, pos)
    } else if op == "MOV"@ {
        spec_two(0x4300, toks, pos)
    } else if op == "PUSH"@ {
        spec_one(0x4E00, 16, toks, pos)
    } else if op == "POP"@ {
        spec_one(0x4F00, 16, toks, pos)
    } else if op == "NOT"@ {
        spec_one(0x6700, 16, toks, pos)
    } else if op == "JMP"@ {
        spec_jmp(toks, pos)
    } else if is_branch(op) {
        spec_branch(toks, pos)
    } else if two_register_base(op) is Some {
        spec_two(two_register_base(op)->0, toks, pos)
    } else if one_register_base(op) is Some {
        spec_one(one_register_base(op)->0, 1, toks, pos)
    } else {
        (Err("Unknown instruction '"@ + op + "'"@), pos)
    }
}

/// The instructions the assembler cannot encode yet: a jump to a label and
/// any conditional branch whose label parsed.
pub open spec fn instruction_unimplemented(op: Seq<char>, toks: Seq<Seq<char>>, pos: int) -> bool {
    fixed_word(op) is None && op != "CALL"@ && op != "INT"@ && load_base(op) is None
        && store_base(op) is None && op != "LDI"@ && op != "MOV"@ && op != "PUSH"@ && op != "POP"@
        && op != "NOT"@ && ((op == "JMP"@ && spec_parse_register_or_label(toks, pos).0 matches Ok(
        SpecRegisterOrLabel::Label(_),
    )) || (op != "JMP"@ && is_branch(op) && spec_parse_label_terminating(toks, pos).0 is Ok))
}

proof fn lemma_shift4(x: u16)
    requires
        x < 16,
    ensures
        x << 4u16 == x * 16,
{
    assert(x < 16 ==> x << 4u16 == x * 16) by (bit_vector);
}

fn assemble_call(token: &mut TokenStream, output: &mut Vec<u16>) -> (r: Result<(), String>)
    ensures
        final(token).tokens@ == old(token).tokens@,
        final(token).pos as int == spec_call(old(token).toks(), old(token).pos as int).1,
        emitted(spec_call(old(token).toks(), old(token).pos as int), r, old(output)@, final(output)@),
{
    let ghost out0 = output@;
    match parse_register_or_u16(token)? {
        RegisterOrU16::Register(reg) => {
            output.push(0x0020 + reg as u16);
            assert(output@ == out0 + seq![(0x0020 + reg) as u16]);
        },
        RegisterOrU16::U16(value) => {
            output.push(0x0010);
            output.push(value);
            assert(output@ == out0 + seq![0x0010u16, value]);
        },
    }
    Ok(())
}

fn assemble_int(token: &mut TokenStream, output: &mut Vec<u16>) -> (r: Result<(), String>)
    ensures
        final(token).tokens@ == old(token).tokens@,
        final(token).pos as int == spec_int(old(token).toks(), old(token).pos as int).1,
        emitted(spec_int(old(token).toks(), old(token).pos as int), r, old(output)@, final(output)@),
{
    let ghost out0 = output@;
    let num = parse_interrupt(token)?;
    output.push(0x0040 + num as u16);
    assert(output@ == out0 + seq![(0x0040 + num) as u16]);
    Ok(())
}

fn assemble_load(base_op: u16, token: &mut TokenStream, output: &mut Vec<u16>) -> (r: Result<(), String>)
    requires
        base_op <= 0x2C00,
    ensures
        final(token).tokens@ == old(token).tokens@,
        final(token).pos as int == spec_load(base_op, old(token).toks(), old(token).pos as int).1,
        emitted(spec_load(base_op, old(token).toks(), old(token).pos as int), r, old(output)@, final(output)@),
{
    let ghost out0 = output@;
    let (dst, addr) = parse_register_and_address(token)?;
    proof {
        lemma_shift4(dst as u16);
    }
    proof {
        lemma_shift4(addr.spec_reg());
    }
    output.push(base_op + addr.mode() + (addr.reg() << 4) + dst as u16);
    if let Some(offset) = addr.offset() {
        output.push(offset);
    }
    assert(output@ == out0 + (seq![(base_op + addr.spec_mode() + addr.spec_reg() * 16 + dst) as u16] + offset_words(addr)));
    Ok(())
}

fn assemble_store(base_op: u16, token: &mut TokenStream, output: &mut Vec<u16>) -> (r: Result<(), String>)
    requires
        base_op <= 0x3400,
    ensures
        final(token).tokens@ == old(token).tokens@,
        final(token).pos as int == spec_store(base_op, old(token).toks(), old(token).pos as int).1,
        emitted(spec_store(base_op, old(token).toks(), old(token).pos as int), r, old(output)@, final(output)@),
{
    let ghost out0 = output@;
    let (addr, src) = parse_address_and_register(token)?;
    proof {
        lemma_shift4(src as u16);
    }
    output.push(base_op + addr.mode() + ((src as u16) << 4) + addr.reg());
    if let Some(offset) = addr.offset() {
        output.push(offset);
    }
    assert(output@ == out0 + (seq![(base_op + addr.spec_mode() + src * 16 + addr.spec_reg()) as u16] + offset_words(addr)));
    Ok(())
}

fn assemble_ldi(token: &mut TokenStream, output: &mut Vec<u16>) -> (r: Result<(), String>)
    ensures
        final(token).tokens@ == old(token).tokens@,
        final(token).pos as int == spec_ldi(old(token).toks(), old(token).pos as int).1,
        emitted(spec_ldi(old(token).toks(), old(token).pos as int), r, old(output)@, final(output)@),
{
    let ghost out0 = output@;
    let (dst, value) = parse_register_u16(token)?;
    proof {
        lemma_shift4(dst as u16);
    }
    let is_small_negative: bool = (value as i16) < 0 && (value as i16) > -16;
    assert(is_small_negative == (value >= 0xFFF1)) by (bit_vector)
        requires
            is_small_negative == ((value as i16) < 0 && (value as i16) > -16),
    ;
    if value < 16 {
        output.push(0x4100 + ((dst as u16) << 4) + value);
    } else if is_small_negative {
        let v: u16 = value & 0x000F;
        assert(value & 0x000Fu16 == value % 16) by (bit_vector);
        output.push(0x4200 + ((dst as u16) << 4) + v);
    } else {
        output.push(0x4000 + ((dst as u16) << 4));
        output.push(value);
    }
    assert(output@ == out0 + ldi_words(dst, value));
    Ok(())
}

fn assemble_two(base_op: u16, token: &mut TokenStream, output: &mut Vec<u16>) -> (r: Result<(), String>)
    requires
        base_op <= 0x6F00,
    ensures
        final(token).tokens@ == old(token).tokens@,
        final(token).pos as int == spec_two(base_op, old(token).toks(), old(token).pos as int).1,
        emitted(spec_two(base_op, old(token).toks(), old(token).pos as int), r, old(output)@, final(output)@),
{
    let ghost out0 = output@;
    let (dst, src) = parse_two_registers(token)?;
    proof {
        lemma_shift4(dst as u16);
    }
    output.push(base_op + ((dst as u16) << 4) + src as u16);
    assert(output@ == out0 + seq![(base_op + dst * 16 + src) as u16]);
    Ok(())
}

fn assemble_one(base_op: u16, scale: u16, token: &mut TokenStream, output: &mut Vec<u16>) -> (r: Result<(), String>)
    requires
        base_op <= 0x6F50,
        scale == 1 || scale == 16,
    ensures
        final(token).tokens@ == old(token).tokens@,
        final(token).pos as int == spec_one(base_op, scale, old(token).toks(), old(token).pos as int).1,
        emitted(spec_one(base_op, scale, old(token).toks(), old(token).pos as int), r, old(output)@, final(output)@),
{
    let ghost out0 = output@;
    let src = parse_one_register(token)?;
    if scale == 16 {
        proof {
            lemma_shift4(src as u16);
        }
        output.push(base_op + ((src as u16) << 4));
    } else {
        output.push(base_op + src as u16);
    }
    assert(output@ == out0 + seq![(base_op + src * scale) as u16]);
    Ok(())
}

fn assemble_jmp(token: &mut TokenStream, output: &mut Vec<u16>) -> (r: Result<(), String>)
    requires
        !(spec_parse_register_or_label(old(token).toks(), old(token).pos as int).0 matches Ok(
            SpecRegisterOrLabel::Label(_),
        )),
    ensures
        final(token).tokens@ == old(token).tokens@,
        final(token).pos as int == spec_jmp(old(token).toks(), old(token).pos as int).1,
        emitted(spec_jmp(old(token).toks(), old(token).pos as int), r, old(output)@, final(output)@),
{
    let ghost out0 = output@;
    match parse_register_or_label(token)? {
        RegisterOrLabel::Register(reg) => {
            proof {
                lemma_shift4(reg as u16);
            }
            output.push(0x5100 + ((reg as u16) << 4));
            assert(output@ == out0 + seq![(0x5100 + reg * 16) as u16]);
        },
        RegisterOrLabel::Label(_) => {
            assert(false);
        },
    }
    Ok(())
}

fn assemble_branch(token: &mut TokenStream, output: &mut Vec<u16>) -> (r: Result<(), String>)
    requires
        !(spec_parse_label_terminating(old(token).toks(), old(token).pos as int).0 is Ok),
    ensures
        final(token).tokens@ == old(token).tokens@,
        final(token).pos as int == spec_branch(old(token).toks(), old(token).pos as int).1,
        emitted(spec_branch(old(token).toks(), old(token).pos as int), r, old(output)@, final(output)@),
{
    let _label = parse_label_terminating(token)?;
    assert(false);
    Ok(())
}

/// Appends the encoding of one source instruction to `output`. Errors leave
/// `output` as it was.
pub fn parse_instruction(op: &str, token: &mut TokenStream, output: &mut Vec<u16>) -> (r: Result<(), String>)
    requires
        !instruction_unimplemented(op@, old(token).toks(), old(token).pos as int),
    ensures
        final(token).tokens@ == old(token).tokens@,
        final(token).pos as int == spec_parse_instruction(op@, old(token).toks(), old(token).pos as int).1,
        emitted(spec_parse_instruction(op@, old(token).toks(), old(token).pos as int), r, old(output)@, final(output)@),
{
    if let Some(word) = fixed_word_of(op) {
        let ghost out0 = output@;
        output.push(word);
        assert(output@ == out0 + seq![word]);
        return Ok(());
    }
    if str_eq(op, "CALL") {
        return assemble_call(token, output);
    }
    if str_eq(op, "INT") {
        return assemble_int(token, output);
    }
    if let Some(base_op) = load_base_of(op) {
        return assemble_load(base_op, token, output);
    }
    if let Some(base_op) = store_base_of(op) {
        return assemble_store(base_op, token, output);
    }
    if str_eq(op, "LDI") {
        return assemble_ldi(token, output);
    }
    if str_eq(op, "MOV") {
        return assemble_two(0x4300, token, output);
    }
    if str_eq(op, "PUSH") {
        return assemble_one(0x4E00, 16, token, output);
    }
    if str_eq(op, "POP") {
        return assemble_one(0x4F00, 16, token, output);
    }
    if str_eq(op, "NOT") {
        return assemble_one(0x6700, 16, token, output);
    }
    if str_eq(op, "JMP") {
        return assemble_jmp(token, output);
    }
    if is_branch_of(op) {
        return assemble_branch(token, output);
    }
    if let Some(base_op) = two_register_base_of(op) {
        return assemble_two(base_op, token, output);
    }
    if let Some(base_op) = one_register_base_of(op) {
        return assemble_one(base_op, 1, token, output);
    }
    Err(concat3("Unknown instruction '", op, "'"))
}

/// Scans a line from character `i` on, with `cur` the start of the word
/// being read and `acc` the tokens so far. Words are runs of alphanumeric
/// characters; whitespace separates; any other character is a token of its
/// own; `;` starts a comment that runs to the end of the line.
pub open spec fn line_scan(s: Seq<char>, i: int, cur: Option<int>, acc: Seq<Seq<char>>) -> Seq<Seq<char>>
    decreases s.len() - i,
{
    if i < 0 || i >= s.len() || s[i] == ';' {
        match cur {
            Some(ts) => acc.push(s.subrange(ts, if 0 <= i < s.len() { i } else { s.len() as int })),
            None => acc,
        }
    } else {
        let c = s[i];
        if cur is Some && is_alphanumeric_char(c) {
            line_scan(s, i + 1, cur, acc)
        } else {
            let acc1 = match cur {
                Some(ts) => acc.push(s.subrange(ts, i)),
                None => acc,
            };
            if is_whitespace_char(c) {
                line_scan(s, i + 1, None, acc1)
            } else if is_alphanumeric_char(c) {
                line_scan(s, i + 1, Some(i), acc1)
            } else {
                line_scan(s, i + 1, None, acc1.push(seq![c]))
            }
        }
    }
}

/// The tokens of a source line.
pub open spec fn line_tokens(s: Seq<char>) -> Seq<Seq<char>> {
    line_scan(s, 0, None, seq![])
}

/// A character that becomes a token of its own but takes more than one byte:
/// the tokenizer cuts such a token as a single byte, which is not a valid
/// string slice.
pub open spec fn unsliceable_symbol(c: char) -> bool {
    !is_whitespace_char(c) && !is_alphanumeric_char(c) && c as u32 >= 128
}

/// Whether the tokenizer meets an unsliceable character before the first `;`.
pub open spec fn line_tokenize_fails(s: Seq<char>) -> bool {
    exists|i: int|
        0 <= i < s.len() && (forall|j: int| 0 <= j <= i ==> s[j] != ';') && #[trigger] unsliceable_symbol(
            s[i],
        )
}

pub open spec fn opt_int(o: Option<usize>) -> Option<int> {
    match o {
        Some(x) => Some(x as int),
        None => None,
    }
}

pub open spec fn views(v: Seq<&str>) -> Seq<Seq<char>> {
    v.map_values(|t: &str| t@)
}

/// Splits a source line into tokens; see [`line_scan`].
pub fn tokenize<'a>(line: &'a str) -> (r: Vec<&'a str>)
    requires
        !line_tokenize_fails(line@),
    ensures
        views(r@) == line_tokens(line@),
{
    let ghost s = line@;
    let n: usize = line.unicode_len();
    let mut token: Vec<&'a str> = Vec::new();
    let mut current_token_start: Option<usize> = None;
    let mut i: usize = 0;
    let mut stopped: bool = false;
    assert(views(token@) =~= Seq::<Seq<char>>::empty());
    while i < n && !stopped
        invariant
            n == s.len(),
            s == line@,
            i <= n,
            line_tokens(s) == line_scan(s, i as int, opt_int(current_token_start), views(token@)),
            current_token_start matches Some(ts) ==> ts < i,
            stopped ==> i < n && s[i as int] == ';',
        decreases n - i + (if stopped { 0int } else { 1int }),
    {
        let c: char = line.get_char(i);
        if c == ';' {
            stopped = true;
        } else {
            let alnum: bool = char_is_alphanumeric(c);
            if current_token_start.is_some() && alnum {
                i = i + 1;
            } else {
                if let Some(token_start) = current_token_start {
                    let t = line.substring_char(token_start, i);
                    let ghost before = token@;
                    token.push(t);
                    assert(views(token@) =~= views(before).push(s.subrange(token_start as int, i as int)));
                    current_token_start = None;
                }
                if char_is_whitespace(c) {
                    i = i + 1;
                } else if alnum {
                    current_token_start = Some(i);
                    i = i + 1;
                } else {
                    let t = line.substring_char(i, i + 1);
                    assert(t@ =~= seq![c]);
                    let ghost before = token@;
                    token.push(t);
                    assert(views(token@) =~= views(before).push(seq![c]));
                    i = i + 1;
                }
            }
        }
    }
    if let Some(token_start) = current_token_start {
        let end: usize = if stopped {
            i
        } else {
            n
        };
        let t = line.substring_char(token_start, end);
        let ghost before = token@;
        token.push(t);
        assert(views(token@) =~= views(before).push(s.subrange(token_start as int, end as int)));
    }
    token
}

proof fn lemma_line_scan_nonempty(s: Seq<char>, i: int, cur: Option<int>, acc: Seq<Seq<char>>)
    requires
        0 <= i,
        cur matches Some(ts) ==> 0 <= ts < i && ts < s.len(),
        forall|k: int| 0 <= k < acc.len() ==> #[trigger] acc[k].len() > 0,
    ensures
        forall|k: int| 0 <= k < line_scan(s, i, cur, acc).len() ==> #[trigger] line_scan(s, i, cur, acc)[k].len() > 0,
    decreases s.len() - i,
{
    if i >= s.len() || s[i] == ';' {
        if let Some(ts) = cur {
            let r = acc.push(s.subrange(ts, s.len() as int));
            assert forall|k: int| 0 <= k < r.len() implies #[trigger] r[k].len() > 0 by {
                if k < acc.len() {
                    assert(r[k] == acc[k]);
                }
            }
        }
    } else {
        let c = s[i];
        if cur is Some && is_alphanumeric_char(c) {
            lemma_line_scan_nonempty(s, i + 1, cur, acc);
            assert(line_scan(s, i, cur, acc) == line_scan(s, i + 1, cur, acc));
        } else {
            let acc1 = match cur {
                Some(ts) => acc.push(s.subrange(ts, i)),
                None => acc,
            };
            assert forall|k: int| 0 <= k < acc1.len() implies #[trigger] acc1[k].len() > 0 by {
                if k < acc.len() {
                    assert(acc1[k] == acc[k]);
                }
            }
            if is_whitespace_char(c) {
                lemma_line_scan_nonempty(s, i + 1, None, acc1);
                assert(line_scan(s, i, cur, acc) == line_scan(s, i + 1, None, acc1));
            } else if is_alphanumeric_char(c) {
                lemma_line_scan_nonempty(s, i + 1, Some(i), acc1);
                assert(line_scan(s, i, cur, acc) == line_scan(s, i + 1, Some(i), acc1));
            } else {
                let acc2 = acc1.push(seq![c]);
                assert forall|k: int| 0 <= k < acc2.len() implies #[trigger] acc2[k].len() > 0 by {
                    if k < acc1.len() {
                        assert(acc2[k] == acc1[k]);
                    }
                }
                lemma_line_scan_nonempty(s, i + 1, None, acc2);
                assert(line_scan(s, i, cur, acc) == line_scan(s, i + 1, None, acc2));
            }
        }
    }
}

/// No token of a line is empty.
pub proof fn lemma_line_tokens_nonempty(s: Seq<char>)
    ensures
        forall|k: int| 0 <= k < line_tokens(s).len() ==> #[trigger] line_tokens(s)[k].len() > 0,
{
    lemma_line_scan_nonempty(s, 0, None, seq![]);
}

/// Whether [`tokenize`] would cut an unsliceable character from `line`.
pub fn tokenize_fails(line: &str) -> (r: bool)
    ensures
        r == line_tokenize_fails(line@),
{
    let ghost s = line@;
    let n: usize = line.unicode_len();
    let mut i: usize = 0;
    while i < n
        invariant
            n == s.len(),
            s == line@,
            i <= n,
            forall|j: int| 0 <= j < i ==> s[j] != ';' && !unsliceable_symbol(s[j]),
        decreases n - i,
    {
        let c: char = line.get_char(i);
        if c == ';' {
            assert forall|k: int|
                0 <= k < s.len() && (forall|j: int| 0 <= j <= k ==> s[j] != ';') implies !unsliceable_symbol(
                s[k],
            ) by {
                if k >= i {
                    assert(s[i as int] == ';');
                }
            }
            return false;
        }
        if !char_is_whitespace(c) && !char_is_alphanumeric(c) && (c as u32) >= 128 {
            assert(unsliceable_symbol(s[i as int]));
            return true;
        }
        i = i + 1;
    }
    false
}

/// What assembling one line came to.
#[derive(Debug)]
pub enum LineOutcome {
    /// The line holds no tokens.
    Empty,
    /// The instruction's words were appended.
    Assembled,
    /// The instruction did not parse; the message says why.
    Error(String),
    /// A label definition is followed by this token.
    UnexpectedToken(String),
    /// A label definition, which the assembler does not support yet.
    LabelDefinition,
    /// An instruction the assembler cannot encode yet: a jump to a label or a
    /// conditional branch.
    Unimplemented,
    /// The line holds a multi-byte character that would become a token of
    /// its own.
    UnsupportedCharacter,
}

/// The abstract outcome of assembling a line, with the appended words.
pub enum LineResult {
    Empty,
    Assembled(Seq<u16>),
    Error(Seq<char>),
    UnexpectedToken(Seq<char>),
    LabelDefinition,
    Unimplemented,
    UnsupportedCharacter,
}

/// A line is tokenized; its first token is the operation, unless the second
/// is `:`, which makes the line a label definition.
pub open spec fn spec_assemble_line(s: Seq<char>) -> LineResult {
    if line_tokenize_fails(s) {
        LineResult::UnsupportedCharacter
    } else {
        let toks = line_tokens(s);
        if toks.len() == 0 {
            LineResult::Empty
        } else if toks.len() > 1 && toks[1] == ":"@ {
            if toks.len() > 2 {
                LineResult::UnexpectedToken(toks[2])
            } else {
                LineResult::LabelDefinition
            }
        } else if instruction_unimplemented(toks[0], toks, 1) {
            LineResult::Unimplemented
        } else {
            match spec_parse_instruction(toks[0], toks, 1).0 {
                Ok(words) => LineResult::Assembled(words),
                Err(e) => LineResult::Error(e),
            }
        }
    }
}

pub open spec fn outcome_matches(o: LineOutcome, r: LineResult, out0: Seq<u16>, out1: Seq<u16>) -> bool {
    match r {
        LineResult::Assembled(words) => o is Assembled && out1 == out0 + words,
        LineResult::Empty => o is Empty && out1 == out0,
        LineResult::Error(e) => (o matches LineOutcome::Error(m) && m@ == e) && out1 == out0,
        LineResult::UnexpectedToken(t) => (o matches LineOutcome::UnexpectedToken(m) && m@ == t)
            && out1 == out0,
        LineResult::LabelDefinition => o is LabelDefinition && out1 == out0,
        LineResult::Unimplemented => o is Unimplemented && out1 == out0,
        LineResult::UnsupportedCharacter => o is UnsupportedCharacter && out1 == out0,
    }
}

/// Assembles one source line, appending its words to `output`.
pub fn assemble_line(line: &str, output: &mut Vec<u16>) -> (o: LineOutcome)
    ensures
        outcome_matches(o, spec_assemble_line(line@), old(output)@, final(output)@),
{
    if tokenize_fails(line) {
        return LineOutcome::UnsupportedCharacter;
    }
    let token_list = tokenize(line);
    let mut token = TokenStream::new(token_list);
    assert(token.toks() == line_tokens(line@));
    let Some(op) = token.next() else {
        return LineOutcome::Empty;
    };
    let is_label: bool = match token.peek() {
        Some(t) => str_eq(t, ":"),
        None => false,
    };
    if is_label {
        token.next();
        if let Some(unused_token) = token.next() {
            return LineOutcome::UnexpectedToken(String::from_str(unused_token));
        }
        return LineOutcome::LabelDefinition;
    }
    if instruction_unimplemented_of(op, &token) {
        return LineOutcome::Unimplemented;
    }
    match parse_instruction(op, &mut token, output) {
        Err(msg) => LineOutcome::Error(msg),
        Ok(_) => LineOutcome::Assembled,
    }
}

/// Decides [`instruction_unimplemented`] by running the operand parser on a
/// copy of the stream.
fn instruction_unimplemented_of(op: &str, token: &TokenStream) -> (r: bool)
    ensures
        r == instruction_unimplemented(op@, token.toks(), token.pos as int),
{
    if fixed_word_of(op).is_some() || str_eq(op, "CALL") || str_eq(op, "INT") || load_base_of(
        op,
    ).is_some() || store_base_of(op).is_some() || str_eq(op, "LDI") || str_eq(op, "MOV")
        || str_eq(op, "PUSH") || str_eq(op, "POP") || str_eq(op, "NOT") {
        return false;
    }
    let mut probe = TokenStream { tokens: token.tokens.clone(), pos: token.pos };
    assert(probe.tokens@ == token.tokens@);
    assert(probe.toks() == token.toks());
    if str_eq(op, "JMP") {
        return match parse_register_or_label(&mut probe) {
            Ok(RegisterOrLabel::Label(_)) => true,
            _ => false,
        };
    }
    if is_branch_of(op) {
        return parse_label_terminating(&mut probe).is_ok();
    }
    false
}

/// An instruction that assembles takes one word, or two when an immediate
/// or offset word follows; the instructions not encoded yet take none.
pub proof fn lemma_instruction_words(op: Seq<char>, toks: Seq<Seq<char>>, pos: int)
    requires
        !instruction_unimplemented(op, toks, pos),
    ensures
        spec_parse_instruction(op, toks, pos).0 matches Ok(words) ==> 1 <= words.len() <= 2,
{
    if load_base(op) is Some {
        let x = spec_parse_register_and_address(toks, pos).0->Ok_0;
        assert(offset_words(x.1).len() <= 1);
    } else if store_base(op) is Some {
        let x = spec_parse_address_and_register(toks, pos).0->Ok_0;
        assert(offset_words(x.0).len() <= 1);
    }
}

proof fn lemma_reveal_mnemonics()
    ensures
        "NOP"@ =~= seq!['N', 'O', 'P'],
        "RET"@ =~= seq!['R', 'E', 'T'],
        "IRET"@ =~= seq!['I', 'R', 'E', 'T'],
        "CLI"@ =~= seq!['C', 'L', 'I'],
        "STI"@ =~= seq!['S', 'T', 'I'],
        "DBG"@ =~= seq!['D', 'B', 'G'],
        "HALT"@ =~= seq!['H', 'A', 'L', 'T'],
        "CALL"@ =~= seq!['C', 'A', 'L', 'L'],
        "INT"@ =~= seq!['I', 'N', 'T'],
        "LDW"@ =~= seq!['L', 'D', 'W'],
        "LDB"@ =~= seq!['L', 'D', 'B'],
        "LDS"@ =~= seq!['L', 'D', 'S'],
        "LRW"@ =~= seq!['L', 'R', 'W'],
        "LRB"@ =~= seq!['L', 'R', 'B'],
        "LRS"@ =~= seq!['L', 'R', 'S'],
        "STW"@ =~= seq!['S', 'T', 'W'],
        "STB"@ =~= seq!['S', 'T', 'B'],
        "LDI"@ =~= seq!['L', 'D', 'I'],
        "MOV"@ =~= seq!['M', 'O', 'V'],
        "PUSH"@ =~= seq!['P', 'U', 'S', 'H'],
        "POP"@ =~= seq!['P', 'O', 'P'],
        "NOT"@ =~= seq!['N', 'O', 'T'],
        "JMP"@ =~= seq!['J', 'M', 'P'],
        "JE"@ =~= seq!['J', 'E'],
        "JNE"@ =~= seq!['J', 'N', 'E'],
        "JL"@ =~= seq!['J', 'L'],
        "JLE"@ =~= seq!['J', 'L', 'E'],
        "JG"@ =~= seq!['J', 'G'],
        "JGE"@ =~= seq!['J', 'G', 'E'],
        "JB"@ =~= seq!['J', 'B'],
        "JBE"@ =~= seq!['J', 'B', 'E'],
        "JA"@ =~= seq!['J', 'A'],
        "JAE"@ =~= seq!['J', 'A', 'E'],
        "ADD"@ =~= seq!['A', 'D', 'D'],
        "ADDC"@ =~= seq!['A', 'D', 'D', 'C'],
        "SUB"@ =~= seq!['S', 'U', 'B'],
        "SUBC"@ =~= seq!['S', 'U', 'B', 'C'],
        "AND"@ =~= seq!['A', 'N', 'D'],
        "OR"@ =~= seq!['O', 'R'],
        "XOR"@ =~= seq!['X', 'O', 'R'],
        "SHL"@ =~= seq!['S', 'H', 'L'],
        "SHR"@ =~= seq!['S', 'H', 'R'],
        "ASR"@ =~= seq!['A', 'S', 'R'],
        "CMP"@ =~= seq!['C', 'M', 'P'],
        "NEG"@ =~= seq!['N', 'E', 'G'],
        "INCB"@ =~= seq!['I', 'N', 'C', 'B'],
        "INCW"@ =~= seq!['I', 'N', 'C', 'W'],
        "DECB"@ =~= seq!['D', 'E', 'C', 'B'],
        "DECW"@ =~= seq!['D', 'E', 'C', 'W'],
{
    reveal_strlit("NOP");
    reveal_strlit("RET");
    reveal_strlit("IRET");
    reveal_strlit("CLI");
    reveal_strlit("STI");
    reveal_strlit("DBG");
    reveal_strlit("HALT");
    reveal_strlit("CALL");
    reveal_strlit("INT");
    reveal_strlit("LDW");
    reveal_strlit("LDB");
    reveal_strlit("LDS");
    reveal_strlit("LRW");
    reveal_strlit("LRB");
    reveal_strlit("LRS");
    reveal_strlit("STW");
    reveal_strlit("STB");
    reveal_strlit("LDI");
    reveal_strlit("MOV");
    reveal_strlit("PUSH");
    reveal_strlit("POP");
    reveal_strlit("NOT");
    reveal_strlit("JMP");
    reveal_strlit("JE");
    reveal_strlit("JNE");
    reveal_strlit("JL");
    reveal_strlit("JLE");
    reveal_strlit("JG");
    reveal_strlit("JGE");
    reveal_strlit("JB");
    reveal_strlit("JBE");
    reveal_strlit("JA");
    reveal_strlit("JAE");
    reveal_strlit("ADD");
    reveal_strlit("ADDC");
    reveal_strlit("SUB");
    reveal_strlit("SUBC");
    reveal_strlit("AND");
    reveal_strlit("OR");
    reveal_strlit("XOR");
    reveal_strlit("SHL");
    reveal_strlit("SHR");
    reveal_strlit("ASR");
    reveal_strlit("CMP");
    reveal_strlit("NEG");
    reveal_strlit("INCB");
    reveal_strlit("INCW");
    reveal_strlit("DECB");
    reveal_strlit("DECW");
}

/// Each register-to-register instruction has a code of its own in the high
/// byte, with the destination register in bits 7..4 and the source in bits
/// 3..0; so two different such instructions never assemble the same
/// operands to the same word.
pub proof fn lemma_two_register_encodings(toks: Seq<Seq<char>>, pos: int)
    ensures
        spec_parse_two_registers(toks, pos).0 matches Ok((a, b)) ==> {
            &&& a < 16 && b < 16
            &&& spec_parse_instruction("MOV"@, toks, pos).0 == Ok::<Seq<u16>, Seq<char>>(seq![(0x4300 + a * 16 + b) as u16])
            &&& spec_parse_instruction("ADD"@, toks, pos).0 == Ok::<Seq<u16>, Seq<char>>(seq![(0x6000 + a * 16 + b) as u16])
            &&& spec_parse_instruction("ADDC"@, toks, pos).0 == Ok::<Seq<u16>, Seq<char>>(seq![(0x6100 + a * 16 + b) as u16])
            &&& spec_parse_instruction("SUB"@, toks, pos).0 == Ok::<Seq<u16>, Seq<char>>(seq![(0x6200 + a * 16 + b) as u16])
            &&& spec_parse_instruction("SUBC"@, toks, pos).0 == Ok::<Seq<u16>, Seq<char>>(seq![(0x6300 + a * 16 + b) as u16])
            &&& spec_parse_instruction("AND"@, toks, pos).0 == Ok::<Seq<u16>, Seq<char>>(seq![(0x6400 + a * 16 + b) as u16])
            &&& spec_parse_instruction("OR"@, toks, pos).0 == Ok::<Seq<u16>, Seq<char>>(seq![(0x6500 + a * 16 + b) as u16])
            &&& spec_parse_instruction("XOR"@, toks, pos).0 == Ok::<Seq<u16>, Seq<char>>(seq![(0x6600 + a * 16 + b) as u16])
            &&& spec_parse_instruction("SHL"@, toks, pos).0 == Ok::<Seq<u16>, Seq<char>>(seq![(0x6800 + a * 16 + b) as u16])
            &&& spec_parse_instruction("SHR"@, toks, pos).0 == Ok::<Seq<u16>, Seq<char>>(seq![(0x6900 + a * 16 + b) as u16])
            &&& spec_parse_instruction("ASR"@, toks, pos).0 == Ok::<Seq<u16>, Seq<char>>(seq![(0x6A00 + a * 16 + b) as u16])
            &&& spec_parse_instruction("CMP"@, toks, pos).0 == Ok::<Seq<u16>, Seq<char>>(seq![(0x6F00 + a * 16 + b) as u16])
        },
        spec_parse_two_registers(toks, pos).0 matches Ok((a, b)) ==> forall|o1: Seq<char>, o2: Seq<char>|
            #[trigger] two_register_base(o1) is Some && #[trigger] two_register_base(o2) is Some && o1 != o2
                ==> spec_parse_instruction(o1, toks, pos).0 != spec_parse_instruction(o2, toks, pos).0,
{
    lemma_reveal_mnemonics();
    if let Ok((a, b)) = spec_parse_two_registers(toks, pos).0 {
        assert forall|o1: Seq<char>, o2: Seq<char>|
            #[trigger] two_register_base(o1) is Some && #[trigger] two_register_base(o2) is Some && o1 != o2
                implies spec_parse_instruction(o1, toks, pos).0 != spec_parse_instruction(o2, toks, pos).0 by {
            lemma_two_register_dispatch(o1, toks, pos);
            lemma_two_register_dispatch(o2, toks, pos);
            let w1 = (two_register_base(o1)->0 + a * 16 + b) as u16;
            let w2 = (two_register_base(o2)->0 + a * 16 + b) as u16;
            assert(two_register_base(o1)->0 != two_register_base(o2)->0);
            assert(w1 != w2);
            assert(seq![w1][0] != seq![w2][0]);
        }
    }
}

proof fn lemma_two_register_dispatch(op: Seq<char>, toks: Seq<Seq<char>>, pos: int)
    requires
        two_register_base(op) is Some,
    ensures
        spec_parse_instruction(op, toks, pos) == spec_two(two_register_base(op)->0, toks, pos),
{
    lemma_reveal_mnemonics();
}

/// Each one-register instruction has a code of its own: `PUSH`, `POP` and
/// `NOT` carry the register in bits 7..4, the others in bits 3..0.
pub proof fn lemma_one_register_encodings(toks: Seq<Seq<char>>, pos: int)
    ensures
        spec_parse_one_register(toks, pos).0 matches Ok(r) ==> {
            &&& r < 16
            &&& spec_parse_instruction("PUSH"@, toks, pos).0 == Ok::<Seq<u16>, Seq<char>>(seq![(0x4E00 + r * 16) as u16])
            &&& spec_parse_instruction("POP"@, toks, pos).0 == Ok::<Seq<u16>, Seq<char>>(seq![(0x4F00 + r * 16) as u16])
            &&& spec_parse_instruction("NOT"@, toks, pos).0 == Ok::<Seq<u16>, Seq<char>>(seq![(0x6700 + r * 16) as u16])
            &&& spec_parse_instruction("NEG"@, toks, pos).0 == Ok::<Seq<u16>, Seq<char>>(seq![(0x6F00 + r) as u16])
            &&& spec_parse_instruction("INCB"@, toks, pos).0 == Ok::<Seq<u16>, Seq<char>>(seq![(0x6F20 + r) as u16])
            &&& spec_parse_instruction("INCW"@, toks, pos).0 == Ok::<Seq<u16>, Seq<char>>(seq![(0x6F30 + r) as u16])
            &&& spec_parse_instruction("DECB"@, toks, pos).0 == Ok::<Seq<u16>, Seq<char>>(seq![(0x6F40 + r) as u16])
            &&& spec_parse_instruction("DECW"@, toks, pos).0 == Ok::<Seq<u16>, Seq<char>>(seq![(0x6F50 + r) as u16])
        },
{
    lemma_reveal_mnemonics();
}

/// The instructions without operands each assemble to a word of their own,
/// whatever follows them on the line, and read no operand.
pub proof fn lemma_fixed_encodings(toks: Seq<Seq<char>>, pos: int)
    ensures
        spec_parse_instruction("NOP"@, toks, pos) == (Ok::<Seq<u16>, Seq<char>>(seq![0x0000u16]), pos),
        spec_parse_instruction("RET"@, toks, pos) == (Ok::<Seq<u16>, Seq<char>>(seq![0x0030u16]), pos),
        spec_parse_instruction("IRET"@, toks, pos) == (Ok::<Seq<u16>, Seq<char>>(seq![0x0050u16]), pos),
        spec_parse_instruction("CLI"@, toks, pos) == (Ok::<Seq<u16>, Seq<char>>(seq![0x0060u16]), pos),
        spec_parse_instruction("STI"@, toks, pos) == (Ok::<Seq<u16>, Seq<char>>(seq![0x0070u16]), pos),
        spec_parse_instruction("DBG"@, toks, pos) == (Ok::<Seq<u16>, Seq<char>>(seq![0x00BBu16]), pos),
        spec_parse_instruction("HALT"@, toks, pos) == (Ok::<Seq<u16>, Seq<char>>(seq![0x0FFFu16]), pos),
{
    lemma_reveal_mnemonics();
}

proof fn lemma_reveal_register_names()
    ensures
        "R0"@ =~= seq!['R', '0'],
        "R1"@ =~= seq!['R', '1'],
        "R2"@ =~= seq!['R', '2'],
        "R3"@ =~= seq!['R', '3'],
        "R4"@ =~= seq!['R', '4'],
        "R5"@ =~= seq!['R', '5'],
        "R6"@ =~= seq!['R', '6'],
        "R7"@ =~= seq!['R', '7'],
        "R8"@ =~= seq!['R', '8'],
        "R9"@ =~= seq!['R', '9'],
        "R10"@ =~= seq!['R', '1', '0'],
        "R11"@ =~= seq!['R', '1', '1'],
        "R12"@ =~= seq!['R', '1', '2'],
        "R13"@ =~= seq!['R', '1', '3'],
        "R14"@ =~= seq!['R', '1', '4'],
        "R15"@ =~= seq!['R', '1', '5'],
        "r0"@ =~= seq!['r', '0'],
        "r1"@ =~= seq!['r', '1'],
        "r2"@ =~= seq!['r', '2'],
        "r3"@ =~= seq!['r', '3'],
        "r4"@ =~= seq!['r', '4'],
        "r5"@ =~= seq!['r', '5'],
        "r6"@ =~= seq!['r', '6'],
        "r7"@ =~= seq!['r', '7'],
        "r8"@ =~= seq!['r', '8'],
        "r9"@ =~= seq!['r', '9'],
        "r10"@ =~= seq!['r', '1', '0'],
        "r11"@ =~= seq!['r', '1', '1'],
        "r12"@ =~= seq!['r', '1', '2'],
        "r13"@ =~= seq!['r', '1', '3'],
        "r14"@ =~= seq!['r', '1', '4'],
        "r15"@ =~= seq!['r', '1', '5'],
        "ST"@ =~= seq!['S', 'T'],
        "SP"@ =~= seq!['S', 'P'],
        "PC"@ =~= seq!['P', 'C'],
{
    reveal_strlit("R0");
    reveal_strlit("R1");
    reveal_strlit("R2");
    reveal_strlit("R3");
    reveal_strlit("R4");
    reveal_strlit("R5");
    reveal_strlit("R6");
    reveal_strlit("R7");
    reveal_strlit("R8");
    reveal_strlit("R9");
    reveal_strlit("R10");
    reveal_strlit("R11");
    reveal_strlit("R12");
    reveal_strlit("R13");
    reveal_strlit("R14");
    reveal_strlit("R15");
    reveal_strlit("r0");
    reveal_strlit("r1");
    reveal_strlit("r2");
    reveal_strlit("r3");
    reveal_strlit("r4");
    reveal_strlit("r5");
    reveal_strlit("r6");
    reveal_strlit("r7");
    reveal_strlit("r8");
    reveal_strlit("r9");
    reveal_strlit("r10");
    reveal_strlit("r11");
    reveal_strlit("r12");
    reveal_strlit("r13");
    reveal_strlit("r14");
    reveal_strlit("r15");
    reveal_strlit("ST");
    reveal_strlit("SP");
    reveal_strlit("PC");
}

/// `R` or `r` followed by the decimal numeral of a number below 16 names
/// that register, and `ST`, `SP` and `PC` name registers 13, 14 and 15; no
/// other token names a register.
pub proof fn lemma_register_names(n: nat, t: Seq<char>)
    ensures
        n < 16 ==> register_number(seq!['R'] + decimal_digits(n)) == Some(n as u8),
        n < 16 ==> register_number(seq!['r'] + decimal_digits(n)) == Some(n as u8),
        register_number(seq!['S', 'T']) == Some(13u8),
        register_number(seq!['S', 'P']) == Some(14u8),
        register_number(seq!['P', 'C']) == Some(15u8),
        register_number(t) matches Some(k) ==> k < 16 && (t == seq!['R'] + decimal_digits(k as nat) || t
            == seq!['r'] + decimal_digits(k as nat) || (k == 13 && t == seq!['S', 'T']) || (k == 14 && t
            == seq!['S', 'P']) || (k == 15 && t == seq!['P', 'C'])),
{
    lemma_reveal_register_names();
    assert forall|m: nat| m < 16 implies #[trigger] decimal_digits(m) == if m < 10 {
        seq![('0' as u8 + m) as char]
    } else {
        seq!['1', ('0' as u8 + m - 10) as char]
    } by {
        if m >= 10 {
            assert(decimal_digits(m / 10) == seq!['1']);
            assert(decimal_digits(m) =~= seq!['1', ('0' as u8 + m - 10) as char]);
        }
    }
    if n >= 16 {
    } else if n == 0 {
        assert(decimal_digits(n) == seq!['0']);
        assert(seq!['R'] + decimal_digits(n) =~= seq!['R', '0']);
        assert(seq!['r'] + decimal_digits(n) =~= seq!['r', '0']);
    } else if n == 1 {
        assert(decimal_digits(n) == seq!['1']);
        assert(seq!['R'] + decimal_digits(n) =~= seq!['R', '1']);
        assert(seq!['r'] + decimal_digits(n) =~= seq!['r', '1']);
    } else if n == 2 {
        assert(decimal_digits(n) == seq!['2']);
        assert(seq!['R'] + decimal_digits(n) =~= seq!['R', '2']);
        assert(seq!['r'] + decimal_digits(n) =~= seq!['r', '2']);
    } else if n == 3 {
        assert(decimal_digits(n) == seq!['3']);
        assert(seq!['R'] + decimal_digits(n) =~= seq!['R', '3']);
        assert(seq!['r'] + decimal_digits(n) =~= seq!['r', '3']);
    } else if n == 4 {
        assert(decimal_digits(n) == seq!['4']);
        assert(seq!['R'] + decimal_digits(n) =~= seq!['R', '4']);
        assert(seq!['r'] + decimal_digits(n) =~= seq!['r', '4']);
    } else if n == 5 {
        assert(decimal_digits(n) == seq!['5']);
        assert(seq!['R'] + decimal_digits(n) =~= seq!['R', '5']);
        assert(seq!['r'] + decimal_digits(n) =~= seq!['r', '5']);
    } else if n == 6 {
        assert(decimal_digits(n) == seq!['6']);
        assert(seq!['R'] + decimal_digits(n) =~= seq!['R', '6']);
        assert(seq!['r'] + decimal_digits(n) =~= seq!['r', '6']);
    } else if n == 7 {
        assert(decimal_digits(n) == seq!['7']);
        assert(seq!['R'] + decimal_digits(n) =~= seq!['R', '7']);
        assert(seq!['r'] + decimal_digits(n) =~= seq!['r', '7']);
    } else if n == 8 {
        assert(decimal_digits(n) == seq!['8']);
        assert(seq!['R'] + decimal_digits(n) =~= seq!['R', '8']);
        assert(seq!['r'] + decimal_digits(n) =~= seq!['r', '8']);
    } else if n == 9 {
        assert(decimal_digits(n) == seq!['9']);
        assert(seq!['R'] + decimal_digits(n) =~= seq!['R', '9']);
        assert(seq!['r'] + decimal_digits(n) =~= seq!['r', '9']);
    } else if n == 10 {
        assert(decimal_digits(n) == seq!['1', '0']);
        assert(seq!['R'] + decimal_digits(n) =~= seq!['R', '1', '0']);
        assert(seq!['r'] + decimal_digits(n) =~= seq!['r', '1', '0']);
    } else if n == 11 {
        assert(decimal_digits(n) == seq!['1', '1']);
        assert(seq!['R'] + decimal_digits(n) =~= seq!['R', '1', '1']);
        assert(seq!['r'] + decimal_digits(n) =~= seq!['r', '1', '1']);
    } else if n == 12 {
        assert(decimal_digits(n) == seq!['1', '2']);
        assert(seq!['R'] + decimal_digits(n) =~= seq!['R', '1', '2']);
        assert(seq!['r'] + decimal_digits(n) =~= seq!['r', '1', '2']);
    } else if n == 13 {
        assert(decimal_digits(n) == seq!['1', '3']);
        assert(seq!['R'] + decimal_digits(n) =~= seq!['R', '1', '3']);
        assert(seq!['r'] + decimal_digits(n) =~= seq!['r', '1', '3']);
    } else if n == 14 {
        assert(decimal_digits(n) == seq!['1', '4']);
        assert(seq!['R'] + decimal_digits(n) =~= seq!['R', '1', '4']);
        assert(seq!['r'] + decimal_digits(n) =~= seq!['r', '1', '4']);
    } else if n == 15 {
        assert(decimal_digits(n) == seq!['1', '5']);
        assert(seq!['R'] + decimal_digits(n) =~= seq!['R', '1', '5']);
        assert(seq!['r'] + decimal_digits(n) =~= seq!['r', '1', '5']);
    }
}

} // verus!
