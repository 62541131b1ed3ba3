//! Character classes, number parsing and string building used by the
//! assembler front end.
use vstd::prelude::*;
use vstd::string::*;

verus! {

/// The Unicode `White_Space` characters: tab through carriage return, space,
/// next line, no-break space, ogham space mark, the en quad through hair
/// space block, line and paragraph separators, narrow no-break space, medium
/// mathematical space and ideographic space.
pub open spec fn is_whitespace_char(c: char) -> bool {
    let u = c as u32;
    ||| 0x09 <= u <= 0x0D
    ||| u == 0x20
    ||| u == 0x85
    ||| u == 0xA0
    ||| u == 0x1680
    ||| 0x2000 <= u <= 0x200A
    ||| u == 0x2028
    ||| u == 0x2029
    ||| u == 0x202F
    ||| u == 0x205F
    ||| u == 0x3000
}

/// Whether `c` has the Unicode `White_Space` property, as
/// `char::is_whitespace` answers.
pub fn char_is_whitespace(c: char) -> (r: bool)
    ensures
        r == is_whitespace_char(c),
{
    let u: u32 = c as u32;
    (0x09 <= u && u <= 0x0D) || u == 0x20 || u == 0x85 || u == 0xA0 || u == 0x1680 || (0x2000 <= u
        && u <= 0x200A) || u == 0x2028 || u == 0x2029 || u == 0x202F || u == 0x205F || u == 0x3000
}

/// What `char::is_alphanumeric` answers: Unicode `Alphabetic` or `Numeric`.
pub uninterp spec fn is_alphanumeric_char(c: char) -> bool;

/// The ASCII letters and digits.
pub open spec fn is_ascii_alphanumeric_char(c: char) -> bool {
    ('a' <= c && c <= 'z') || ('A' <= c && c <= 'Z') || ('0' <= c && c <= '9')
}

/// Calls `char::is_alphanumeric`, which answers whether the character is
/// Unicode `Alphabetic` or numeric (categories Nd, Nl, No). Among ASCII
/// characters those are exactly the letters and digits; beyond ASCII the
/// Unicode tables are not written out, and the contract only names the result.
#[verifier::external_body]
pub(crate) fn char_is_alphanumeric(c: char) -> (r: bool)
    ensures
        r == is_alphanumeric_char(c),
        (c as u32) < 128 ==> (r == is_ascii_alphanumeric_char(c)),
{
    c.is_alphanumeric()
}

/// The value of a digit character in bases up to 36: `0-9`, then `a-z` and
/// `A-Z` from 10; any other character gets 36, which no base accepts.
pub open spec fn digit_value(c: char) -> int {
    if '0' <= c && c <= '9' {
        c as int - '0' as int
    } else if 'a' <= c && c <= 'z' {
        c as int - 'a' as int + 10
    } else if 'A' <= c && c <= 'Z' {
        c as int - 'A' as int + 10
    } else {
        36
    }
}

pub open spec fn all_digits(s: Seq<char>, radix: int) -> bool {
    forall|i: int| 0 <= i < s.len() ==> #[trigger] digit_value(s[i]) < radix
}

/// The value of a string of digits, most significant first.
pub open spec fn digits_value(s: Seq<char>, radix: int) -> int
    decreases s.len(),
{
    if s.len() == 0 {
        0
    } else {
        digits_value(s.drop_last(), radix) * radix + digit_value(s.last())
    }
}

/// The integer that `from_str_radix` reads from `s`: an optional `+` (or `-`
/// for signed types) followed by one or more digits of the base, nothing
/// else; range checks are left to the caller.
pub open spec fn parse_int(s: Seq<char>, radix: int, signed: bool) -> Option<int> {
    if s.len() == 0 {
        None
    } else if s[0] == '+' || (signed && s[0] == '-') {
        let rest = s.drop_first();
        if rest.len() > 0 && all_digits(rest, radix) {
            Some(
                if s[0] == '-' {
                    -digits_value(rest, radix)
                } else {
                    digits_value(rest, radix)
                },
            )
        } else {
            None
        }
    } else if all_digits(s, radix) {
        Some(digits_value(s, radix))
    } else {
        None
    }
}

/// `parse_int` restricted to the range `lo..=hi` of the target type.
pub open spec fn parse_int_in(s: Seq<char>, radix: int, signed: bool, lo: int, hi: int) -> Option<int> {
    match parse_int(s, radix, signed) {
        Some(v) => if lo <= v <= hi {
            Some(v)
        } else {
            None
        },
        None => None,
    }
}

/// Calls `u8::from_str_radix`; per its documentation it accepts an optional
/// `+` and digits of the base, and fails on anything else or on overflow.
#[verifier::external_body]
pub(crate) fn u8_from_str_radix(s: &str, radix: u32) -> (r: Option<u8>)
    requires
        2 <= radix <= 36,
    ensures
        r matches Some(v) ==> parse_int_in(s@, radix as int, false, 0, 255) == Some(v as int),
        r is None ==> parse_int_in(s@, radix as int, false, 0, 255) is None,
{
    u8::from_str_radix(s, radix).ok()
}

/// Calls `i32::from_str_radix`; per its documentation it accepts an optional
/// sign and digits of the base, and fails on anything else or on overflow.
#[verifier::external_body]
pub(crate) fn i32_from_str_radix(s: &str, radix: u32) -> (r: Option<i32>)
    requires
        2 <= radix <= 36,
    ensures
        r matches Some(v) ==> parse_int_in(s@, radix as int, true, i32::MIN as int, i32::MAX as int)
            == Some(v as int),
        r is None ==> parse_int_in(s@, radix as int, true, i32::MIN as int, i32::MAX as int) is None,
{
    i32::from_str_radix(s, radix).ok()
}

/// Calls `i64::from_str_radix`; per its documentation it accepts an optional
/// sign and digits of the base, and fails on anything else or on overflow.
#[verifier::external_body]
pub(crate) fn i64_from_str_radix(s: &str, radix: u32) -> (r: Option<i64>)
    requires
        2 <= radix <= 36,
    ensures
        r matches Some(v) ==> parse_int_in(s@, radix as int, true, i64::MIN as int, i64::MAX as int)
            == Some(v as int),
        r is None ==> parse_int_in(s@, radix as int, true, i64::MIN as int, i64::MAX as int) is None,
{
    i64::from_str_radix(s, radix).ok()
}

/// The decimal digits of a natural number, most significant first.
pub open spec fn decimal_digits(n: nat) -> Seq<char>
    decreases n,
{
    if n < 10 {
        seq![('0' as u8 + n) as char]
    } else {
        decimal_digits(n / 10).push(('0' as u8 + n % 10) as char)
    }
}

/// The decimal representation of an integer, with `-` before negatives.
pub open spec fn decimal(n: int) -> Seq<char> {
    if n < 0 {
        seq!['-'] + decimal_digits((-n) as nat)
    } else {
        decimal_digits(n as nat)
    }
}

/// Calls `i64::to_string`, whose `Display` output is the decimal numeral.
#[verifier::external_body]
pub(crate) fn i64_to_string(n: i64) -> (r: String)
    ensures
        r@ == decimal(n as int),
{
    n.to_string()
}

/// Calls `char::to_string`, which gives the one-character string.
#[verifier::external_body]
pub(crate) fn char_to_string(c: char) -> (r: String)
    ensures
        r@ == seq![c],
{
    c.to_string()
}

/// The characters of `s` other than underscores.
pub open spec fn without_underscores(s: Seq<char>) -> Seq<char> {
    s.filter(|c: char| c != '_')
}

/// The characters of `s` without its underscores.
pub fn remove_underscores(s: &str) -> (r: String)
    ensures
        r@ == without_underscores(s@),
{
    let n: usize = s.unicode_len();
    let mut r = String::new();
    let mut i: usize = 0;
    while i < n
        invariant
            n == s@.len(),
            i <= n,
            r@ == without_underscores(s@.subrange(0, i as int)),
        decreases n - i,
    {
        let c: char = s.get_char(i);
        let ghost before = r@;
        if c != '_' {
            r.append(s.substring_char(i, i + 1));
        }
        proof {
            reveal(Seq::filter);
            let next = s@.subrange(0, i + 1);
            assert(next.drop_last() =~= s@.subrange(0, i as int));
            assert(next.last() == c);
            if c != '_' {
                assert(s@.subrange(i as int, i + 1) =~= seq![c]);
            }
        }
        i = i + 1;
    }
    assert(s@.subrange(0, n as int) =~= s@);
    r
}

/// Whether two strings hold the same characters.
pub fn str_eq(a: &str, b: &str) -> (r: bool)
    ensures
        r == (a@ == b@),
{
    let n: usize = a.unicode_len();
    if n != b.unicode_len() {
        return false;
    }
    let mut i: usize = 0;
    while i < n
        invariant
            n == a@.len(),
            n == b@.len(),
            i <= n,
            forall|j: int| 0 <= j < i ==> a@[j] == b@[j],
        decreases n - i,
    {
        if a.get_char(i) != b.get_char(i) {
            return false;
        }
        i = i + 1;
    }
    assert(a@ =~= b@);
    true
}

/// Concatenates three strings.
pub fn concat3(a: &str, b: &str, c: &str) -> (r: String)
    ensures
        r@ == a@ + b@ + c@,
{
    let mut r = String::from_str(a);
    r.append(b);
    r.append(c);
    r
}

} // verus!
