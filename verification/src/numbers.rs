//! Decimal numbers as text: what a text means as a number, and the text of a
//! number.
//!
//! A number is an optional sign and one or more of the digits `0` to `9`;
//! a text with anything else in it, without a digit, or whose value does not
//! fit the type asked for, is no number.

use vstd::prelude::*;
use vstd::string::is_ascii_spec_bytes;

verus! {

/// Whether a character is one of the digits `0` to `9`.
pub open spec fn is_digit(c: char) -> bool {
    '0' <= c <= '9'
}

/// The value of a digit.
pub open spec fn digit_value(c: char) -> nat {
    (c as u32 - 0x30) as nat
}

/// Whether every character is a digit.
pub open spec fn all_digits(s: Seq<char>) -> bool {
    forall|i: int| 0 <= i < s.len() ==> is_digit(#[trigger] s[i])
}

/// The value of a run of digits, the most significant first.
pub open spec fn digits_value(s: Seq<char>) -> nat
    decreases s.len(),
{
    if s.len() == 0 {
        0
    } else {
        digits_value(s.drop_last()) * 10 + digit_value(s.last())
    }
}

/// The value of a text without a sign: that of its digits, where it has at
/// least one and nothing else.
pub open spec fn parsed_magnitude(body: Seq<char>) -> Option<nat> {
    if body.len() > 0 && all_digits(body) {
        Some(digits_value(body))
    } else {
        None
    }
}

/// The value of a text as a number from 0 to `max`: digits, after a `+` or
/// without a sign.
pub open spec fn parsed_unsigned(s: Seq<char>, max: nat) -> Option<nat> {
    let body = if s.len() > 0 && s[0] == '+' {
        s.drop_first()
    } else {
        s
    };
    match parsed_magnitude(body) {
        Some(value) => if value <= max {
            Some(value)
        } else {
            None
        },
        None => None,
    }
}

/// The value of a text as a number of 32 bits with a sign: digits, after a
/// `+`, after a `-` or without a sign.
pub open spec fn parsed_i32(s: Seq<char>) -> Option<int> {
    if s.len() > 0 && s[0] == '-' {
        match parsed_magnitude(s.drop_first()) {
            Some(value) => if value <= 0x8000_0000 {
                Some(-(value as int))
            } else {
                None
            },
            None => None,
        }
    } else {
        match parsed_unsigned(s, 0x7fff_ffff) {
            Some(value) => Some(value as int),
            None => None,
        }
    }
}

/// The text of a number: its decimal digits, the most significant first.
pub open spec fn decimal(n: nat) -> Seq<char>
    decreases n,
{
    if n < 10 {
        seq![digit_char(n)]
    } else {
        decimal(n / 10).push(digit_char(n % 10))
    }
}

/// The digit of a value below 10.
pub open spec fn digit_char(n: nat) -> char {
    if n == 0 {
        '0'
    } else if n == 1 {
        '1'
    } else if n == 2 {
        '2'
    } else if n == 3 {
        '3'
    } else if n == 4 {
        '4'
    } else if n == 5 {
        '5'
    } else if n == 6 {
        '6'
    } else if n == 7 {
        '7'
    } else if n == 8 {
        '8'
    } else {
        '9'
    }
}

/// A run of digits is worth at least as much as any of its beginnings.
pub proof fn lemma_digits_value_grows(s: Seq<char>, k: int)
    requires
        0 <= k <= s.len(),
    ensures
        digits_value(s.take(k)) <= digits_value(s),
    decreases s.len() - k,
{
    if k == s.len() {
        assert(s.take(k) =~= s);
    } else {
        lemma_digits_value_grows(s.drop_last(), k);
        assert(s.drop_last().take(k) =~= s.take(k));
    }
}

/// The text of a number is made of digits and means that number.
pub proof fn lemma_decimal_parses(n: nat)
    ensures
        decimal(n).len() > 0,
        all_digits(decimal(n)),
        digits_value(decimal(n)) == n,
    decreases n,
{
    if n < 10 {
        let s = decimal(n);
        assert(s.drop_last() =~= Seq::empty());
        assert(digits_value(s.drop_last()) == 0);
        assert(digit_value(s.last()) == n);
    } else {
        lemma_decimal_parses(n / 10);
        let s = decimal(n);
        assert(s.drop_last() =~= decimal(n / 10));
        assert(digit_value(s.last()) == n % 10);
    }
}

/// The value of the digits of `bytes` from `start` on, where there is at
/// least one, nothing else follows, and the value is at most `max`.
fn parse_digits(text: &str, bytes: &[u8], start: usize, max: u64) -> (value: Option<u64>)
    requires
        start <= bytes@.len(),
        bytes@.len() == text@.len(),
        forall|i: int| 0 <= i < text@.len() ==> '\0' <= #[trigger] text@[i] <= '\u{7f}',
        forall|i: int| 0 <= i < text@.len() ==> bytes@[i] == #[trigger] text@[i] as u8,
    ensures
        match parsed_magnitude(text@.skip(start as int)) {
            Some(n) => if n <= max {
                value == Some(n as u64)
            } else {
                value is None
            },
            None => value is None,
        },
{
    let ghost body = text@.skip(start as int);
    if start == bytes.len() {
        return None;
    }
    let mut value: u64 = 0;
    let mut i: usize = start;
    proof {
        assert(body.take(0) =~= Seq::empty());
    }
    while i < bytes.len()
        invariant
            start <= i <= bytes@.len(),
            body == text@.skip(start as int),
            bytes@.len() == text@.len(),
            forall|i: int| 0 <= i < text@.len() ==> '\0' <= #[trigger] text@[i] <= '\u{7f}',
            forall|i: int| 0 <= i < text@.len() ==> bytes@[i] == #[trigger] text@[i] as u8,
            all_digits(body.take(i - start)),
            value == digits_value(body.take(i - start)),
            value <= max,
        decreases bytes@.len() - i,
    {
        let b = bytes[i];
        let ghost c = text@[i as int];
        proof {
            assert(body[i - start] == c);
            assert(b == c as u8);
            assert(body.take(i - start + 1).drop_last() =~= body.take(i - start));
            assert(body.take(i - start + 1).last() == c);
        }
        if b < 48 || b > 57 {
            proof {
                assert(!is_digit(c));
                assert(!all_digits(body));
            }
            return None;
        }
        let digit = (b - 48) as u64;
        proof {
            assert(is_digit(c));
            assert(digit == digit_value(c));
        }
        if digit > max {
            proof {
                if all_digits(body) {
                    lemma_digits_value_grows(body, i - start + 1);
                }
            }
            return None;
        }
        if value > (max - digit) / 10 {
            proof {
                if all_digits(body) {
                    lemma_digits_value_grows(body, i - start + 1);
                    assert(value * 10 + digit > max) by (nonlinear_arith)
                        requires
                            value > (max - digit) / 10,
                            digit <= 9,
                            digit <= max,
                    ;
                }
            }
            return None;
        }
        assert(value * 10 + digit <= max) by (nonlinear_arith)
            requires
                value <= (max - digit) / 10,
                digit <= max,
        ;
        value = value * 10 + digit;
        i += 1;
    }
    proof {
        assert(body.take(i - start) =~= body);
    }
    Some(value)
}

/// Reads a text as a number from 0 to `max`.
pub fn parse_unsigned(text: &str, max: u64) -> (value: Option<u64>)
    ensures
        match parsed_unsigned(text@, max as nat) {
            Some(n) => value == Some(n as u64),
            None => value is None,
        },
{
    let ghost body = if text@.len() > 0 && text@[0] == '+' {
        text@.drop_first()
    } else {
        text@
    };
    if !text.is_ascii() {
        proof {
            if all_digits(body) {
                assert forall|i: int| 0 <= i < text@.len() implies '\0' <= #[trigger] text@[i]
                    <= '\u{7f}' by {
                    if text@.len() > 0 && text@[0] == '+' {
                        if i > 0 {
                            assert(is_digit(body[i - 1]));
                        }
                    } else {
                        assert(is_digit(body[i]));
                    }
                }
            }
        }
        return None;
    }
    let bytes = text.as_bytes();
    proof {
        is_ascii_spec_bytes(text);
    }
    let start: usize = if bytes.len() > 0 && bytes[0] == 43 {
        1
    } else {
        0
    };
    proof {
        assert(text@.skip(start as int) =~= body);
    }
    parse_digits(text, bytes, start, max)
}

/// Reads a text as a number from 0 to 255.
pub fn parse_u8(text: &str) -> (value: Option<u8>)
    ensures
        match parsed_unsigned(text@, 255) {
            Some(n) => value == Some(n as u8),
            None => value is None,
        },
{
    match parse_unsigned(text, 255) {
        Some(n) => Some(n as u8),
        None => None,
    }
}

/// Reads a text as a number of 32 bits with a sign.
pub fn parse_i32(text: &str) -> (value: Option<i32>)
    ensures
        match parsed_i32(text@) {
            Some(n) => value == Some(n as i32),
            None => value is None,
        },
{
    if !text.is_ascii() {
        proof {
            let body = if text@.len() > 0 && (text@[0] == '+' || text@[0] == '-') {
                text@.drop_first()
            } else {
                text@
            };
            if all_digits(body) {
                assert forall|i: int| 0 <= i < text@.len() implies '\0' <= #[trigger] text@[i]
                    <= '\u{7f}' by {
                    if text@.len() > 0 && (text@[0] == '+' || text@[0] == '-') {
                        if i > 0 {
                            assert(is_digit(body[i - 1]));
                        }
                    } else {
                        assert(is_digit(body[i]));
                    }
                }
            }
        }
        return None;
    }
    let bytes = text.as_bytes();
    proof {
        is_ascii_spec_bytes(text);
    }
    if bytes.len() > 0 && bytes[0] == 45 {
        proof {
            assert(text@.skip(1) =~= text@.drop_first());
        }
        match parse_digits(text, bytes, 1, 0x8000_0000) {
            Some(n) => {
                if n == 0x8000_0000 {
                    Some(i32::MIN)
                } else {
                    Some(-(n as i32))
                }
            },
            None => None,
        }
    } else {
        match parse_unsigned(text, 0x7fff_ffff) {
            Some(n) => Some(n as i32),
            None => None,
        }
    }
}

/// The digit of a value below 10, as a text.
fn digit_text(digit: u64) -> (text: &'static str)
    requires
        digit < 10,
    ensures
        text@ == seq![digit_char(digit as nat)],
{
    proof {
        reveal_strlit("0");
        reveal_strlit("1");
        reveal_strlit("2");
        reveal_strlit("3");
        reveal_strlit("4");
        reveal_strlit("5");
        reveal_strlit("6");
        reveal_strlit("7");
        reveal_strlit("8");
        reveal_strlit("9");
    }
    let text = if digit == 0 {
        "0"
    } else if digit == 1 {
        "1"
    } else if digit == 2 {
        "2"
    } else if digit == 3 {
        "3"
    } else if digit == 4 {
        "4"
    } else if digit == 5 {
        "5"
    } else if digit == 6 {
        "6"
    } else if digit == 7 {
        "7"
    } else if digit == 8 {
        "8"
    } else {
        "9"
    };
    proof {
        assert(text@ =~= seq![digit_char(digit as nat)]);
    }
    text
}

/// The text of a number.
pub fn decimal_text(n: u64) -> (text: String)
    ensures
        text@ == decimal(n as nat),
    decreases n,
{
    if n < 10 {
        digit_text(n).to_owned()
    } else {
        let mut text = decimal_text(n / 10);
        text.append(digit_text(n % 10));
        proof {
            assert(text@ =~= decimal(n as nat));
        }
        text
    }
}

/// The upper-case hexadecimal digit of a value below 16.
pub open spec fn hex_char(n: nat) -> char {
    if n < 10 {
        digit_char(n)
    } else if n == 10 {
        'A'
    } else if n == 11 {
        'B'
    } else if n == 12 {
        'C'
    } else if n == 13 {
        'D'
    } else if n == 14 {
        'E'
    } else {
        'F'
    }
}

/// The text of a number in upper-case hexadecimal digits, the most
/// significant first.
pub open spec fn hexadecimal(n: nat) -> Seq<char>
    decreases n,
{
    if n < 16 {
        seq![hex_char(n)]
    } else {
        hexadecimal(n / 16).push(hex_char(n % 16))
    }
}

/// The value of a hexadecimal digit, in either case; nothing for any other
/// character.
pub open spec fn hex_value(c: char) -> Option<nat> {
    if '0' <= c <= '9' {
        Some((c as u32 - 0x30) as nat)
    } else if 'a' <= c <= 'f' {
        Some((c as u32 - 0x61 + 10) as nat)
    } else if 'A' <= c <= 'F' {
        Some((c as u32 - 0x41 + 10) as nat)
    } else {
        None
    }
}

/// Whether every character is a hexadecimal digit.
pub open spec fn all_hex(s: Seq<char>) -> bool {
    forall|i: int| 0 <= i < s.len() ==> hex_value(#[trigger] s[i]) is Some
}

/// The value of a run of hexadecimal digits, the most significant first.
pub open spec fn hex_digits_value(s: Seq<char>) -> nat
    decreases s.len(),
{
    if s.len() == 0 {
        0
    } else {
        hex_digits_value(s.drop_last()) * 16 + hex_value(s.last())->0
    }
}

/// The value of a text as a hexadecimal number from 0 to `max`: one or more
/// hexadecimal digits, after a `+` or without a sign.
pub open spec fn parsed_hex_upto(s: Seq<char>, max: nat) -> Option<nat> {
    let body = if s.len() > 0 && s[0] == '+' {
        s.drop_first()
    } else {
        s
    };
    if body.len() > 0 && all_hex(body) && hex_digits_value(body) <= max {
        Some(hex_digits_value(body))
    } else {
        None
    }
}

/// The value of a text as a hexadecimal number of 32 bits.
pub open spec fn parsed_hex(s: Seq<char>) -> Option<nat> {
    parsed_hex_upto(s, 0xffff_ffff)
}

/// A run of hexadecimal digits is worth at least as much as any of its
/// beginnings.
pub proof fn lemma_hex_digits_value_grows(s: Seq<char>, k: int)
    requires
        0 <= k <= s.len(),
    ensures
        hex_digits_value(s.take(k)) <= hex_digits_value(s),
    decreases s.len() - k,
{
    if k == s.len() {
        assert(s.take(k) =~= s);
    } else {
        lemma_hex_digits_value_grows(s.drop_last(), k);
        assert(s.drop_last().take(k) =~= s.take(k));
    }
}

/// Reads a text as a hexadecimal number from 0 to `max`.
pub fn parse_hex_upto(text: &str, max: u64) -> (value: Option<u64>)
    ensures
        match parsed_hex_upto(text@, max as nat) {
            Some(n) => value == Some(n as u64),
            None => value is None,
        },
{
    let ghost body = if text@.len() > 0 && text@[0] == '+' {
        text@.drop_first()
    } else {
        text@
    };
    if !text.is_ascii() {
        proof {
            if all_hex(body) {
                assert forall|i: int| 0 <= i < text@.len() implies '\0' <= #[trigger] text@[i]
                    <= '\u{7f}' by {
                    if text@.len() > 0 && text@[0] == '+' {
                        if i > 0 {
                            assert(hex_value(body[i - 1]) is Some);
                        }
                    } else {
                        assert(hex_value(body[i]) is Some);
                    }
                }
            }
        }
        return None;
    }
    let bytes = text.as_bytes();
    proof {
        is_ascii_spec_bytes(text);
    }
    let start: usize = if bytes.len() > 0 && bytes[0] == 43 {
        1
    } else {
        0
    };
    proof {
        assert(text@.skip(start as int) =~= body);
    }
    if start == bytes.len() {
        return None;
    }
    let mut value: u64 = 0;
    let mut i: usize = start;
    proof {
        assert(body.take(0) =~= Seq::empty());
    }
    while i < bytes.len()
        invariant
            start <= i <= bytes@.len(),
            body == text@.skip(start as int),
            bytes@.len() == text@.len(),
            forall|i: int| 0 <= i < text@.len() ==> '\0' <= #[trigger] text@[i] <= '\u{7f}',
            forall|i: int| 0 <= i < text@.len() ==> bytes@[i] == #[trigger] text@[i] as u8,
            body == if text@.len() > 0 && text@[0] == '+' {
                text@.drop_first()
            } else {
                text@
            },
            all_hex(body.take(i - start)),
            value == hex_digits_value(body.take(i - start)),
            value <= max,
        decreases bytes@.len() - i,
    {
        let b = bytes[i];
        let ghost c = text@[i as int];
        proof {
            assert(body[i - start] == c);
            assert(b == c as u8);
            assert(body.take(i - start + 1).drop_last() =~= body.take(i - start));
            assert(body.take(i - start + 1).last() == c);
        }
        let digit: u64 = if 48 <= b && b <= 57 {
            (b - 48) as u64
        } else if 97 <= b && b <= 102 {
            (b - 97 + 10) as u64
        } else if 65 <= b && b <= 70 {
            (b - 65 + 10) as u64
        } else {
            proof {
                assert(hex_value(c) is None);
                assert(!all_hex(body));
            }
            return None;
        };
        proof {
            assert(hex_value(c) == Some(digit as nat));
        }
        if digit > max {
            proof {
                if all_hex(body) {
                    lemma_hex_digits_value_grows(body, i - start + 1);
                }
            }
            return None;
        }
        if value > (max - digit) / 16 {
            proof {
                if all_hex(body) {
                    lemma_hex_digits_value_grows(body, i - start + 1);
                    assert(value * 16 + digit > max) by (nonlinear_arith)
                        requires
                            value > (max - digit) / 16,
                            digit <= 15,
                            digit <= max,
                    ;
                }
            }
            return None;
        }
        assert(value * 16 + digit <= max) by (nonlinear_arith)
            requires
                value <= (max - digit) / 16,
                digit <= max,
        ;
        value = value * 16 + digit;
        i += 1;
    }
    proof {
        assert(body.take(i - start) =~= body);
    }
    Some(value)
}

/// Reads a text as a hexadecimal number of 32 bits.
pub fn parse_hex_u32(text: &str) -> (value: Option<u32>)
    ensures
        match parsed_hex(text@) {
            Some(n) => value == Some(n as u32),
            None => value is None,
        },
{
    match parse_hex_upto(text, 0xffff_ffff) {
        Some(n) => Some(n as u32),
        None => None,
    }
}

/// The upper-case hexadecimal digit of a value below 16, as a text.
fn hex_digit_text(digit: u32) -> (text: &'static str)
    requires
        digit < 16,
    ensures
        text@ == seq![hex_char(digit as nat)],
{
    if digit < 10 {
        digit_text(digit as u64)
    } else {
        proof {
            reveal_strlit("A");
            reveal_strlit("B");
            reveal_strlit("C");
            reveal_strlit("D");
            reveal_strlit("E");
            reveal_strlit("F");
        }
        let text = if digit == 10 {
            "A"
        } else if digit == 11 {
            "B"
        } else if digit == 12 {
            "C"
        } else if digit == 13 {
            "D"
        } else if digit == 14 {
            "E"
        } else {
            "F"
        };
        proof {
            assert(text@ =~= seq![hex_char(digit as nat)]);
        }
        text
    }
}

/// The text of a number in upper-case hexadecimal digits.
pub fn hexadecimal_text(n: u32) -> (text: String)
    ensures
        text@ == hexadecimal(n as nat),
    decreases n,
{
    if n < 16 {
        hex_digit_text(n).to_owned()
    } else {
        let mut text = hexadecimal_text(n / 16);
        text.append(hex_digit_text(n % 16));
        proof {
            assert(text@ =~= hexadecimal(n as nat));
        }
        text
    }
}

} // verus!
