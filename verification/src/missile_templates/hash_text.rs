//! The hash of a fleet file as a text: sixteen hexadecimal digits.

use vstd::prelude::*;
use vstd::arithmetic::div_mod::{lemma_mod_breakdown, lemma_small_mod};
use crate::numbers::{all_hex, hex_digits_value, hex_value, parse_hex_upto, parsed_hex_upto};
use crate::tags::{lower_hex_char, lower_hex_text};

verus! {

/// A number as hexadecimal digits in lower case, `width` of them, the most
/// significant first: with zeros in front of a number that needs fewer, and
/// without the digits in front of a number that needs more.
pub open spec fn hex_fixed(value: nat, width: nat) -> Seq<char>
    decreases width,
{
    if width == 0 {
        Seq::empty()
    } else {
        hex_fixed(value / 16, (width - 1) as nat).push(lower_hex_char(value % 16))
    }
}

/// A hash as a text: sixteen hexadecimal digits.
pub open spec fn hash_digits(hash: u64) -> Seq<char> {
    hex_fixed(hash as nat, 16)
}

/// The hash that a text stands for: the value of its hexadecimal digits,
/// where it is made of them and the value is that of a hash.
pub open spec fn parsed_hash(text: Seq<char>) -> Option<u64> {
    match parsed_hex_upto(text, u64::MAX as nat) {
        Some(value) => Some(value as u64),
        None => None,
    }
}

/// 16 to the power of `n`.
pub open spec fn pow16(n: nat) -> nat
    decreases n,
{
    if n == 0 {
        1
    } else {
        16 * pow16((n - 1) as nat)
    }
}

/// A power of 16 is not 0.
pub proof fn lemma_pow16_positive(n: nat)
    ensures
        pow16(n) > 0,
    decreases n,
{
    if n > 0 {
        lemma_pow16_positive((n - 1) as nat);
    }
}

/// The digits of a number in a given width are hexadecimal digits, as many
/// as the width, and stand for what is left of the number in that width.
pub proof fn lemma_hex_fixed(value: nat, width: nat)
    ensures
        hex_fixed(value, width).len() == width,
        all_hex(hex_fixed(value, width)),
        forall|i: int| 0 <= i < width ==> #[trigger] hex_fixed(value, width)[i] != '+',
        hex_digits_value(hex_fixed(value, width)) == value % pow16(width),
    decreases width,
{
    if width > 0 {
        let rest = hex_fixed(value / 16, (width - 1) as nat);
        let digit = lower_hex_char(value % 16);
        let all = hex_fixed(value, width);
        lemma_hex_fixed(value / 16, (width - 1) as nat);
        lemma_pow16_positive((width - 1) as nat);
        assert(hex_value(digit) == Some(value % 16));
        assert(digit != '+');
        assert(all.drop_last() =~= rest);
        assert(all.last() == digit);
        assert forall|i: int| 0 <= i < all.len() implies hex_value(#[trigger] all[i]) is Some by {
            if i < rest.len() {
                assert(all[i] == rest[i]);
            }
        }
        assert forall|i: int| 0 <= i < width implies #[trigger] all[i] != '+' by {
            if i < rest.len() {
                assert(all[i] == rest[i]);
            }
        }
        lemma_mod_breakdown(value as int, 16, pow16((width - 1) as nat) as int);
        assert(16 * pow16((width - 1) as nat) == pow16(width));
    }
}

/// A hash written as a text is read back as the same hash.
pub proof fn lemma_hash_round_trip(hash: u64)
    ensures
        hash_digits(hash).len() == 16,
        parsed_hash(hash_digits(hash)) == Some(hash),
{
    lemma_hex_fixed(hash as nat, 16);
    reveal_with_fuel(pow16, 17);
    assert(pow16(16) == 0x1_0000_0000_0000_0000);
    lemma_small_mod(hash as nat, pow16(16));
    assert(hash_digits(hash)[0] != '+');
}

/// A number as hexadecimal digits in lower case, `width` of them.
fn hex_fixed_text(value: u64, width: usize) -> (text: String)
    ensures
        text@ == hex_fixed(value as nat, width as nat),
    decreases width,
{
    if width == 0 {
        String::new()
    } else {
        let mut text = hex_fixed_text(value / 16, width - 1);
        text.append(lower_hex_text((value % 16) as u8));
        proof {
            assert(text@ =~= hex_fixed(value as nat, width as nat));
        }
        text
    }
}

/// A hash as a text: sixteen hexadecimal digits in lower case.
pub fn hash_text(hash: u64) -> (text: String)
    ensures
        text@ == hash_digits(hash),
        text@.len() == 16,
        parsed_hash(text@) == Some(hash),
{
    proof {
        lemma_hash_round_trip(hash);
    }
    hex_fixed_text(hash, 16)
}

/// The hash that a text stands for; nothing where the text is not made of
/// hexadecimal digits or stands for more than a hash can hold.
pub fn parse_hash(text: &str) -> (hash: Option<u64>)
    ensures
        hash == parsed_hash(text@),
{
    parse_hex_upto(text, u64::MAX)
}

} // verus!
