//! `tail` requests kept as one signed number, and the seek they lead to.
//!
//! This form cannot tell `+0` from `0`; [`crate::tail::TakeValue`] can.

use crate::tail::{magnitude_text, parse_num_spec, selection, TakeValue, Unit};
use crate::text::{chars_of, digits_within, parse_digits};
use vstd::prelude::*;

verus! {

/// The number that a count token denotes, or `None` where the token is
/// malformed: an optional `+` or `-`, then one or more decimal digits that
/// fit an `i64`. Only `+` makes the count positive.
pub open spec fn signed_count(s: Seq<char>) -> Option<i64> {
    match digits_within(magnitude_text(s), i64::MAX as nat) {
        Some(m) => if s[0] == '+' {
            Some(m as i64)
        } else {
            Some((-(m as int)) as i64)
        },
        None => None,
    }
}

/// Parses a count such as `3`, `-3` or `+3`. The error is the token as it
/// was given.
pub fn parse_num(val: &str) -> (r: Result<i64, String>)
    ensures
        match r {
            Ok(n) => signed_count(val@) == Some(n),
            Err(e) => signed_count(val@) is None && e@ == val@,
        },
{
    let chars = chars_of(val);
    let n = chars.len();
    let plus = n > 0 && chars[0] == '+';
    let minus = n > 0 && chars[0] == '-';
    let start: usize = if plus || minus { 1 } else { 0 };
    assert(chars@.subrange(start as int, n as int) =~= magnitude_text(val@));
    match parse_digits(&chars, start, n, 0x7fff_ffff_ffff_ffff) {
        None => Err(val.to_owned()),
        Some(m) => if plus {
            Ok(m as i64)
        } else {
            Ok(-(m as i64))
        },
    }
}

/// A token that is a signed count means the same as a typed request, but
/// for `+0`, which only the typed request keeps apart.
pub proof fn lemma_signed_count_agrees(s: Seq<char>)
    requires
        signed_count(s) is Some,
    ensures
        s == seq!['+', '0'] ==> parse_num_spec(s) == Some(TakeValue::PlusZero),
        s != seq!['+', '0'] ==> parse_num_spec(s) == Some(
            TakeValue::TakeNum(signed_count(s)->Some_0),
        ),
{
    if s.len() == 2 && s[0] == '+' && s[1] == '0' {
        assert(s =~= seq!['+', '0']);
    }
}

/// Where to seek in a file of `total_len` bytes before copying the rest to
/// the output: byte `num_bytes`, counted from one, for a positive count;
/// `-num_bytes` bytes before the end, or the start where the file is
/// shorter, otherwise. The end of the file where nothing is to be printed.
pub open spec fn seek_spec(num_bytes: i64, total_len: nat) -> nat {
    if num_bytes > 0 {
        if num_bytes - 1 < total_len {
            (num_bytes - 1) as nat
        } else {
            total_len
        }
    } else if total_len + num_bytes < 0 {
        0
    } else {
        (total_len + num_bytes) as nat
    }
}

/// Where to seek in a file of `total_len` bytes before copying the rest.
pub fn seek_position(num_bytes: i64, total_len: u64) -> (at: u64)
    ensures
        at == seek_spec(num_bytes, total_len as nat),
        at <= total_len,
{
    if num_bytes > 0 {
        let wanted: u64 = num_bytes as u64 - 1;
        if wanted < total_len {
            wanted
        } else {
            total_len
        }
    } else {
        let back: u64 = if num_bytes == i64::MIN {
            0x8000_0000_0000_0000
        } else {
            (-num_bytes) as u64
        };
        if back > total_len {
            0
        } else {
            total_len - back
        }
    }
}

/// Copying from the seek position on prints what the typed request
/// selects.
pub proof fn lemma_seek_selects(data: Seq<u8>, num_bytes: i64)
    ensures
        data.skip(seek_spec(num_bytes, data.len()) as int) == selection(
            data,
            TakeValue::TakeNum(num_bytes),
            data.len(),
            Unit::Byte,
        ),
{
}

} // verus!
