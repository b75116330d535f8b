//! The first lines or bytes of a file, and the counts that ask for them.

use crate::tail::{find_line_start, line_start};
use crate::text::{chars_of, parse_unsigned, trim_bounds, trimmed, unsigned_value};
use vstd::prelude::*;

verus! {

/// What a token is worth as a count of lines or bytes: an unsigned decimal
/// number that fits a `usize` and is not zero.
pub open spec fn positive_count(s: Seq<char>) -> Option<nat> {
    match unsigned_value(s, usize::MAX as nat) {
        Some(n) => if n > 0 {
            Some(n)
        } else {
            None
        },
        None => None,
    }
}

/// Reads the count between `start` and `end`.
fn parse_count(chars: &Vec<char>, start: usize, end: usize) -> (r: Option<usize>)
    requires
        start <= end <= chars.len(),
    ensures
        r is Some == positive_count(chars@.subrange(start as int, end as int)) is Some,
        r matches Some(n) ==> positive_count(chars@.subrange(start as int, end as int)) == Some(
            n as nat,
        ),
{
    match parse_unsigned(chars, start, end, usize::MAX as u64) {
        Some(n) => if n > 0 {
            Some(n as usize)
        } else {
            None
        },
        None => None,
    }
}

/// Parses a count that may stand between white space. The error is the
/// token as it was given.
pub fn parse_int(val: &str) -> (r: Result<usize, String>)
    ensures
        match r {
            Ok(n) => positive_count(trimmed(val@)) == Some(n as nat),
            Err(e) => positive_count(trimmed(val@)) is None && e@ == val@,
        },
{
    let chars = chars_of(val);
    let (start, end) = trim_bounds(&chars);
    match parse_count(&chars, start, end) {
        Some(n) => Ok(n),
        None => Err(val.to_owned()),
    }
}

/// Parses a count. The error is the token as it was given.
pub fn parse_positive_int(val: &str) -> (r: Result<usize, String>)
    ensures
        match r {
            Ok(n) => positive_count(val@) == Some(n as nat),
            Err(e) => positive_count(val@) is None && e@ == val@,
        },
{
    let chars = chars_of(val);
    assert(chars@.subrange(0, chars.len() as int) =~= val@);
    match parse_count(&chars, 0, chars.len()) {
        Some(n) => Ok(n),
        None => Err(val.to_owned()),
    }
}

/// The first `lines` lines of `data`: everything up to the start of line
/// `lines`, counted from zero.
pub fn first_lines(data: &[u8], lines: usize) -> (out: &[u8])
    ensures
        out@ == data@.take(line_start(data@, lines as nat) as int),
{
    let end = find_line_start(data, lines as u64);
    let out = &data[0..end];
    out
}

/// The first `bytes` bytes of `data`, or all of it where it is shorter.
pub fn first_bytes(data: &[u8], bytes: usize) -> (out: &[u8])
    ensures
        bytes <= data@.len() ==> out@ == data@.take(bytes as int),
        bytes > data@.len() ==> out@ == data@,
{
    let n = data.len();
    let end = if bytes <= n { bytes } else { n };
    let out = &data[0..end];
    out
}

/// The line that announces a file where several are printed: an empty
/// line first, except before the first file.
pub open spec fn header_text(file_num: nat, filename: Seq<char>) -> Seq<char> {
    (if file_num > 0 { seq!['\n'] } else { Seq::<char>::empty() }) + "==> "@ + filename + " <=="@
}

/// The line that announces file number `file_num`, counted from zero.
pub fn header(file_num: usize, filename: &str) -> (s: String)
    ensures
        s@ == header_text(file_num as nat, filename@),
{
    let mut s = String::new();
    if file_num > 0 {
        s.push('\n');
    }
    s.push_str("==> ");
    s.push_str(filename);
    s.push_str(" <==");
    s
}

} // verus!
