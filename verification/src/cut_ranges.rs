//! Lists of positions kept as ranges: `3-5` stays one range.

use crate::cut::{illegal_value, range_dash, range_error, range_message, range_parts};
use crate::text::{chars_of, concat3, find_char, first_index, parse_unsigned, substring};
use crate::text::unsigned_value;
use std::ops::Range;
use vstd::prelude::*;

verus! {

/// Ranges of positions in a line, counted from zero, each without its end.
pub type PositionList = Vec<Range<usize>>;

/// What to cut out of each line.
#[derive(Debug)]
pub enum Extract {
    Fields(PositionList),
    Bytes(PositionList),
    Chars(PositionList),
}

/// The position, counted from zero, that `input` names: a number from one
/// on, without a sign. Otherwise the message that quotes `input`.
pub open spec fn index_of(input: Seq<char>) -> Result<usize, Seq<char>> {
    if input.len() > 0 && input[0] == '+' {
        Err(illegal_value(input))
    } else {
        match unsigned_value(input, usize::MAX as nat) {
            Some(n) => if n > 0 {
                Ok((n - 1) as usize)
            } else {
                Err(illegal_value(input))
            },
            None => Err(illegal_value(input)),
        }
    }
}

/// Reads the position that the characters from `start` up to `end` name.
fn index_between(chars: &Vec<char>, start: usize, end: usize) -> (r: Result<usize, String>)
    requires
        start <= end <= chars.len(),
    ensures
        match r {
            Ok(n) => index_of(chars@.subrange(start as int, end as int)) == Ok::<usize, Seq<char>>(
                n,
            ),
            Err(e) => index_of(chars@.subrange(start as int, end as int)) == Err::<
                usize,
                Seq<char>,
            >(e@),
        },
{
    let signed = start < end && chars[start] == '+';
    if !signed {
        match parse_unsigned(chars, start, end, usize::MAX as u64) {
            Some(n) => {
                if n > 0 {
                    return Ok((n - 1) as usize);
                }
            },
            None => {},
        }
    }
    let text = substring(chars, start, end);
    Err(concat3("illegal list value: \"", text.as_str(), "\""))
}

/// Parses a position given as a number from one on, without a sign.
pub fn parse_index(input: &str) -> (r: Result<usize, String>)
    ensures
        match r {
            Ok(n) => index_of(input@) == Ok::<usize, Seq<char>>(n),
            Err(e) => index_of(input@) == Err::<usize, Seq<char>>(e@),
        },
{
    let chars = chars_of(input);
    assert(chars@.subrange(0, chars.len() as int) =~= input@);
    index_between(&chars, 0, chars.len())
}

/// The range that one item of a list names, as its first position and the
/// position after its last: a single position, or `first-last` running
/// upwards. Otherwise the message that says what is wrong with the item.
pub open spec fn item_range(item: Seq<char>) -> Result<(usize, usize), Seq<char>> {
    match index_of(item) {
        Ok(n) => Ok((n, (n + 1) as usize)),
        Err(e) => match range_parts(item) {
            None => Err(e),
            Some((a, b)) => match index_of(a) {
                Err(e1) => Err(e1),
                Ok(n1) => match index_of(b) {
                    Err(e2) => Err(e2),
                    Ok(n2) => if n1 >= n2 {
                        Err(range_error((n1 + 1) as nat, (n2 + 1) as nat))
                    } else {
                        Ok((n1, (n2 + 1) as usize))
                    },
                },
            },
        },
    }
}

/// The ranges that a list of items separated by commas names, in the
/// order of the list, or the message for the first item that is wrong.
pub open spec fn list_ranges(list: Seq<char>) -> Result<Seq<(usize, usize)>, Seq<char>>
    decreases list.len(),
{
    let comma = first_index(list, ',') as int;
    if comma >= list.len() {
        match item_range(list) {
            Err(e) => Err(e),
            Ok(r) => Ok(seq![r]),
        }
    } else {
        match item_range(list.take(comma)) {
            Err(e) => Err(e),
            Ok(first) => match list_ranges(list.skip(comma + 1)) {
                Err(e) => Err(e),
                Ok(rest) => Ok(seq![first] + rest),
            },
        }
    }
}

/// The bounds of a list of ranges.
pub open spec fn bounds(list: Seq<Range<usize>>) -> Seq<(usize, usize)> {
    list.map_values(|r: Range<usize>| (r.start, r.end))
}

/// Reads the item between `start` and `end`.
fn range_between(chars: &Vec<char>, start: usize, end: usize) -> (r: Result<Range<usize>, String>)
    requires
        start <= end <= chars.len(),
    ensures
        match r {
            Ok(range) => item_range(chars@.subrange(start as int, end as int)) == Ok::<
                (usize, usize),
                Seq<char>,
            >((range.start, range.end)),
            Err(e) => item_range(chars@.subrange(start as int, end as int)) == Err::<
                (usize, usize),
                Seq<char>,
            >(e@),
        },
{
    match index_between(chars, start, end) {
        Ok(n) => Ok(n..n + 1),
        Err(e) => match range_dash(chars, start, end) {
            None => Err(e),
            Some(dash) => {
                let n1 = match index_between(chars, start, dash) {
                    Ok(n) => n,
                    Err(e1) => {
                        return Err(e1);
                    },
                };
                let n2 = match index_between(chars, dash + 1, end) {
                    Ok(n) => n,
                    Err(e2) => {
                        return Err(e2);
                    },
                };
                if n1 >= n2 {
                    Err(range_message(n1 + 1, n2 + 1))
                } else {
                    Ok(n1..n2 + 1)
                }
            },
        },
    }
}

/// Parses a list of positions such as `1,7,3-5` into ranges counted from
/// zero.
pub fn parse_pos(range: &str) -> (r: Result<PositionList, String>)
    ensures
        match r {
            Ok(list) => list_ranges(range@) == Ok::<Seq<(usize, usize)>, Seq<char>>(bounds(list@)),
            Err(e) => list_ranges(range@) == Err::<Seq<(usize, usize)>, Seq<char>>(e@),
        },
{
    let chars = chars_of(range);
    let n = chars.len();
    let mut list: Vec<Range<usize>> = Vec::new();
    let mut from: usize = 0;
    assert(chars@.skip(0) =~= chars@);
    loop
        invariant
            from <= n,
            n == chars.len(),
            chars@ == range@,
            list_ranges(chars@) == (match list_ranges(chars@.skip(from as int)) {
                Ok(rest) => Ok::<Seq<(usize, usize)>, Seq<char>>(bounds(list@) + rest),
                Err(e) => Err(e),
            }),
        decreases n - from,
    {
        let ghost rest = chars@.skip(from as int);
        let ghost before = bounds(list@);
        let comma = find_char(&chars, from, n, ',');
        proof {
            assert(rest.take(comma - from) =~= chars@.subrange(from as int, comma as int));
        }
        let item = match range_between(&chars, from, comma) {
            Err(e) => {
                return Err(e);
            },
            Ok(item) => item,
        };
        let ghost added = (item.start, item.end);
        list.push(item);
        assert(bounds(list@) =~= before.push(added));
        if comma == n {
            proof {
                assert(before + seq![added] =~= before.push(added));
            }
            return Ok(list);
        }
        proof {
            assert(rest.skip(comma - from + 1) =~= chars@.skip(comma + 1));
            match list_ranges(chars@.skip(comma + 1)) {
                Ok(more) => {
                    assert(before + (seq![added] + more) =~= before.push(added) + more);
                },
                Err(e) => {},
            }
        }
        from = comma + 1;
    }
}

} // verus!
