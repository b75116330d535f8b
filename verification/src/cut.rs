//! Cutting fields, bytes or characters out of lines, by lists of positions.

use crate::text::{all_digits, chars_of, concat3, decimal_text, digits_only, digits_within};
use crate::text::{find_char, first_index, parse_digits, parse_unsigned};
use crate::record::{record_fields, record_get};
use crate::text::{push_decimal, substring, unsigned_value};
use csv::StringRecord;
use vstd::prelude::*;
use vstd::string::StringSliceAdditionalSpecFns;

verus! {

/// Positions in a line, counted from zero.
pub type PositionList = Vec<usize>;

/// What to cut out of each line.
#[derive(Debug)]
pub enum Extract {
    Fields(PositionList),
    Bytes(PositionList),
    Chars(PositionList),
}

/// The message for an item of a list that names no position.
pub open spec fn illegal_value(item: Seq<char>) -> Seq<char> {
    "illegal list value: \""@ + item + "\""@
}

/// The message for a range that does not run upwards.
pub open spec fn range_error(first: nat, second: nat) -> Seq<char> {
    "First number in range ("@ + decimal_text(first) + ") must be lower than second number ("@
        + decimal_text(second) + ")"@
}

/// The two numbers of an item of the form `digits-digits`, as text.
pub open spec fn range_parts(item: Seq<char>) -> Option<(Seq<char>, Seq<char>)> {
    let dash = first_index(item, '-') as int;
    if 0 < dash < item.len() && all_digits(item.take(dash)) && item.skip(dash + 1).len() > 0
        && all_digits(item.skip(dash + 1)) {
        Some((item.take(dash), item.skip(dash + 1)))
    } else {
        None
    }
}

/// The positions from `first` to `last`, both counted from one, as
/// positions counted from zero.
pub open spec fn span(first: nat, last: nat) -> Seq<usize> {
    Seq::new((last - first + 1) as nat, |k: int| (first - 1 + k) as usize)
}

/// The positions that one item of a list names, counted from zero: a number
/// from one on names one position, `first-last` names a range that runs
/// upwards. Otherwise the message that says what is wrong with the item.
pub open spec fn item_positions(item: Seq<char>) -> Result<Seq<usize>, Seq<char>> {
    match range_parts(item) {
        Some((a, b)) => match (
            digits_within(a, usize::MAX as nat),
            digits_within(b, usize::MAX as nat),
        ) {
            (Some(first), Some(last)) => if first == 0 {
                Err(illegal_value(a))
            } else if first < last {
                Ok(span(first, last))
            } else {
                Err(range_error(first, last))
            },
            (None, _) => Err(illegal_value(a)),
            (_, None) => Err(illegal_value(b)),
        },
        None => match unsigned_value(item, usize::MAX as nat) {
            Some(n) => if n > 0 {
                Ok(seq![(n - 1) as usize])
            } else {
                Err(illegal_value(item))
            },
            None => Err(illegal_value(item)),
        },
    }
}

/// The positions that a list of items separated by commas names, in the
/// order of the list, or the message for the first item that is wrong.
pub open spec fn list_positions(list: Seq<char>) -> Result<Seq<usize>, Seq<char>>
    decreases list.len(),
{
    let comma = first_index(list, ',') as int;
    if comma >= list.len() {
        item_positions(list)
    } else {
        match item_positions(list.take(comma)) {
            Err(e) => Err(e),
            Ok(first) => match list_positions(list.skip(comma + 1)) {
                Err(e) => Err(e),
                Ok(rest) => Ok(first + rest),
            },
        }
    }
}

/// Builds the message for a range that does not run upwards.
pub fn range_message(first: usize, second: usize) -> (s: String)
    ensures
        s@ == range_error(first as nat, second as nat),
{
    let mut s = String::new();
    s.push_str("First number in range (");
    push_decimal(&mut s, first as u64);
    s.push_str(") must be lower than second number (");
    push_decimal(&mut s, second as u64);
    s.push_str(")");
    s
}

/// Builds the message for the item between `start` and `end`.
fn illegal_message(chars: &Vec<char>, start: usize, end: usize) -> (s: String)
    requires
        start <= end <= chars.len(),
    ensures
        s@ == illegal_value(chars@.subrange(start as int, end as int)),
{
    let item = substring(chars, start, end);
    concat3("illegal list value: \"", item.as_str(), "\"")
}

/// Where the dash of an item of the form `digits-digits` stands.
pub(crate) fn range_dash(chars: &Vec<char>, start: usize, end: usize) -> (r: Option<usize>)
    requires
        start <= end <= chars.len(),
    ensures
        r is Some == range_parts(chars@.subrange(start as int, end as int)) is Some,
        r matches Some(dash) ==> start < dash < end && range_parts(
            chars@.subrange(start as int, end as int),
        ) == Some(
            (chars@.subrange(start as int, dash as int), chars@.subrange(dash + 1, end as int)),
        ),
{
    let ghost item = chars@.subrange(start as int, end as int);
    let dash = find_char(chars, start, end, '-');
    proof {
        assert(item.take(dash - start) =~= chars@.subrange(start as int, dash as int));
        if dash < end {
            assert(item.skip(dash - start + 1) =~= chars@.subrange(dash + 1, end as int));
        }
    }
    if start < dash && dash < end && dash + 1 < end && digits_only(chars, start, dash)
        && digits_only(chars, dash + 1, end) {
        Some(dash)
    } else {
        None
    }
}

/// Reads the item between `start` and `end` and appends its positions.
fn push_item(fields: &mut Vec<usize>, chars: &Vec<char>, start: usize, end: usize) -> (r: Result<
    (),
    String,
>)
    requires
        start <= end <= chars.len(),
    ensures
        match r {
            Ok(()) => item_positions(chars@.subrange(start as int, end as int)) matches Ok(added)
                && final(fields)@ == old(fields)@ + added,
            Err(e) => item_positions(chars@.subrange(start as int, end as int)) == Err::<
                Seq<usize>,
                Seq<char>,
            >(e@),
        },
{
    match range_dash(chars, start, end) {
        Some(dash) => {
            let first = match parse_digits(chars, start, dash, usize::MAX as u64) {
                Some(n) => n as usize,
                None => {
                    return Err(illegal_message(chars, start, dash));
                },
            };
            let last = match parse_digits(chars, dash + 1, end, usize::MAX as u64) {
                Some(n) => n as usize,
                None => {
                    return Err(illegal_message(chars, dash + 1, end));
                },
            };
            if first == 0 {
                return Err(illegal_message(chars, start, dash));
            }
            if first >= last {
                return Err(range_message(first, last));
            }
            let mut n: usize = first;
            while n < last
                invariant
                    1 <= first <= n <= last,
                    fields@ == old(fields)@ + span(first as nat, last as nat).take(n - first),
                decreases last - n,
            {
                fields.push(n - 1);
                n += 1;
            }
            fields.push(last - 1);
            Ok(())
        },
        None => match parse_unsigned(chars, start, end, usize::MAX as u64) {
            Some(n) => {
                if n > 0 {
                    fields.push((n - 1) as usize);
                    Ok(())
                } else {
                    Err(illegal_message(chars, start, end))
                }
            },
            None => Err(illegal_message(chars, start, end)),
        },
    }
}

/// Parses a list of positions such as `1,7,3-5` into positions counted
/// from zero.
pub fn parse_pos(range: &str) -> (r: Result<PositionList, String>)
    ensures
        match r {
            Ok(fields) => list_positions(range@) == Ok::<Seq<usize>, Seq<char>>(fields@),
            Err(e) => list_positions(range@) == Err::<Seq<usize>, Seq<char>>(e@),
        },
{
    let chars = chars_of(range);
    let n = chars.len();
    let mut fields: Vec<usize> = Vec::new();
    let mut from: usize = 0;
    assert(chars@.skip(0) =~= chars@);
    loop
        invariant
            from <= n,
            n == chars.len(),
            chars@ == range@,
            list_positions(chars@) == (match list_positions(chars@.skip(from as int)) {
                Ok(rest) => Ok::<Seq<usize>, Seq<char>>(fields@ + rest),
                Err(e) => Err(e),
            }),
        decreases n - from,
    {
        let ghost rest = chars@.skip(from as int);
        let ghost before = fields@;
        let comma = find_char(&chars, from, n, ',');
        proof {
            assert(rest.take(comma - from) =~= chars@.subrange(from as int, comma as int));
        }
        match push_item(&mut fields, &chars, from, comma) {
            Err(e) => {
                return Err(e);
            },
            Ok(()) => {},
        }
        if comma == n {
            return Ok(fields);
        }
        proof {
            assert(rest.skip(comma - from + 1) =~= chars@.skip(comma + 1));
            let added = item_positions(rest.take(comma - from))->Ok_0;
            match list_positions(chars@.skip(comma + 1)) {
                Ok(more) => {
                    assert(before + (added + more) =~= (before + added) + more);
                },
                Err(e) => {},
            }
        }
        from = comma + 1;
    }
}

/// The items of `items` at the positions `pos`, in the order of `pos`,
/// leaving out the positions that `items` does not have.
pub open spec fn picked<T>(items: Seq<T>, pos: Seq<usize>) -> Seq<T>
    decreases pos.len(),
{
    if pos.len() == 0 {
        Seq::empty()
    } else {
        picked(items, pos.drop_last()) + if pos.last() < items.len() {
            seq![items[pos.last() as int]]
        } else {
            Seq::empty()
        }
    }
}

/// The characters of `line` at the positions `char_pos`.
pub fn extract_chars(line: &str, char_pos: &[usize]) -> (s: String)
    ensures
        s@ == picked(line@, char_pos@),
{
    let chars = chars_of(line);
    let mut s = String::new();
    let mut i: usize = 0;
    while i < char_pos.len()
        invariant
            i <= char_pos.len(),
            chars@ == line@,
            s@ == picked(line@, char_pos@.take(i as int)),
        decreases char_pos.len() - i,
    {
        let p = char_pos[i];
        if p < chars.len() {
            s.push(chars[p]);
        }
        i += 1;
        assert(char_pos@.take(i as int).drop_last() =~= char_pos@.take(i - 1));
    }
    assert(char_pos@.take(i as int) =~= char_pos@);
    s
}

/// The bytes of `line` at the positions `byte_pos`.
pub fn select_bytes(line: &str, byte_pos: &[usize]) -> (selected: Vec<u8>)
    ensures
        selected@ == picked(line.spec_bytes(), byte_pos@),
{
    let bytes = line.as_bytes();
    let mut selected: Vec<u8> = Vec::new();
    let mut i: usize = 0;
    while i < byte_pos.len()
        invariant
            i <= byte_pos.len(),
            bytes@ == line.spec_bytes(),
            selected@ == picked(line.spec_bytes(), byte_pos@.take(i as int)),
        decreases byte_pos.len() - i,
    {
        let p = byte_pos[i];
        if p < bytes.len() {
            selected.push(bytes[p]);
        }
        i += 1;
        assert(byte_pos@.take(i as int).drop_last() =~= byte_pos@.take(i - 1));
    }
    assert(byte_pos@.take(i as int) =~= byte_pos@);
    selected
}

/// The text that `String::from_utf8_lossy` reads out of `bytes`.
pub uninterp spec fn utf8_lossy(bytes: Seq<u8>) -> Seq<char>;

/// `String::from_utf8_lossy`: the text that `bytes` encode, with the
/// replacement character for every part that is no valid UTF-8.
#[verifier::external_body]
fn from_utf8_lossy(bytes: &[u8]) -> (s: String)
    ensures
        s@ == utf8_lossy(bytes@),
{
    String::from_utf8_lossy(bytes).into_owned()
}

/// The bytes of `line` at the positions `byte_pos`, read as text.
pub fn extract_bytes(line: &str, byte_pos: &[usize]) -> (s: String)
    ensures
        s@ == utf8_lossy(picked(line.spec_bytes(), byte_pos@)),
{
    let selected = select_bytes(line, byte_pos);
    from_utf8_lossy(selected.as_slice())
}

/// The texts of a list of string slices.
pub open spec fn slice_views(v: Seq<&str>) -> Seq<Seq<char>> {
    v.map_values(|s: &str| s@)
}

/// The fields of `record` at the positions `field_pos`.
pub fn extract_fields<'a>(record: &'a StringRecord, field_pos: &[usize]) -> (out: Vec<&'a str>)
    ensures
        slice_views(out@) == picked(record_fields(*record), field_pos@),
{
    let mut out: Vec<&'a str> = Vec::new();
    let mut i: usize = 0;
    let ghost fields = record_fields(*record);
    while i < field_pos.len()
        invariant
            i <= field_pos.len(),
            fields == record_fields(*record),
            slice_views(out@) == picked(fields, field_pos@.take(i as int)),
        decreases field_pos.len() - i,
    {
        match record_get(record, field_pos[i]) {
            Some(field) => {
                out.push(field);
            },
            None => {},
        }
        i += 1;
        assert(field_pos@.take(i as int).drop_last() =~= field_pos@.take(i - 1));
    }
    assert(field_pos@.take(i as int) =~= field_pos@);
    out
}

/// The message for a delimiter of more than one byte.
pub open spec fn delimiter_error(delimiter: Seq<char>) -> Seq<char> {
    "--delim \""@ + delimiter + "\" must be a single byte"@
}

/// Reads the delimiter of the fields: a single byte.
pub fn parse_delimiter(delimiter: &str) -> (r: Result<u8, String>)
    requires
        delimiter.spec_bytes().len() > 0,
    ensures
        match r {
            Ok(byte) => delimiter.spec_bytes() == seq![byte],
            Err(e) => delimiter.spec_bytes().len() > 1 && e@ == delimiter_error(delimiter@),
        },
{
    let delim_bytes = delimiter.as_bytes();
    if delim_bytes.len() > 1 {
        return Err(concat3("--delim \"", delimiter, "\" must be a single byte"));
    }
    assert(delim_bytes@ =~= seq![delim_bytes@[0]]);
    Ok(delim_bytes[0])
}

/// The message for a request that names nothing to cut.
pub open spec fn nothing_to_extract() -> Seq<char> {
    "Must have --fields, --bytes, or --chars"@
}

/// Settles what to cut: the fields where they are given, else the bytes,
/// else the characters.
pub fn choose_extract(
    fields: Option<PositionList>,
    bytes: Option<PositionList>,
    chars: Option<PositionList>,
) -> (r: Result<Extract, String>)
    ensures
        match r {
            Ok(Extract::Fields(pos)) => fields == Some(pos),
            Ok(Extract::Bytes(pos)) => fields is None && bytes == Some(pos),
            Ok(Extract::Chars(pos)) => fields is None && bytes is None && chars == Some(pos),
            Err(e) => fields is None && bytes is None && chars is None && e@
                == nothing_to_extract(),
        },
{
    if let Some(field_pos) = fields {
        Ok(Extract::Fields(field_pos))
    } else if let Some(byte_pos) = bytes {
        Ok(Extract::Bytes(byte_pos))
    } else if let Some(char_pos) = chars {
        Ok(Extract::Chars(char_pos))
    } else {
        Err("Must have --fields, --bytes, or --chars".to_owned())
    }
}

} // verus!
