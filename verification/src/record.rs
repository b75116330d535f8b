//! Records of delimited text, as the `csv` crate reads them.

use crate::text::{left_aligned, push_left};
use csv::StringRecord;
use vstd::prelude::*;

verus! {

/// One record of the `csv` crate: a row of text fields.
#[verifier::external_type_specification]
#[verifier::external_body]
pub struct ExStringRecord(csv::StringRecord);

/// The fields of a record, in order.
pub uninterp spec fn record_fields(record: StringRecord) -> Seq<Seq<char>>;

/// `StringRecord::get`: the field at index `i`, or `None` where the record
/// has no such field.
#[verifier::external_body]
pub(crate) fn record_get<'a>(record: &'a StringRecord, i: usize) -> (r: Option<&'a str>)
    ensures
        r is Some == (i < record_fields(*record).len()),
        r matches Some(s) ==> s@ == record_fields(*record)[i as int],
{
    record.get(i)
}

/// `StringRecord::len`: the number of fields of the record.
#[verifier::external_body]
pub(crate) fn record_len(record: &StringRecord) -> (n: usize)
    ensures
        n == record_fields(*record).len(),
{
    record.len()
}

/// The fields in a row, each at the left of a column of twenty characters.
pub open spec fn in_columns(fields: Seq<Seq<char>>) -> Seq<char>
    decreases fields.len(),
{
    if fields.len() == 0 {
        Seq::empty()
    } else {
        in_columns(fields.drop_last()) + left_aligned(fields.last(), 20)
    }
}

/// Formats a record as one line, each field at the left of a column of
/// twenty characters.
pub fn fmt(rec: &StringRecord) -> (s: String)
    ensures
        s@ == in_columns(record_fields(*rec)),
{
    let n = record_len(rec);
    let mut s = String::new();
    let mut i: usize = 0;
    let ghost fields = record_fields(*rec);
    while i < n
        invariant
            i <= n,
            n == fields.len(),
            fields == record_fields(*rec),
            s@ == in_columns(fields.take(i as int)),
        decreases n - i,
    {
        proof {
            assert(fields.take(i + 1).drop_last() =~= fields.take(i as int));
        }
        match record_get(rec, i) {
            Some(field) => {
                push_left(&mut s, field, 20);
            },
            None => {},
        }
        i += 1;
    }
    assert(fields.take(i as int) =~= fields);
    s
}

} // verus!
