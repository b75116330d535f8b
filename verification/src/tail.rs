//! Bounded-suffix extraction: which part of a file `tail` prints.
//!
//! A request is parsed into a [`TakeValue`], the file is counted into
//! [`FileTotals`], [`get_start_index`] turns both into a zero-based start
//! position, and everything from that position to the end is the output.

use crate::text::{all_digits, chars_of, decimal_text, decimal_value, lemma_decimal_text_value};
use crate::text::{parse_digits, signed_text};
use vstd::prelude::*;

verus! {

/// How much of a file is wanted, and counted from which end.
#[derive(Debug, Clone, Copy, PartialEq, Eq, Structural)]
pub enum TakeValue {
    /// `+0`: everything from the very start, as long as there is anything.
    PlusZero,
    /// A positive number counts from the start, beginning at one; a negative
    /// number counts back from the end; zero selects nothing.
    TakeNum(i64),
}

impl Default for TakeValue {
    /// The request of a plain `tail`: the last ten.
    fn default() -> (v: TakeValue)
        ensures
            v == TakeValue::TakeNum(-10i64),
    {
        TakeValue::TakeNum(-10)
    }
}

/// What can go wrong while handling one request.
#[derive(Debug)]
pub enum TailError {
    /// The count given on the command line is no signed decimal number.
    MalformedOffset(String),
    /// A file could not be opened or read: its path, then the cause.
    FileUnreadable(String, String),
}

impl TailError {
    /// The text shown to the user: the offending token as it was given, or
    /// the path followed by the cause.
    pub open spec fn message(self) -> Seq<char> {
        match self {
            TailError::MalformedOffset(token) => token@,
            TailError::FileUnreadable(path, cause) => path@ + seq![':', ' '] + cause@,
        }
    }

    /// The text shown to the user.
    pub fn to_string(&self) -> (s: String)
        ensures
            s@ == self.message(),
    {
        match self {
            TailError::MalformedOffset(token) => token.clone(),
            TailError::FileUnreadable(path, cause) => {
                let mut s = path.clone();
                s.push(':');
                s.push(' ');
                s.push_str(cause.as_str());
                s
            },
        }
    }
}

/// The largest magnitude a negative count can have.
pub open spec fn max_negative_magnitude() -> nat {
    0x8000_0000_0000_0000
}

/// Whether the token opens with an explicit sign.
pub open spec fn has_sign(s: Seq<char>) -> bool {
    s.len() > 0 && (s[0] == '+' || s[0] == '-')
}

/// The digits of the token: what follows the sign, or all of it.
pub open spec fn magnitude_text(s: Seq<char>) -> Seq<char> {
    if has_sign(s) {
        s.skip(1)
    } else {
        s
    }
}

/// The meaning of a count token, or `None` where the token is malformed.
///
/// A token is an optional `+` or `-` and then one or more decimal digits.
/// Only `+` makes the count positive; without a sign it is negative. The
/// token `+0` is [`TakeValue::PlusZero`]. A magnitude that the sign does
/// not leave room for in an `i64` is malformed.
pub open spec fn parse_num_spec(s: Seq<char>) -> Option<TakeValue> {
    let digits = magnitude_text(s);
    if digits.len() == 0 || !all_digits(digits) {
        None
    } else if s[0] == '+' {
        if s.len() == 2 && s[1] == '0' {
            Some(TakeValue::PlusZero)
        } else if decimal_value(digits) <= i64::MAX {
            Some(TakeValue::TakeNum(decimal_value(digits) as i64))
        } else {
            None
        }
    } else if decimal_value(digits) <= max_negative_magnitude() {
        Some(TakeValue::TakeNum((-(decimal_value(digits) as int)) as i64))
    } else {
        None
    }
}

/// Parses a count such as `3`, `-3`, `+3` or `+0`.
pub fn parse_num(val: &str) -> (r: Result<TakeValue, TailError>)
    ensures
        match r {
            Ok(v) => parse_num_spec(val@) == Some(v),
            Err(e) => parse_num_spec(val@) is None && e is MalformedOffset
                && e->MalformedOffset_0@ == val@,
        },
{
    let chars = chars_of(val);
    let n = chars.len();
    let plus = n > 0 && chars[0] == '+';
    let minus = n > 0 && chars[0] == '-';
    let start: usize = if plus || minus { 1 } else { 0 };
    let limit: u64 = if plus { 0x7fff_ffff_ffff_ffff } else { 0x8000_0000_0000_0000 };
    assert(chars@.subrange(start as int, n as int) =~= magnitude_text(val@));
    match parse_digits(&chars, start, n, limit) {
        None => {
            proof {
                let digits = magnitude_text(val@);
                if digits.len() > 0 && all_digits(digits) {
                    assert(digits.drop_last().len() == 0 ==> decimal_value(digits.drop_last()) == 0);
                }
            }
            Err(TailError::MalformedOffset(val.to_owned()))
        },
        Some(m) => {
            if plus {
                if n == 2 && chars[1] == '0' {
                    Ok(TakeValue::PlusZero)
                } else {
                    Ok(TakeValue::TakeNum(m as i64))
                }
            } else if m == 0x8000_0000_0000_0000 {
                Ok(TakeValue::TakeNum(i64::MIN))
            } else {
                Ok(TakeValue::TakeNum(-(m as i64)))
            }
        },
    }
}

/// The decimal text of a number never opens with a sign.
pub proof fn lemma_decimal_text_unsigned(n: nat)
    ensures
        !has_sign(decimal_text(n)),
{
    lemma_decimal_text_value(n);
}

/// Parsing the text of any `i64` gives back its magnitude under the sign
/// rule: the bare or `-` text of a number counts from the end, the `+` text
/// counts from the start. So `5` and `-5` are both −5 and `+5` is 5, and
/// the bare text of 2⁶³ is `i64::MIN`.
pub proof fn lemma_parse_num_round_trip(n: int)
    requires
        i64::MIN <= n <= i64::MAX,
    ensures
        n <= 0 ==> parse_num_spec(signed_text(n)) == Some(TakeValue::TakeNum(n as i64)),
        n <= 0 ==> parse_num_spec(decimal_text((-n) as nat)) == Some(
            TakeValue::TakeNum(n as i64),
        ),
        n > 0 ==> parse_num_spec(signed_text(n)) == Some(TakeValue::TakeNum((-n) as i64)),
        n > 0 ==> parse_num_spec(seq!['+'] + decimal_text(n as nat)) == Some(
            TakeValue::TakeNum(n as i64),
        ),
        parse_num_spec(decimal_text(max_negative_magnitude())) == Some(
            TakeValue::TakeNum(i64::MIN),
        ),
{
    let m: nat = if n < 0 { (-n) as nat } else { n as nat };
    lemma_decimal_text_value(m);
    lemma_decimal_text_unsigned(m);
    lemma_decimal_text_value(max_negative_magnitude());
    lemma_decimal_text_unsigned(max_negative_magnitude());
    let digits = decimal_text(m);
    let minus = seq!['-'] + digits;
    assert(minus.skip(1) =~= digits);
    let plus = seq!['+'] + digits;
    assert(plus.skip(1) =~= digits);
    if n > 0 {
        if plus.len() == 2 && plus[1] == '0' {
            assert(decimal_value(digits.drop_last()) == 0);
        }
    }
}

/// Where output starts, counted from zero, for a file of `total` lines or
/// bytes; `None` where nothing is selected.
pub open spec fn start_index(take_val: TakeValue, total: nat) -> Option<nat> {
    match take_val {
        TakeValue::PlusZero => if total > 0 {
            Some(0)
        } else {
            None
        },
        TakeValue::TakeNum(n) => if n == 0 || total == 0 || n > total {
            None
        } else if n > 0 {
            Some((n - 1) as nat)
        } else if -n >= total {
            Some(0)
        } else {
            Some((total + n) as nat)
        },
    }
}

/// The zero-based position of the first line or byte to print, given how
/// many there are in all.
pub fn get_start_index(take_val: &TakeValue, total: u64) -> (r: Option<u64>)
    ensures
        r is Some == start_index(*take_val, total as nat) is Some,
        r matches Some(i) ==> start_index(*take_val, total as nat) == Some(i as nat),
{
    match take_val {
        TakeValue::PlusZero => {
            if total > 0 {
                Some(0)
            } else {
                None
            }
        },
        TakeValue::TakeNum(num) => {
            let n: i64 = *num;
            if n == 0 || total == 0 {
                None
            } else if n > 0 {
                let wanted: u64 = n as u64;
                if wanted > total {
                    None
                } else {
                    Some(wanted - 1)
                }
            } else {
                let back: u64 = if n == i64::MIN {
                    0x8000_0000_0000_0000
                } else {
                    (-n) as u64
                };
                if back >= total {
                    Some(0)
                } else {
                    Some(total - back)
                }
            }
        },
    }
}

/// A count of zero selects nothing, whatever the total.
pub proof fn lemma_zero_selects_nothing(total: nat)
    ensures
        start_index(TakeValue::TakeNum(0), total) is None,
{
}

/// `+0` selects nothing from an empty file and everything from any other.
pub proof fn lemma_plus_zero(total: nat)
    ensures
        total == 0 ==> start_index(TakeValue::PlusZero, total) is None,
        total > 0 ==> start_index(TakeValue::PlusZero, total) == Some(0nat),
{
}

/// For a file that is not empty, a positive count `n` starts at `n - 1`
/// up to and including the total and selects nothing beyond it: once a
/// count selects nothing, no larger one selects anything.
pub proof fn lemma_positive_count_cutoff(n: i64, larger: i64, total: nat)
    requires
        total > 0,
        0 < n <= larger,
    ensures
        n <= total ==> start_index(TakeValue::TakeNum(n), total) == Some((n - 1) as nat),
        n > total ==> start_index(TakeValue::TakeNum(n), total) is None,
        start_index(TakeValue::TakeNum(n), total) is None ==> start_index(
            TakeValue::TakeNum(larger),
            total,
        ) is None,
{
}

/// For a file that is not empty, counting back `k` from the end starts
/// `k` before the end, and at the very start where `k` reaches or passes
/// the total.
pub proof fn lemma_negative_count_clips(k: nat, total: nat)
    requires
        total > 0,
        0 < k <= max_negative_magnitude(),
    ensures
        k >= total ==> start_index(TakeValue::TakeNum((-k) as i64), total) == Some(0nat),
        k < total ==> start_index(TakeValue::TakeNum((-k) as i64), total) == Some(
            (total - k) as nat,
        ),
{
}

/// Whatever is selected starts inside the file: a start position is always
/// below the total, so there is always something to print from it.
pub proof fn lemma_start_index_in_range(take_val: TakeValue, total: nat)
    ensures
        start_index(take_val, total) matches Some(i) ==> i < total,
{
}

/// The newline byte that ends a line.
pub const NEWLINE: u8 = 10;

/// How many newline bytes `data` holds.
pub open spec fn count_newlines(data: Seq<u8>) -> nat
    decreases data.len(),
{
    if data.len() == 0 {
        0
    } else {
        (if data[0] == NEWLINE { 1nat } else { 0nat }) + count_newlines(data.drop_first())
    }
}

/// Whether `data` ends in the middle of a line: it is not empty and its last
/// byte is no newline.
pub open spec fn ends_open(data: Seq<u8>) -> bool {
    data.len() > 0 && data.last() != NEWLINE
}

/// How many lines `data` holds: one for each newline, and one more for
/// what follows the last newline where that is not empty.
pub open spec fn line_count(data: Seq<u8>) -> nat {
    count_newlines(data) + if ends_open(data) { 1nat } else { 0nat }
}

/// The offset of the first byte after the `k`-th newline of `data`: where
/// line `k`, counted from zero, begins. It is the length of `data` where
/// `data` has fewer than `k` newlines.
pub open spec fn line_start(data: Seq<u8>, k: nat) -> nat
    decreases data.len(),
{
    if k == 0 || data.len() == 0 {
        0
    } else if data[0] == NEWLINE {
        1 + line_start(data.drop_first(), (k - 1) as nat)
    } else {
        1 + line_start(data.drop_first(), k)
    }
}

/// The newlines of two pieces add up.
pub proof fn lemma_count_newlines_concat(a: Seq<u8>, b: Seq<u8>)
    ensures
        count_newlines(a + b) == count_newlines(a) + count_newlines(b),
    decreases a.len(),
{
    if a.len() > 0 {
        assert((a + b).drop_first() =~= a.drop_first() + b);
        lemma_count_newlines_concat(a.drop_first(), b);
    }
}

/// There are never more newlines than bytes, nor more lines.
pub proof fn lemma_count_newlines_bound(data: Seq<u8>)
    ensures
        count_newlines(data) <= data.len(),
        line_count(data) <= data.len(),
        data.len() > 0 && data.last() == NEWLINE ==> count_newlines(data) >= 1,
    decreases data.len(),
{
    if data.len() > 0 {
        lemma_count_newlines_bound(data.drop_first());
    }
}

/// A line never starts beyond the end of the data.
pub proof fn lemma_line_start_bound(data: Seq<u8>, k: nat)
    ensures
        line_start(data, k) <= data.len(),
    decreases data.len(),
{
    if k > 0 && data.len() > 0 {
        if data[0] == NEWLINE {
            lemma_line_start_bound(data.drop_first(), (k - 1) as nat);
        } else {
            lemma_line_start_bound(data.drop_first(), k);
        }
    }
}

/// Looking for a line across two pieces: it starts in the first piece
/// where that holds enough newlines, and otherwise in the second, after
/// the newlines that the first has used up.
pub proof fn lemma_line_start_concat(a: Seq<u8>, b: Seq<u8>, k: nat)
    ensures
        count_newlines(a) >= k ==> line_start(a + b, k) == line_start(a, k),
        count_newlines(a) < k ==> line_start(a + b, k) == a.len() + line_start(
            b,
            (k - count_newlines(a)) as nat,
        ),
    decreases a.len(),
{
    if a.len() == 0 {
    } else if k > 0 {
        assert((a + b).drop_first() =~= a.drop_first() + b);
        if a[0] == NEWLINE {
            lemma_line_start_concat(a.drop_first(), b, (k - 1) as nat);
        } else {
            lemma_line_start_concat(a.drop_first(), b, k);
        }
    }
}

/// Cutting `data` where line `k` starts leaves `k` newlines before the cut
/// and all the others after it, as long as `data` has `k` newlines.
pub proof fn lemma_line_start_splits(data: Seq<u8>, k: nat)
    requires
        k <= count_newlines(data),
    ensures
        count_newlines(data.take(line_start(data, k) as int)) == k,
        count_newlines(data.skip(line_start(data, k) as int)) == count_newlines(data) - k,
        k > 0 ==> line_start(data, k) > 0 && data[line_start(data, k) - 1] == NEWLINE,
    decreases data.len(),
{
    lemma_line_start_bound(data, k);
    if k == 0 || data.len() == 0 {
        assert(data.skip(0) =~= data);
    } else {
        let rest = data.drop_first();
        let k1: nat = if data[0] == NEWLINE { (k - 1) as nat } else { k };
        lemma_line_start_splits(rest, k1);
        lemma_line_start_bound(rest, k1);
        let cut: int = line_start(rest, k1) as int;
        assert(data.take(cut + 1).drop_first() =~= rest.take(cut));
        assert(data.skip(cut + 1) =~= rest.skip(cut));
    }
}

/// The totals of one file.
#[derive(Debug, Clone, Copy, PartialEq, Eq, Structural)]
pub struct FileTotals {
    pub line_count: u64,
    pub byte_count: u64,
}

/// The totals that a file with the content `data` has.
pub open spec fn totals_of(data: Seq<u8>) -> (nat, nat) {
    (line_count(data), data.len())
}

/// Counts lines and bytes over a file that arrives in chunks.
pub struct Counter {
    newlines: u64,
    bytes: u64,
    open_line: bool,
    seen: Ghost<Seq<u8>>,
}

impl View for Counter {
    type V = Seq<u8>;

    /// Everything fed so far, in order.
    closed spec fn view(&self) -> Seq<u8> {
        self.seen@
    }
}

impl Counter {
    /// The numbers agree with what has been fed.
    pub closed spec fn wf(&self) -> bool {
        &&& self.newlines == count_newlines(self.seen@)
        &&& self.bytes == self.seen@.len()
        &&& self.open_line == ends_open(self.seen@)
    }

    /// A counter that has seen nothing yet.
    pub fn new() -> (c: Counter)
        ensures
            c.wf(),
            c@ == Seq::<u8>::empty(),
    {
        Counter { newlines: 0, bytes: 0, open_line: false, seen: Ghost(Seq::empty()) }
    }

    /// Takes in the next chunk of the file.
    pub fn feed(&mut self, chunk: &[u8])
        requires
            old(self).wf(),
            old(self)@.len() + chunk@.len() <= u64::MAX,
        ensures
            final(self).wf(),
            final(self)@ == old(self)@ + chunk@,
    {
        let n = chunk.len();
        let mut found: u64 = 0;
        let mut i: usize = 0;
        assert(chunk@.skip(0) =~= chunk@);
        while i < n
            invariant
                i <= n,
                n == chunk@.len(),
                found + count_newlines(chunk@.skip(i as int)) == count_newlines(chunk@),
                found <= i,
            decreases n - i,
        {
            proof {
                assert(chunk@.skip(i as int).drop_first() =~= chunk@.skip(i + 1));
            }
            if chunk[i] == NEWLINE {
                found += 1;
            }
            i += 1;
        }
        proof {
            lemma_count_newlines_concat(self.seen@, chunk@);
            lemma_count_newlines_bound(self.seen@);
            lemma_count_newlines_bound(chunk@);
        }
        self.newlines = self.newlines + found;
        self.bytes = self.bytes + n as u64;
        if n > 0 {
            self.open_line = chunk[n - 1] != NEWLINE;
        }
        self.seen = Ghost(self.seen@ + chunk@);
    }

    /// The totals of what has been fed.
    pub fn totals(&self) -> (t: FileTotals)
        requires
            self.wf(),
        ensures
            (t.line_count as nat, t.byte_count as nat) == totals_of(self@),
    {
        proof {
            lemma_count_newlines_bound(self.seen@);
        }
        let extra: u64 = if self.open_line { 1 } else { 0 };
        FileTotals { line_count: self.newlines + extra, byte_count: self.bytes }
    }
}

/// Counts the lines and bytes of a file held in memory.
pub fn count_lines_bytes(data: &[u8]) -> (t: FileTotals)
    ensures
        (t.line_count as nat, t.byte_count as nat) == totals_of(data@),
{
    let mut counter = Counter::new();
    assert(data@.len() == data.len());
    counter.feed(data);
    counter.totals()
}

/// Scans `data` for the start of line `k`, counted from zero, and says how
/// many newlines lie before it.
fn scan_lines(data: &[u8], k: u64) -> (r: (usize, u64))
    ensures
        r.0 == line_start(data@, k as nat),
        r.0 <= data@.len(),
        count_newlines(data@) >= k ==> r.1 == k,
        count_newlines(data@) < k ==> r.1 == count_newlines(data@),
{
    let n = data.len();
    let mut remaining: u64 = k;
    let mut i: usize = 0;
    assert(data@.skip(0) =~= data@);
    while i < n && remaining > 0
        invariant
            i <= n,
            n == data@.len(),
            remaining <= k,
            line_start(data@, k as nat) == i + line_start(data@.skip(i as int), remaining as nat),
            count_newlines(data@) == (k - remaining) + count_newlines(data@.skip(i as int)),
        decreases n - i,
    {
        proof {
            assert(data@.skip(i as int).drop_first() =~= data@.skip(i + 1));
        }
        if data[i] == NEWLINE {
            remaining -= 1;
        }
        i += 1;
    }
    (i, k - remaining)
}

/// Finds where line `k`, counted from zero, starts in `data`.
pub fn find_line_start(data: &[u8], k: u64) -> (at: usize)
    ensures
        at == line_start(data@, k as nat),
        at <= data@.len(),
{
    scan_lines(data, k).0
}

/// Skips a number of lines at the head of a file that arrives in chunks.
pub struct LineSkipper {
    remaining: u64,
}

impl LineSkipper {
    /// How many lines are still to be skipped.
    pub closed spec fn remaining(&self) -> nat {
        self.remaining as nat
    }

    /// A skipper that lets `lines` lines pass.
    pub fn new(lines: u64) -> (s: LineSkipper)
        ensures
            s.remaining() == lines,
    {
        LineSkipper { remaining: lines }
    }

    /// Takes in the next chunk and says from which offset on it belongs to
    /// the output; that is the chunk's length where all of it is skipped.
    pub fn feed(&mut self, chunk: &[u8]) -> (from: usize)
        ensures
            from == line_start(chunk@, old(self).remaining()),
            from <= chunk@.len(),
            count_newlines(chunk@) >= old(self).remaining() ==> final(self).remaining() == 0,
            count_newlines(chunk@) < old(self).remaining() ==> final(self).remaining() == old(
                self,
            ).remaining() - count_newlines(chunk@),
    {
        let (from, used) = scan_lines(chunk, self.remaining);
        self.remaining = self.remaining - used;
        from
    }
}

/// The unit in which a request counts.
#[derive(Debug, Clone, Copy, PartialEq, Eq, Structural)]
pub enum Unit {
    /// Text up to and including a newline byte.
    Line,
    /// A single byte.
    Byte,
}

impl FileTotals {
    /// The total that counts for `unit`.
    pub open spec fn total_spec(self, unit: Unit) -> u64 {
        match unit {
            Unit::Line => self.line_count,
            Unit::Byte => self.byte_count,
        }
    }

    /// The total that counts for `unit`.
    pub fn total(&self, unit: Unit) -> (n: u64)
        ensures
            n == self.total_spec(unit),
    {
        match unit {
            Unit::Line => self.line_count,
            Unit::Byte => self.byte_count,
        }
    }
}

/// Everything from the start of line `start`, counted from zero, to the end.
pub open spec fn lines_from(data: Seq<u8>, start: nat) -> Seq<u8> {
    data.skip(line_start(data, start) as int)
}

/// Everything from byte `start`, counted from zero, to the end; nothing
/// where `start` lies beyond the end.
pub open spec fn bytes_from(data: Seq<u8>, start: nat) -> Seq<u8> {
    if start <= data.len() {
        data.skip(start as int)
    } else {
        Seq::empty()
    }
}

/// What a request selects from `data`, given the total that was counted.
pub open spec fn selection(data: Seq<u8>, take_val: TakeValue, total: nat, unit: Unit) -> Seq<
    u8,
> {
    match start_index(take_val, total) {
        None => Seq::empty(),
        Some(start) => match unit {
            Unit::Line => lines_from(data, start),
            Unit::Byte => bytes_from(data, start),
        },
    }
}

/// The part of `data` from offset `at` on.
fn suffix(data: &[u8], at: usize) -> (out: &[u8])
    requires
        at <= data@.len(),
    ensures
        out@ == data@.skip(at as int),
{
    let n = data.len();
    let out = &data[at..n];
    out
}

/// The lines that `num_lines` selects from a file of `total_lines` lines.
pub fn print_lines<'a>(data: &'a [u8], num_lines: &TakeValue, total_lines: u64) -> (out: &'a [u8])
    ensures
        out@ == selection(data@, *num_lines, total_lines as nat, Unit::Line),
{
    match get_start_index(num_lines, total_lines) {
        None => suffix(data, data.len()),
        Some(start) => suffix(data, find_line_start(data, start)),
    }
}

/// The bytes that `num_bytes` selects from a file of `total_bytes` bytes.
pub fn print_bytes<'a>(data: &'a [u8], num_bytes: &TakeValue, total_bytes: u64) -> (out: &'a [u8])
    ensures
        out@ == selection(data@, *num_bytes, total_bytes as nat, Unit::Byte),
{
    let n = data.len();
    match get_start_index(num_bytes, total_bytes) {
        None => suffix(data, n),
        Some(start) => {
            if start <= n as u64 {
                suffix(data, start as usize)
            } else {
                suffix(data, n)
            }
        },
    }
}

/// What `tail` prints of a file with the content `data`: the selected
/// bytes where a byte count is given, the selected lines otherwise.
pub open spec fn tail_spec(data: Seq<u8>, lines: TakeValue, bytes: Option<TakeValue>) -> Seq<u8> {
    match bytes {
        Some(num_bytes) => selection(data, num_bytes, data.len(), Unit::Byte),
        None => selection(data, lines, line_count(data), Unit::Line),
    }
}

/// Counts the file, resolves the request against the totals and selects
/// the output.
pub fn tail<'a>(data: &'a [u8], lines: &TakeValue, bytes: &Option<TakeValue>) -> (out: &'a [u8])
    ensures
        out@ == tail_spec(data@, *lines, *bytes),
{
    let totals = count_lines_bytes(data);
    match bytes {
        Some(num_bytes) => print_bytes(data, num_bytes, totals.byte_count),
        None => print_lines(data, lines, totals.line_count),
    }
}

/// The lines selected from a file are its tail: what is left out is
/// exactly `start` whole lines, and what is printed holds all the others.
pub proof fn lemma_selected_lines(data: Seq<u8>, take_val: TakeValue, start: nat)
    requires
        start_index(take_val, line_count(data)) == Some(start),
    ensures
        ({
            let cut = line_start(data, start) as int;
            let out = selection(data, take_val, line_count(data), Unit::Line);
            &&& 0 <= cut < data.len()
            &&& data == data.take(cut) + out
            &&& line_count(data.take(cut)) == start
            &&& line_count(out) == line_count(data) - start
            &&& out.len() > 0
        }),
{
    lemma_start_index_in_range(take_val, line_count(data));
    lemma_count_newlines_bound(data);
    lemma_line_start_splits(data, start);
    lemma_line_start_bound(data, start);
}

/// Counting back `k` lines from the end of a file that has at least `k`
/// lines prints exactly `k` lines; counting back more prints the whole file.
pub proof fn lemma_last_lines(data: Seq<u8>, k: nat)
    requires
        0 < k <= max_negative_magnitude(),
        line_count(data) > 0,
    ensures
        ({
            let out = selection(data, TakeValue::TakeNum((-k) as i64), line_count(data), Unit::Line);
            &&& k <= line_count(data) ==> line_count(out) == k
            &&& k >= line_count(data) ==> out == data
        }),
{
    let total = line_count(data);
    let take_val = TakeValue::TakeNum((-k) as i64);
    lemma_negative_count_clips(k, total);
    if k < total {
        lemma_selected_lines(data, take_val, (total - k) as nat);
    } else {
        assert(data.skip(0) =~= data);
    }
}

/// The bytes selected from a file are its tail: everything but the first
/// `start` bytes.
pub proof fn lemma_selected_bytes(data: Seq<u8>, take_val: TakeValue, start: nat)
    requires
        start_index(take_val, data.len()) == Some(start),
    ensures
        ({
            let out = selection(data, take_val, data.len(), Unit::Byte);
            &&& start < data.len()
            &&& data == data.take(start as int) + out
            &&& out.len() == data.len() - start
        }),
{
    lemma_start_index_in_range(take_val, data.len());
}

/// Skipping lines chunk by chunk finds the same start as looking at the
/// two chunks in one piece.
pub proof fn lemma_skip_in_chunks(first: Seq<u8>, second: Seq<u8>, k: nat)
    ensures
        ({
            let in_first = line_start(first, k);
            let left = if count_newlines(first) >= k {
                0nat
            } else {
                (k - count_newlines(first)) as nat
            };
            lines_from(first + second, k) == first.skip(in_first as int) + second.skip(
                line_start(second, left) as int,
            )
        }),
{
    lemma_line_start_concat(first, second, k);
    lemma_line_start_bound(first, k);
    let left = if count_newlines(first) >= k {
        0nat
    } else {
        (k - count_newlines(first)) as nat
    };
    lemma_line_start_bound(second, left);
    if count_newlines(first) < k {
        lemma_line_start_concat(first, Seq::<u8>::empty(), k);
    }
}

/// Where the handling of one file stands.
#[derive(Debug, Clone, Copy, PartialEq, Eq, Structural)]
pub enum FileState {
    /// Nothing has been read yet.
    Unopened,
    /// The file has been counted.
    Counted(FileTotals),
    /// The request has been held against the totals: the start position,
    /// or `None` where nothing is selected.
    PositionResolved(Option<u64>),
    /// The file is being copied to the output from this position on.
    Streaming(u64),
    /// The file is finished; the flag says whether it produced output.
    Done(bool),
    /// Opening or reading the file failed.
    Errored,
}

/// What happened to the file since the last step.
#[derive(Debug, Clone, Copy, PartialEq, Eq, Structural)]
pub enum FileEvent {
    /// The file was read once from start to end, with these totals.
    Totals(FileTotals),
    /// Nothing from outside: the next step is a decision only.
    Proceed,
    /// Everything from the start position on has been written.
    Copied,
    /// Opening or reading the file failed.
    Failed,
}

/// What the caller has to do next for the file.
#[derive(Debug, Clone, Copy, PartialEq, Eq, Structural)]
pub enum FileAction {
    /// Read the file once and report its totals.
    Count,
    /// Nothing outside: step on with [`FileEvent::Proceed`].
    Proceed,
    /// Copy the file to the output, starting at this position in the unit
    /// of the request.
    Stream(u64),
    /// The file is dealt with: go on to the next one.
    Stop,
}

/// The state that follows `state` on `event`, for a request `take_val`
/// that counts in `unit`. A failure ends any file that is not yet finished;
/// nothing leaves `Done` or `Errored`; an event that does not belong to the
/// state changes nothing.
pub open spec fn next_state(
    state: FileState,
    event: FileEvent,
    take_val: TakeValue,
    unit: Unit,
) -> FileState {
    match (state, event) {
        (FileState::Errored, _) => FileState::Errored,
        (FileState::Done(wrote), _) => FileState::Done(wrote),
        (_, FileEvent::Failed) => FileState::Errored,
        (FileState::Unopened, FileEvent::Totals(totals)) => FileState::Counted(totals),
        (FileState::Counted(totals), FileEvent::Proceed) => FileState::PositionResolved(
            match start_index(take_val, totals.total_spec(unit) as nat) {
                Some(start) => Some(start as u64),
                None => None,
            },
        ),
        (FileState::PositionResolved(Some(start)), FileEvent::Proceed) => FileState::Streaming(
            start,
        ),
        (FileState::PositionResolved(None), FileEvent::Proceed) => FileState::Done(false),
        (FileState::Streaming(_), FileEvent::Copied) => FileState::Done(true),
        (other, _) => other,
    }
}

/// What is to be done in `state`.
pub open spec fn action_of(state: FileState) -> FileAction {
    match state {
        FileState::Unopened => FileAction::Count,
        FileState::Counted(_) => FileAction::Proceed,
        FileState::PositionResolved(_) => FileAction::Proceed,
        FileState::Streaming(start) => FileAction::Stream(start),
        FileState::Done(_) => FileAction::Stop,
        FileState::Errored => FileAction::Stop,
    }
}

/// Takes one step in the handling of a file.
pub fn step(state: FileState, event: FileEvent, take_val: &TakeValue, unit: Unit) -> (next:
    FileState)
    ensures
        next == next_state(state, event, *take_val, unit),
{
    match (state, event) {
        (FileState::Errored, _) => FileState::Errored,
        (FileState::Done(wrote), _) => FileState::Done(wrote),
        (_, FileEvent::Failed) => FileState::Errored,
        (FileState::Unopened, FileEvent::Totals(totals)) => FileState::Counted(totals),
        (FileState::Counted(totals), FileEvent::Proceed) => FileState::PositionResolved(
            get_start_index(take_val, totals.total(unit)),
        ),
        (FileState::PositionResolved(Some(start)), FileEvent::Proceed) => FileState::Streaming(
            start,
        ),
        (FileState::PositionResolved(None), FileEvent::Proceed) => FileState::Done(false),
        (FileState::Streaming(_), FileEvent::Copied) => FileState::Done(true),
        (other, _) => other,
    }
}

/// Says what the caller has to do next.
pub fn next_action(state: &FileState) -> (action: FileAction)
    ensures
        action == action_of(*state),
{
    match state {
        FileState::Unopened => FileAction::Count,
        FileState::Counted(_) => FileAction::Proceed,
        FileState::PositionResolved(_) => FileAction::Proceed,
        FileState::Streaming(start) => FileAction::Stream(*start),
        FileState::Done(_) => FileAction::Stop,
        FileState::Errored => FileAction::Stop,
    }
}

/// Nothing leaves `Errored` or `Done`, and a failure takes every other
/// state to `Errored`.
pub proof fn lemma_final_states(state: FileState, event: FileEvent, take_val: TakeValue, unit: Unit)
    ensures
        state is Errored ==> next_state(state, event, take_val, unit) == state,
        state is Done ==> next_state(state, event, take_val, unit) == state,
        !(state is Done) && event is Failed ==> next_state(state, event, take_val, unit)
            is Errored,
        action_of(state) is Stop <==> state is Done || state is Errored,
{
}

/// A file whose reads all succeed is counted, resolved and then either
/// streamed from a position inside it and done with output, or done
/// without output and without streaming where nothing is selected.
pub proof fn lemma_successful_run(totals: FileTotals, take_val: TakeValue, unit: Unit)
    ensures
        ({
            let counted = next_state(
                FileState::Unopened,
                FileEvent::Totals(totals),
                take_val,
                unit,
            );
            let resolved = next_state(counted, FileEvent::Proceed, take_val, unit);
            let started = next_state(resolved, FileEvent::Proceed, take_val, unit);
            let total = totals.total_spec(unit) as nat;
            &&& counted == FileState::Counted(totals)
            &&& match start_index(take_val, total) {
                Some(start) => {
                    &&& start < total
                    &&& resolved == FileState::PositionResolved(Some(start as u64))
                    &&& started == FileState::Streaming(start as u64)
                    &&& action_of(started) == FileAction::Stream(start as u64)
                    &&& next_state(started, FileEvent::Copied, take_val, unit) == FileState::Done(
                        true,
                    )
                },
                None => {
                    &&& resolved == FileState::PositionResolved(None)
                    &&& started == FileState::Done(false)
                },
            }
        }),
{
    lemma_start_index_in_range(take_val, totals.total_spec(unit) as nat);
}

} // verus!
