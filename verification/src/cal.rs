//! Calendars: years, months and the grid of one month.

use crate::text::{centered, chars_of, concat3, decimal_text, is_prefix, left_aligned, lowercase};
use crate::text::{parse_signed, parse_unsigned, push_centered, push_left, push_number};
use crate::text::{push_signed, push_spaces, right_aligned, signed_text, spaces, trim_end};
use crate::text::{trimmed_end, views};
use crate::text::{signed_value, starts_with, to_lowercase, trim_bounds, trimmed, unsigned_value};
use chrono::{Datelike, NaiveDate};
use colorize::AnsiColor;
use vstd::prelude::*;

verus! {

/// An integer type that can be read from decimal text.
pub trait Decimal: Sized {
    /// The number that `s` denotes in this type, where it denotes one.
    spec fn value_of(s: Seq<char>) -> Option<Self>;

    /// Reads the characters from `start` up to `end` as a number.
    fn read(chars: &Vec<char>, start: usize, end: usize) -> (r: Option<Self>)
        requires
            start <= end <= chars.len(),
        ensures
            r == Self::value_of(chars@.subrange(start as int, end as int)),
    ;
}

impl Decimal for usize {
    open spec fn value_of(s: Seq<char>) -> Option<usize> {
        match unsigned_value(s, usize::MAX as nat) {
            Some(n) => Some(n as usize),
            None => None,
        }
    }

    fn read(chars: &Vec<char>, start: usize, end: usize) -> (r: Option<usize>) {
        match parse_unsigned(chars, start, end, usize::MAX as u64) {
            Some(n) => Some(n as usize),
            None => None,
        }
    }
}

impl Decimal for u64 {
    open spec fn value_of(s: Seq<char>) -> Option<u64> {
        match unsigned_value(s, u64::MAX as nat) {
            Some(n) => Some(n as u64),
            None => None,
        }
    }

    fn read(chars: &Vec<char>, start: usize, end: usize) -> (r: Option<u64>) {
        parse_unsigned(chars, start, end, u64::MAX)
    }
}

impl Decimal for u32 {
    open spec fn value_of(s: Seq<char>) -> Option<u32> {
        match unsigned_value(s, u32::MAX as nat) {
            Some(n) => Some(n as u32),
            None => None,
        }
    }

    fn read(chars: &Vec<char>, start: usize, end: usize) -> (r: Option<u32>) {
        match parse_unsigned(chars, start, end, u32::MAX as u64) {
            Some(n) => Some(n as u32),
            None => None,
        }
    }
}

impl Decimal for i64 {
    open spec fn value_of(s: Seq<char>) -> Option<i64> {
        match signed_value(s, i64::MIN as int, i64::MAX as int) {
            Some(n) => Some(n as i64),
            None => None,
        }
    }

    fn read(chars: &Vec<char>, start: usize, end: usize) -> (r: Option<i64>) {
        parse_signed(chars, start, end, i64::MIN, i64::MAX)
    }
}

impl Decimal for i32 {
    open spec fn value_of(s: Seq<char>) -> Option<i32> {
        match signed_value(s, i32::MIN as int, i32::MAX as int) {
            Some(n) => Some(n as i32),
            None => None,
        }
    }

    fn read(chars: &Vec<char>, start: usize, end: usize) -> (r: Option<i32>) {
        match parse_signed(chars, start, end, i32::MIN as i64, i32::MAX as i64) {
            Some(n) => Some(n as i32),
            None => None,
        }
    }
}

/// The message for a token that is no integer.
pub open spec fn invalid_integer(val: Seq<char>) -> Seq<char> {
    "Invalid integer \""@ + val + "\""@
}

/// Parses an integer that may stand between white space.
pub fn parse_int<T: Decimal>(val: &str) -> (r: Result<T, String>)
    ensures
        match r {
            Ok(n) => T::value_of(trimmed(val@)) == Some(n),
            Err(e) => T::value_of(trimmed(val@)) is None && e@ == invalid_integer(val@),
        },
{
    let chars = chars_of(val);
    let (start, end) = trim_bounds(&chars);
    match T::read(&chars, start, end) {
        Some(n) => Ok(n),
        None => Err(concat3("Invalid integer \"", val, "\"")),
    }
}

/// The year that `year` names, from 1 to 9999, or the message that says
/// why it names none.
pub open spec fn year_of(year: Seq<char>) -> Result<i32, Seq<char>> {
    match <i32 as Decimal>::value_of(trimmed(year)) {
        None => Err(invalid_integer(year)),
        Some(num) => if 1 <= num <= 9999 {
            Ok(num)
        } else {
            Err("year \""@ + year + "\" not in the range 1..9999"@)
        },
    }
}

/// Parses a year from 1 to 9999.
pub fn parse_year(year: &str) -> (r: Result<i32, String>)
    ensures
        match r {
            Ok(num) => year_of(year@) == Ok::<i32, Seq<char>>(num),
            Err(e) => year_of(year@) == Err::<i32, Seq<char>>(e@),
        },
{
    match parse_int::<i32>(year) {
        Err(e) => Err(e),
        Ok(num) => {
            if 1 <= num && num <= 9999 {
                Ok(num)
            } else {
                Err(concat3("year \"", year, "\" not in the range 1..9999"))
            }
        },
    }
}

/// The English name of month `index`, counted from zero, in lower case.
pub open spec fn month_name(index: int) -> Seq<char> {
    if index == 0 {
        "january"@
    } else if index == 1 {
        "february"@
    } else if index == 2 {
        "march"@
    } else if index == 3 {
        "april"@
    } else if index == 4 {
        "may"@
    } else if index == 5 {
        "june"@
    } else if index == 6 {
        "july"@
    } else if index == 7 {
        "august"@
    } else if index == 8 {
        "september"@
    } else if index == 9 {
        "october"@
    } else if index == 10 {
        "november"@
    } else {
        "december"@
    }
}

/// The English name of month `index`, counted from zero, in lower case.
fn month_name_of(index: usize) -> (name: &'static str)
    requires
        index < 12,
    ensures
        name@ == month_name(index as int),
{
    if index == 0 {
        "january"
    } else if index == 1 {
        "february"
    } else if index == 2 {
        "march"
    } else if index == 3 {
        "april"
    } else if index == 4 {
        "may"
    } else if index == 5 {
        "june"
    } else if index == 6 {
        "july"
    } else if index == 7 {
        "august"
    } else if index == 8 {
        "september"
    } else if index == 9 {
        "october"
    } else if index == 10 {
        "november"
    } else {
        "december"
    }
}

/// How many of the first `upto` months have a name that opens with `prefix`.
pub open spec fn months_with_prefix(prefix: Seq<char>, upto: nat) -> nat
    decreases upto,
{
    if upto == 0 {
        0
    } else {
        months_with_prefix(prefix, (upto - 1) as nat) + if is_prefix(
            prefix,
            month_name(upto - 1),
        ) {
            1nat
        } else {
            0nat
        }
    }
}

/// The last of the first `upto` months whose name opens with `prefix`,
/// as a number from 1; zero where there is none.
pub open spec fn last_month_with_prefix(prefix: Seq<char>, upto: nat) -> nat
    decreases upto,
{
    if upto == 0 {
        0
    } else if is_prefix(prefix, month_name(upto - 1)) {
        upto
    } else {
        last_month_with_prefix(prefix, (upto - 1) as nat)
    }
}

/// The month, from 1 to 12, that `prefix` abbreviates: the one month whose
/// name opens with it. Nothing where no name or more than one does.
pub open spec fn month_by_prefix(prefix: Seq<char>) -> Option<u32> {
    if months_with_prefix(prefix, 12) == 1 {
        Some(last_month_with_prefix(prefix, 12) as u32)
    } else {
        None
    }
}

/// Finds the month that `prefix` abbreviates.
pub fn find_month(prefix: &str) -> (r: Option<u32>)
    ensures
        r == month_by_prefix(prefix@),
{
    let wanted = chars_of(prefix);
    let mut found: u32 = 0;
    let mut last: u32 = 0;
    let mut i: usize = 0;
    while i < 12
        invariant
            i <= 12,
            wanted@ == prefix@,
            found == months_with_prefix(prefix@, i as nat),
            last == last_month_with_prefix(prefix@, i as nat),
            found <= i,
            last <= i,
        decreases 12 - i,
    {
        let name = chars_of(month_name_of(i));
        if starts_with(&name, &wanted) {
            found += 1;
            last = i as u32 + 1;
        }
        i += 1;
    }
    if found == 1 {
        Some(last)
    } else {
        None
    }
}

/// The month that `month` names, from 1 to 12, given its lower-case form
/// `lower`: a number in that range, or else the beginning of exactly one
/// month's name. Otherwise the message that says why it names none.
pub open spec fn month_of(month: Seq<char>, lower: Seq<char>) -> Result<u32, Seq<char>> {
    match <u32 as Decimal>::value_of(trimmed(month)) {
        Some(num) => if 1 <= num <= 12 {
            Ok(num)
        } else {
            Err("month \""@ + month + "\" not in the range 1..12"@)
        },
        None => match month_by_prefix(lower) {
            Some(num) => Ok(num),
            None => Err("Invalid month \""@ + month + "\""@),
        },
    }
}

/// Parses a month given as a number or as the beginning of a name, with
/// `lower` as its lower-case form.
pub fn month_from(month: &str, lower: &str) -> (r: Result<u32, String>)
    ensures
        match r {
            Ok(num) => month_of(month@, lower@) == Ok::<u32, Seq<char>>(num),
            Err(e) => month_of(month@, lower@) == Err::<u32, Seq<char>>(e@),
        },
{
    match parse_int::<u32>(month) {
        Ok(num) => {
            if 1 <= num && num <= 12 {
                Ok(num)
            } else {
                Err(concat3("month \"", month, "\" not in the range 1..12"))
            }
        },
        Err(_) => match find_month(lower) {
            Some(num) => Ok(num),
            None => Err(concat3("Invalid month \"", month, "\"")),
        },
    }
}

/// Parses a month given as a number from 1 to 12 or as the beginning of an
/// English month name, in any case.
pub fn parse_month(month: &str) -> (r: Result<u32, String>)
    ensures
        match r {
            Ok(num) => month_of(month@, lowercase(month@)) == Ok::<u32, Seq<char>>(num),
            Err(e) => month_of(month@, lowercase(month@)) == Err::<u32, Seq<char>>(e@),
        },
{
    let lower = to_lowercase(month);
    month_from(month, lower.as_str())
}

/// A day of the calendar.
#[derive(Debug, Clone, Copy, PartialEq, Eq, Structural)]
pub struct Date {
    pub year: i32,
    pub month: u32,
    pub day: u32,
}

/// Whether `year` and `month` name a month of the calendar: the months
/// from 1 to 12 of the years that `chrono` has dates for.
pub open spec fn is_month(year: int, month: int) -> bool {
    -262143 <= year <= 262142 && 1 <= month <= 12
}

/// Whether `year` is a leap year of the Gregorian calendar.
pub open spec fn is_leap_year(year: int) -> bool {
    year % 4 == 0 && (year % 100 != 0 || year % 400 == 0)
}

/// The number of days of a month of the Gregorian calendar.
pub open spec fn days_in_month(year: int, month: int) -> nat {
    if month == 2 {
        if is_leap_year(year) {
            29
        } else {
            28
        }
    } else if month == 4 || month == 6 || month == 9 || month == 11 {
        30
    } else {
        31
    }
}

/// The day before the first of a month, where `chrono` has both dates.
pub open spec fn eve_of_month(year: int, month: int) -> Option<(i32, u32, u32)> {
    if !is_month(year, month) {
        None
    } else if month > 1 {
        Some((year as i32, (month - 1) as u32, days_in_month(year, month - 1) as u32))
    } else if year > -262143 {
        Some(((year - 1) as i32, 12u32, 31u32))
    } else {
        None
    }
}

/// The day of the week on which a month begins, counted from Sunday as
/// zero.
pub uninterp spec fn weekday_of_first(year: int, month: int) -> nat;

/// `NaiveDate::from_ymd_opt`, then `Datelike::weekday` and
/// `Weekday::num_days_from_sunday`: the day of the week of the first of a
/// month, from 0 for Sunday to 6 for Saturday, where `chrono` has that date.
#[verifier::external_body]
fn first_weekday(year: i32, month: u32) -> (r: Option<u32>)
    ensures
        r is Some == is_month(year as int, month as int),
        r matches Some(w) ==> w == weekday_of_first(year as int, month as int) && w < 7,
{
    match NaiveDate::from_ymd_opt(year, month, 1) {
        Some(first) => Some(first.weekday().num_days_from_sunday()),
        None => None,
    }
}

/// `NaiveDate::from_ymd_opt`, then `NaiveDate::pred_opt`: the date before
/// the first of a month, as year, month and day of the proleptic Gregorian
/// calendar.
#[verifier::external_body]
fn eve_of(year: i32, month: u32) -> (r: Option<(i32, u32, u32)>)
    ensures
        r == eve_of_month(year as int, month as int),
{
    match NaiveDate::from_ymd_opt(year, month, 1) {
        Some(first) => match first.pred_opt() {
            Some(eve) => Some((eve.year(), eve.month(), eve.day())),
            None => None,
        },
        None => None,
    }
}

/// The last day of a month.
pub fn last_day_in_month(year: i32, month: u32) -> (last: Date)
    requires
        is_month(year as int, month as int),
        is_month(year + 1, month as int),
    ensures
        last == (Date { year, month, day: days_in_month(year as int, month as int) as u32 }),
{
    // The day before the first day of the next month
    let (y, m) = if month == 12 {
        (year + 1, 1)
    } else {
        (year, month + 1)
    };
    match eve_of(y, m) {
        Some((year, month, day)) => Date { year, month, day },
        None => Date { year, month, day: 31 },
    }
}

/// How a text shows in reverse video, as `colorize` marks it: `shown` is
/// `text` behind the code that switches reverse video on and before a code
/// that resets the colours; a text that opens with a code of its own has
/// the reverse video added to that code.
pub open spec fn is_reversed(text: Seq<char>, shown: Seq<char>) -> bool {
    if is_prefix("\x1b["@, text) {
        shown == "\x1b[7;"@ + text.skip(2)
    } else {
        exists|fg: int, bg: int|
            shown == "\x1b[7m"@ + text + "\x1b[0;"@ + #[trigger] signed_text(fg) + ";"@
                + #[trigger] signed_text(bg) + "m"@
    }
}

/// `AnsiColor::reverse` for `String`: the text in reverse video. The
/// colours that the closing code goes back to are those set for the
/// running thread.
#[verifier::external_body]
fn reverse_video(text: String) -> (shown: String)
    ensures
        is_reversed(text@, shown@),
{
    text.reverse()
}

/// The number of a day in a column of two.
pub open spec fn day_number(day: nat) -> Seq<char> {
    right_aligned(decimal_text(day), 2)
}

/// How a day shows in the grid, given how today is marked: its number in
/// a column of two, or the mark where it is today, and a space.
pub open spec fn day_cell(day: nat, today: nat, marked: Seq<char>) -> Seq<char> {
    (if day == today {
        marked
    } else {
        day_number(day)
    }) + seq![' ']
}

/// Formats the number of a day in a column of two.
fn format_day_number(day: u32) -> (s: String)
    ensures
        s@ == day_number(day as nat),
{
    let mut s = String::new();
    push_number(&mut s, day as u64, 2);
    s
}

/// Formats a day of the grid: its number in a column of two and a space,
/// the number in reverse video where the day is today.
pub fn day_display(day: Date, today: Date) -> (s: String)
    ensures
        day != today ==> s@ == day_number(day.day as nat) + seq![' '],
        day == today ==> exists|marked: Seq<char>|
            is_reversed(day_number(day.day as nat), marked) && s@ == #[trigger] day_cell(
                day.day as nat,
                day.day as nat,
                marked,
            ),
{
    let mut text = format_day_number(day.day);
    if day.year == today.year && day.month == today.month && day.day == today.day {
        text = reverse_video(text);
        let ghost marked = text@;
        text.push(' ');
        assert(text@ =~= day_cell(day.day as nat, day.day as nat, marked));
    } else {
        text.push(' ');
    }
    text
}

/// The cells of the days from `from` to `to`, in a row.
pub open spec fn day_cells(from: nat, to: nat, today: nat, marked: Seq<char>) -> Seq<char>
    decreases to,
{
    if from > to || to == 0 {
        Seq::empty()
    } else {
        day_cells(from, (to - 1) as nat, today, marked) + day_cell(to, today, marked)
    }
}

/// How many rows the days of a month take, where the month begins on
/// weekday `first` and has `days` days.
pub open spec fn weeks(first: nat, days: nat) -> nat {
    ((first + days - 1) / 7 + 1) as nat
}

/// The first day in row `k` of the grid.
pub open spec fn week_start(first: nat, k: nat) -> nat {
    if k == 0 {
        1
    } else {
        (7 * k - first + 1) as nat
    }
}

/// The last day in row `k` of the grid.
pub open spec fn week_end(first: nat, days: nat, k: nat) -> nat {
    if 7 * k - first + 7 < days {
        (7 * k - first + 7) as nat
    } else {
        days
    }
}

/// Row `k` of the days: three spaces for each weekday before the first of
/// the month, the days of the week, and a closing space; the last row
/// reaches a width of 22 instead.
pub open spec fn week_line(first: nat, days: nat, k: nat, today: nat, marked: Seq<char>) -> Seq<
    char,
> {
    let cells = (if k == 0 {
        spaces(3 * first)
    } else {
        Seq::empty()
    }) + day_cells(week_start(first, k), week_end(first, days, k), today, marked);
    if k + 1 < weeks(first, days) {
        cells + seq![' ']
    } else {
        left_aligned(cells, 22)
    }
}

/// The eight lines of a month: the title in the middle of twenty columns,
/// the weekdays, the rows of days, and blank rows to make up eight.
pub open spec fn grid(title: Seq<char>, first: nat, days: nat, today: nat, marked: Seq<char>)
    -> Seq<Seq<char>> {
    Seq::new(
        8,
        |i: int|
            if i == 0 {
                centered(title, 20) + seq![' ', ' ']
            } else if i == 1 {
                "Su Mo Tu We Th Fr Sa  "@
            } else if i - 2 < weeks(first, days) {
                week_line(first, days, (i - 2) as nat, today, marked)
            } else {
                spaces(22)
            },
    )
}

/// Lays out the eight lines of a month that begins on weekday `first`,
/// counted from Sunday as zero, and has `days` days. Day `today` shows as
/// `marked`; no day does where `today` is zero.
pub fn month_lines(title: &str, first: u32, days: u32, today: u32, marked: &str) -> (output: Vec<
    String,
>)
    requires
        first < 7,
        1 <= days <= 31,
    ensures
        views(output@) == grid(title@, first as nat, days as nat, today as nat, marked@),
{
    let ghost want = grid(title@, first as nat, days as nat, today as nat, marked@);
    let mut output: Vec<String> = Vec::new();
    let mut head = String::new();
    push_centered(&mut head, title, 20);
    head.push(' ');
    head.push(' ');
    assert(head@ =~= want[0]);
    output.push(head);
    output.push("Su Mo Tu We Th Fr Sa  ".to_owned());
    let rows: u32 = (first + days - 1) / 7 + 1;
    let mut k: u32 = 0;
    while k < rows
        invariant
            k <= rows,
            first < 7,
            1 <= days <= 31,
            rows == weeks(first as nat, days as nat),
            want == grid(title@, first as nat, days as nat, today as nat, marked@),
            views(output@) == want.take(2 + k),
        decreases rows - k,
    {
        let mut week = String::new();
        if k == 0 {
            push_spaces(&mut week, (3 * first) as usize);
        }
        let from: u32 = if k == 0 { 1 } else { 7 * k + 1 - first };
        let to: u32 = if 7 * k + 7 - first < days { 7 * k + 7 - first } else { days };
        let ghost lead = week@;
        let mut day: u32 = from;
        while day <= to
            invariant
                1 <= from <= day <= to + 1,
                to <= 31,
                week@ == lead + day_cells(from as nat, (day - 1) as nat, today as nat, marked@),
            decreases to + 1 - day,
        {
            if day == today {
                week.push_str(marked);
            } else {
                push_number(&mut week, day as u64, 2);
            }
            week.push(' ');
            day += 1;
        }
        let line = if k + 1 < rows {
            week.push(' ');
            week
        } else {
            let mut last = String::new();
            push_left(&mut last, week.as_str(), 22);
            last
        };
        assert(want[2 + k] == line@);
        output.push(line);
        k += 1;
        assert(want.take(2 + k) =~= want.take(2 + k - 1).push(line@));
    }
    while output.len() < 8
        invariant
            2 + rows <= output.len() <= 8,
            rows == weeks(first as nat, days as nat),
            want == grid(title@, first as nat, days as nat, today as nat, marked@),
            views(output@) == want.take(output.len() as int),
        decreases 8 - output.len(),
    {
        let mut blank = String::new();
        push_spaces(&mut blank, 22);
        output.push(blank);
    }
    output
}

/// The English name of month `month`, from 1 to 12.
pub open spec fn month_title(month: int) -> Seq<char> {
    if month == 1 {
        "January"@
    } else if month == 2 {
        "February"@
    } else if month == 3 {
        "March"@
    } else if month == 4 {
        "April"@
    } else if month == 5 {
        "May"@
    } else if month == 6 {
        "June"@
    } else if month == 7 {
        "July"@
    } else if month == 8 {
        "August"@
    } else if month == 9 {
        "September"@
    } else if month == 10 {
        "October"@
    } else if month == 11 {
        "November"@
    } else {
        "December"@
    }
}

/// The English name of month `month`, from 1 to 12.
fn month_title_of(month: u32) -> (name: &'static str)
    ensures
        name@ == month_title(month as int),
{
    if month == 1 {
        "January"
    } else if month == 2 {
        "February"
    } else if month == 3 {
        "March"
    } else if month == 4 {
        "April"
    } else if month == 5 {
        "May"
    } else if month == 6 {
        "June"
    } else if month == 7 {
        "July"
    } else if month == 8 {
        "August"
    } else if month == 9 {
        "September"
    } else if month == 10 {
        "October"
    } else if month == 11 {
        "November"
    } else {
        "December"
    }
}

/// The title of a month: its name, and the year where that is to show.
pub open spec fn title_text(year: int, month: int, print_year: bool) -> Seq<char> {
    if print_year {
        month_title(month) + seq![' '] + signed_text(year)
    } else {
        month_title(month)
    }
}

/// The day of the month that is today, or zero where today is no day of
/// the month.
pub open spec fn day_shown(year: int, month: int, today: Date) -> nat {
    if today.year == year && today.month == month && 1 <= today.day <= days_in_month(year, month) {
        today.day as nat
    } else {
        0
    }
}

/// The eight lines of the calendar of a month, given how today is marked.
pub open spec fn month_grid(year: int, month: int, print_year: bool, today: Date, marked: Seq<char>)
    -> Seq<Seq<char>> {
    grid(
        title_text(year, month, print_year),
        weekday_of_first(year, month),
        days_in_month(year, month),
        day_shown(year, month, today),
        marked,
    )
}

/// Formats the calendar of one month as eight lines of 22 columns, with
/// `today` in reverse video where it falls into the month.
pub fn format_month(year: i32, month: u32, print_year: bool, today: Date) -> (output: Vec<String>)
    requires
        is_month(year as int, month as int),
        is_month(year + 1, month as int),
    ensures
        exists|marked: Seq<char>|
            {
                &&& day_shown(year as int, month as int, today) > 0 ==> is_reversed(
                    day_number(today.day as nat),
                    marked,
                )
                &&& views(output@) == #[trigger] month_grid(
                    year as int,
                    month as int,
                    print_year,
                    today,
                    marked,
                )
            },
{
    let mut title = String::new();
    title.push_str(month_title_of(month));
    if print_year {
        title.push(' ');
        push_signed(&mut title, year as i64);
    }
    assert(title@ =~= title_text(year as int, month as int, print_year));
    let first = match first_weekday(year, month) {
        Some(w) => w,
        None => 0,
    };
    let days = last_day_in_month(year, month).day;
    let shown = today.year == year && today.month == month && 1 <= today.day && today.day <= days;
    let marked = if shown {
        reverse_video(format_day_number(today.day))
    } else {
        String::new()
    };
    let today_day = if shown { today.day } else { 0 };
    let output = month_lines(title.as_str(), first, days, today_day, marked.as_str());
    assert(views(output@) == month_grid(year as int, month as int, print_year, today, marked@));
    output
}

/// The month and the year to show: the whole current year where that is
/// asked for; the current month where neither month nor year is given; and
/// otherwise the month as given, in the year given or else the current one.
pub open spec fn period(
    month: Option<u32>,
    year: Option<i32>,
    show_current_year: bool,
    today: Date,
) -> (Option<u32>, i32) {
    if show_current_year {
        (None, today.year)
    } else if month is None && year is None {
        (Some(today.month), today.year)
    } else {
        (
            month,
            match year {
                Some(y) => y,
                None => today.year,
            },
        )
    }
}

/// Settles which month, if any, and which year to show.
pub fn choose_period(
    month: Option<u32>,
    year: Option<i32>,
    show_current_year: bool,
    today: Date,
) -> (r: (Option<u32>, i32))
    ensures
        r == period(month, year, show_current_year, today),
{
    if show_current_year {
        (None, today.year)
    } else if month.is_none() && year.is_none() {
        (Some(today.month), today.year)
    } else {
        (
            month,
            match year {
                Some(y) => y,
                None => today.year,
            },
        )
    }
}

/// The line above the calendar of a year: the year in the middle of 61
/// columns, without the spaces behind it.
pub open spec fn year_title(year: int) -> Seq<char> {
    trimmed_end(centered(signed_text(year), 61))
}

/// Line `i` of the calendar of a year, given how today is marked in each
/// month: the title, then the months three in a row, eight lines for each
/// row of months and an empty line between two rows.
pub open spec fn year_line(year: int, today: Date, marks: Seq<Seq<char>>, i: int) -> Seq<char> {
    if i == 0 {
        year_title(year)
    } else if (i - 1) % 9 == 8 {
        Seq::empty()
    } else {
        let first = 3 * ((i - 1) / 9);
        let row = (i - 1) % 9;
        month_grid(year, first + 1, false, today, marks[first])[row] + month_grid(
            year,
            first + 2,
            false,
            today,
            marks[first + 1],
        )[row] + month_grid(year, first + 3, false, today, marks[first + 2])[row]
    }
}

/// The 36 lines of the calendar of a year.
pub open spec fn year_lines(year: int, today: Date, marks: Seq<Seq<char>>) -> Seq<Seq<char>> {
    Seq::new(36, |i: int| year_line(year, today, marks, i))
}

/// Whether `marks` holds, for each month in which today falls, today's
/// number in reverse video.
pub open spec fn marks_today(year: int, today: Date, marks: Seq<Seq<char>>) -> bool {
    forall|m: int|
        0 <= m < marks.len() && day_shown(year, m + 1, today) > 0 ==> is_reversed(
            day_number(today.day as nat),
            #[trigger] marks[m],
        )
}

/// Formats the calendar of a year: its twelve months, three in a row.
pub fn format_year(year: i32, today: Date) -> (output: Vec<String>)
    requires
        is_month(year as int, 1),
        is_month(year + 1, 1),
    ensures
        exists|marks: Seq<Seq<char>>|
            marks.len() == 12 && marks_today(year as int, today, marks) && views(output@)
                == #[trigger] year_lines(year as int, today, marks),
{
    let mut title = String::new();
    let mut number = String::new();
    push_signed(&mut number, year as i64);
    push_centered(&mut title, number.as_str(), 61);
    let mut output: Vec<String> = Vec::new();
    output.push(trim_end(title.as_str()));
    let ghost mut marks: Seq<Seq<char>> = Seq::empty();
    let mut q: u32 = 0;
    while q < 4
        invariant
            q <= 4,
            is_month(year as int, 1),
            is_month(year + 1, 1),
            marks.len() == 3 * q,
            marks_today(year as int, today, marks),
            output.len() == 9 * q + 1 - (if q == 4 { 1int } else { 0int }),
            forall|i: int|
                0 <= i < output.len() ==> (#[trigger] output@[i])@ == year_line(
                    year as int,
                    today,
                    marks,
                    i,
                ),
        decreases 4 - q,
    {
        let left = format_month(year, 3 * q + 1, false, today);
        let ghost mark_left = choose|marked: Seq<char>|
            {
                &&& day_shown(year as int, (3 * q + 1) as int, today) > 0 ==> is_reversed(
                    day_number(today.day as nat),
                    marked,
                )
                &&& views(left@) == #[trigger] month_grid(
                    year as int,
                    (3 * q + 1) as int,
                    false,
                    today,
                    marked,
                )
            };
        let center = format_month(year, 3 * q + 2, false, today);
        let ghost mark_center = choose|marked: Seq<char>|
            {
                &&& day_shown(year as int, (3 * q + 2) as int, today) > 0 ==> is_reversed(
                    day_number(today.day as nat),
                    marked,
                )
                &&& views(center@) == #[trigger] month_grid(
                    year as int,
                    (3 * q + 2) as int,
                    false,
                    today,
                    marked,
                )
            };
        let right = format_month(year, 3 * q + 3, false, today);
        let ghost mark_right = choose|marked: Seq<char>|
            {
                &&& day_shown(year as int, (3 * q + 3) as int, today) > 0 ==> is_reversed(
                    day_number(today.day as nat),
                    marked,
                )
                &&& views(right@) == #[trigger] month_grid(
                    year as int,
                    (3 * q + 3) as int,
                    false,
                    today,
                    marked,
                )
            };
        let ghost old_marks = marks;
        proof {
            assert(views(left@).len() == 8 && views(center@).len() == 8 && views(right@).len()
                == 8);
            marks = marks.push(mark_left).push(mark_center).push(mark_right);
            assert forall|i: int| 0 <= i < output.len() implies (#[trigger] output@[i])@
                == year_line(year as int, today, marks, i) by {
                assert(year_line(year as int, today, marks, i) == year_line(
                    year as int,
                    today,
                    old_marks,
                    i,
                ));
            }
        }
        let mut row: usize = 0;
        while row < 8
            invariant
                row <= 8,
                q < 4,
                left@.len() == 8,
                center@.len() == 8,
                right@.len() == 8,
                marks.len() == 3 * q + 3,
                views(left@) == month_grid(year as int, (3 * q + 1) as int, false, today, marks[3 * q]),
                views(center@) == month_grid(
                    year as int,
                    (3 * q + 2) as int,
                    false,
                    today,
                    marks[3 * q + 1],
                ),
                views(right@) == month_grid(
                    year as int,
                    (3 * q + 3) as int,
                    false,
                    today,
                    marks[3 * q + 2],
                ),
                output.len() == 9 * q + 1 + row,
                forall|i: int|
                    0 <= i < output.len() ==> (#[trigger] output@[i])@ == year_line(
                        year as int,
                        today,
                        marks,
                        i,
                    ),
            decreases 8 - row,
        {
            let mut line = String::new();
            line.push_str(left[row].as_str());
            line.push_str(center[row].as_str());
            line.push_str(right[row].as_str());
            proof {
                let i = 9 * q + 1 + row;
                assert((i - 1) / 9 == q && (i - 1) % 9 == row);
                assert(views(left@)[row as int] == left@[row as int]@);
                assert(views(center@)[row as int] == center@[row as int]@);
                assert(views(right@)[row as int] == right@[row as int]@);
                assert(line@ == year_line(year as int, today, marks, i as int));
            }
            output.push(line);
            row += 1;
        }
        if q < 3 {
            proof {
                let i = 9 * q + 9;
                assert((i - 1) % 9 == 8);
            }
            output.push(String::new());
        }
        q += 1;
    }
    proof {
        assert(views(output@) =~= year_lines(year as int, today, marks));
    }
    output
}

} // verus!
