//! Comparing two sorted files line by line.

use crate::text::{lowercase, order, order_of, to_lowercase, views, Order};
use vstd::prelude::*;

verus! {

/// A line of the output, by the column it belongs to.
#[derive(Debug)]
pub enum Cols {
    /// A line that only the first file has.
    Col1(String),
    /// A line that only the second file has.
    Col2(String),
    /// A line that both files have.
    Col3(String),
}

/// A line of the output as text, by the column it belongs to.
pub enum Column {
    First(Seq<char>),
    Second(Seq<char>),
    Both(Seq<char>),
}

impl View for Cols {
    type V = Column;

    open spec fn view(&self) -> Column {
        match self {
            Cols::Col1(s) => Column::First(s@),
            Cols::Col2(s) => Column::Second(s@),
            Cols::Col3(s) => Column::Both(s@),
        }
    }
}

/// The columns of a list of output lines.
pub open spec fn column_views(v: Seq<Cols>) -> Seq<Column> {
    v.map_values(|c: Cols| c@)
}

/// The lines of two files, merged in the order of strings: a line that
/// comes first in one file goes to that file's column, a line that heads
/// both goes to the third.
pub open spec fn merged(first: Seq<Seq<char>>, second: Seq<Seq<char>>) -> Seq<Column>
    decreases first.len() + second.len(),
{
    if first.len() == 0 && second.len() == 0 {
        Seq::empty()
    } else if second.len() == 0 {
        seq![Column::First(first[0])] + merged(first.drop_first(), second)
    } else if first.len() == 0 {
        seq![Column::Second(second[0])] + merged(first, second.drop_first())
    } else {
        match order_of(first[0], second[0]) {
            Order::After => seq![Column::Second(second[0])] + merged(first, second.drop_first()),
            Order::Before => seq![Column::First(first[0])] + merged(first.drop_first(), second),
            Order::Same => seq![Column::Both(first[0])] + merged(
                first.drop_first(),
                second.drop_first(),
            ),
        }
    }
}

/// Merges the lines of two files into columns.
pub fn comm(lines1: &Vec<String>, lines2: &Vec<String>) -> (out: Vec<Cols>)
    ensures
        column_views(out@) == merged(views(lines1@), views(lines2@)),
{
    let mut out: Vec<Cols> = Vec::new();
    let mut i: usize = 0;
    let mut j: usize = 0;
    let ghost first = views(lines1@);
    let ghost second = views(lines2@);
    proof {
        assert(first.skip(0) =~= first);
        assert(second.skip(0) =~= second);
    }
    while i < lines1.len() || j < lines2.len()
        invariant
            i <= lines1.len(),
            j <= lines2.len(),
            first == views(lines1@),
            second == views(lines2@),
            column_views(out@) + merged(first.skip(i as int), second.skip(j as int)) == merged(
                first,
                second,
            ),
        decreases (lines1.len() - i) + (lines2.len() - j),
    {
        let ghost a = first.skip(i as int);
        let ghost b = second.skip(j as int);
        proof {
            if i < lines1.len() {
                assert(a.drop_first() =~= first.skip(i + 1));
            }
            if j < lines2.len() {
                assert(b.drop_first() =~= second.skip(j + 1));
            }
        }
        let side = if j >= lines2.len() {
            Order::Before
        } else if i >= lines1.len() {
            Order::After
        } else {
            order(lines1[i].as_str(), lines2[j].as_str())
        };
        match side {
            Order::After => {
                out.push(Cols::Col2(lines2[j].clone()));
                j += 1;
            },
            Order::Before => {
                out.push(Cols::Col1(lines1[i].clone()));
                i += 1;
            },
            Order::Same => {
                out.push(Cols::Col3(lines1[i].clone()));
                i += 1;
                j += 1;
            },
        }
    }
    out
}

/// The lines as they are compared: in lower case where case is not to
/// count, as they are otherwise.
pub open spec fn folded(lines: Seq<Seq<char>>, insensitive: bool) -> Seq<Seq<char>> {
    if insensitive {
        lines.map_values(|line: Seq<char>| lowercase(line))
    } else {
        lines
    }
}

/// Puts the lines into the form in which they are compared.
pub fn fold_case(lines: Vec<String>, insensitive: bool) -> (out: Vec<String>)
    ensures
        views(out@) == folded(views(lines@), insensitive),
{
    if !insensitive {
        return lines;
    }
    let mut out: Vec<String> = Vec::new();
    let mut i: usize = 0;
    while i < lines.len()
        invariant
            i <= lines.len(),
            insensitive,
            views(out@) == folded(views(lines@), insensitive).take(i as int),
        decreases lines.len() - i,
    {
        out.push(to_lowercase(lines[i].as_str()));
        i += 1;
        assert(folded(views(lines@), insensitive).take(i as int) =~= folded(
            views(lines@),
            insensitive,
        ).take(i - 1).push(lowercase(lines@[i - 1]@)));
    }
    out
}

/// How a line is written out, or `None` where its column is switched off:
/// after one tab for each column before it that is shown.
pub open spec fn shown(col: Column, suppress_col1: bool, suppress_col2: bool, suppress_col3: bool)
    -> Option<Seq<char>> {
    match col {
        Column::First(s) => if suppress_col1 {
            None
        } else {
            Some(s)
        },
        Column::Second(s) => if suppress_col2 {
            None
        } else if suppress_col1 {
            Some(s)
        } else {
            Some(seq!['\t'] + s)
        },
        Column::Both(s) => if suppress_col3 {
            None
        } else if suppress_col1 && suppress_col2 {
            Some(s)
        } else if suppress_col1 || suppress_col2 {
            Some(seq!['\t'] + s)
        } else {
            Some(seq!['\t', '\t'] + s)
        },
    }
}

/// Formats one line of the output, or gives `None` where its column is
/// switched off.
pub fn format_col(col: &Cols, suppress_col1: bool, suppress_col2: bool, suppress_col3: bool) -> (r:
    Option<String>)
    ensures
        r is Some == shown(col@, suppress_col1, suppress_col2, suppress_col3) is Some,
        r matches Some(s) ==> shown(col@, suppress_col1, suppress_col2, suppress_col3) == Some(s@),
{
    let mut out = String::new();
    match col {
        Cols::Col1(s) => {
            if suppress_col1 {
                return None;
            }
            out.push_str(s.as_str());
        },
        Cols::Col2(s) => {
            if suppress_col2 {
                return None;
            }
            if !suppress_col1 {
                out.push('\t');
            }
            out.push_str(s.as_str());
        },
        Cols::Col3(s) => {
            if suppress_col3 {
                return None;
            }
            if !suppress_col1 {
                out.push('\t');
            }
            if !suppress_col2 {
                out.push('\t');
            }
            out.push_str(s.as_str());
        },
    }
    Some(out)
}

/// The message for two inputs that are both the standard input.
pub open spec fn both_stdin() -> Seq<char> {
    "Both input files cannot be STDIN (\"-\")"@
}

/// Refuses two inputs that are both the standard input, `-`.
pub fn check_files(file1: &str, file2: &str) -> (r: Result<(), String>)
    ensures
        r is Err == (file1@ == "-"@ && file2@ == "-"@),
        r matches Err(e) ==> e@ == both_stdin(),
{
    if file1.to_owned() == "-".to_owned() && file2.to_owned() == "-".to_owned() {
        Err("Both input files cannot be STDIN (\"-\")".to_owned())
    } else {
        Ok(())
    }
}

} // verus!
