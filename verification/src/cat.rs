//! Printing files with their lines numbered.

use crate::text::{decimal_text, join, joined, push_number, right_aligned, trim_end};
use crate::text::{trimmed_end, views};
use vstd::prelude::*;

verus! {

/// How many of the first `upto` lines are not empty.
pub open spec fn nonblank_count(lines: Seq<Seq<char>>, upto: int) -> nat
    decreases upto,
{
    if upto <= 0 {
        0
    } else {
        nonblank_count(lines, upto - 1) + if lines[upto - 1].len() > 0 {
            1nat
        } else {
            0nat
        }
    }
}

/// A line behind its number: the number in a column of six, a tab, the
/// line.
pub open spec fn numbered(n: nat, line: Seq<char>) -> Seq<char> {
    right_aligned(decimal_text(n), 6) + seq!['\t'] + line
}

/// How line `i`, counted from zero, is printed. Where all lines are
/// numbered, numbering non-blank lines changes nothing. Where only
/// non-blank lines are numbered, a blank line stays blank and takes no
/// number.
pub open spec fn printed_line(
    lines: Seq<Seq<char>>,
    i: int,
    number_lines: bool,
    number_nonblank_lines: bool,
) -> Seq<char> {
    if number_lines {
        numbered((i + 1) as nat, lines[i])
    } else if number_nonblank_lines {
        if lines[i].len() > 0 {
            numbered(nonblank_count(lines, i + 1), lines[i])
        } else {
            Seq::empty()
        }
    } else {
        lines[i]
    }
}

/// How the lines of one file are printed.
pub open spec fn printed(lines: Seq<Seq<char>>, number_lines: bool, number_nonblank_lines: bool)
    -> Seq<Seq<char>> {
    Seq::new(lines.len(), |i: int| printed_line(lines, i, number_lines, number_nonblank_lines))
}

/// Formats a line behind its number.
pub fn format_numbered(n: usize, line: &str) -> (s: String)
    ensures
        s@ == numbered(n as nat, line@),
{
    let mut s = String::new();
    push_number(&mut s, n as u64, 6);
    s.push('\t');
    s.push_str(line);
    s
}

/// Formats the lines of one file, numbering all of them, only those that
/// are not empty, or none.
pub fn number(lines: &Vec<String>, number_lines: bool, number_nonblank_lines: bool) -> (out: Vec<
    String,
>)
    ensures
        views(out@) == printed(views(lines@), number_lines, number_nonblank_lines),
{
    let mut out: Vec<String> = Vec::new();
    let mut last_num: usize = 0;
    let mut i: usize = 0;
    let ghost all = views(lines@);
    while i < lines.len()
        invariant
            i <= lines.len(),
            all == views(lines@),
            last_num == nonblank_count(all, i as int),
            last_num <= i,
            views(out@) == printed(all, number_lines, number_nonblank_lines).take(i as int),
        decreases lines.len() - i,
    {
        let line = lines[i].as_str();
        let blank = line.is_empty();
        if !blank {
            last_num += 1;
        }
        let text = if number_lines {
            format_numbered(i + 1, line)
        } else if number_nonblank_lines {
            if blank {
                String::new()
            } else {
                format_numbered(last_num, line)
            }
        } else {
            line.to_owned()
        };
        out.push(text);
        i += 1;
        assert(printed(all, number_lines, number_nonblank_lines).take(i as int) =~= printed(
            all,
            number_lines,
            number_nonblank_lines,
        ).take(i - 1).push(text@));
    }
    out
}

/// The lines in a row, each with a newline behind it.
pub open spec fn terminated(lines: Seq<Seq<char>>) -> Seq<char>
    decreases lines.len(),
{
    if lines.len() == 0 {
        Seq::empty()
    } else {
        terminated(lines.drop_last()) + lines.last() + seq!['\n']
    }
}

/// What is printed of one file with the content `contents` and the lines
/// `lines`: the lines with the non-blank ones numbered, without the white
/// space at the end of the whole; or all lines numbered, joined by
/// newlines; or the content without the white space at its end.
pub open spec fn echoed(
    lines: Seq<Seq<char>>,
    contents: Seq<char>,
    number: bool,
    number_noblank: bool,
) -> Seq<char> {
    if number_noblank {
        trimmed_end(terminated(printed(lines, false, true)))
    } else if number {
        joined(printed(lines, true, false), seq!['\n'])
    } else {
        trimmed_end(contents)
    }
}

/// Puts a newline behind each line.
fn terminate(lines: &Vec<String>) -> (s: String)
    ensures
        s@ == terminated(views(lines@)),
{
    let mut s = String::new();
    let mut i: usize = 0;
    while i < lines.len()
        invariant
            i <= lines.len(),
            s@ == terminated(views(lines@).take(i as int)),
        decreases lines.len() - i,
    {
        proof {
            assert(views(lines@).take(i + 1).drop_last() =~= views(lines@).take(i as int));
        }
        s.push_str(lines[i].as_str());
        s.push('\n');
        i += 1;
    }
    assert(views(lines@).take(i as int) =~= views(lines@));
    s
}

/// Formats what is printed of one file, given its content and its lines.
/// Numbering the non-blank lines wins over numbering all of them.
pub fn echo_file(lines: &Vec<String>, contents: &str, number_all: bool, number_noblank: bool) -> (s:
    String)
    ensures
        s@ == echoed(views(lines@), contents@, number_all, number_noblank),
{
    if number_noblank {
        let shown = number(lines, false, true);
        trim_end(terminate(&shown).as_str())
    } else if number_all {
        let shown = number(lines, true, false);
        proof {
            reveal_strlit("\n");
            assert("\n"@ =~= seq!['\n']);
        }
        join(&shown, "\n")
    } else {
        trim_end(contents)
    }
}

} // verus!
