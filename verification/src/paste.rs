//! Pasting files side by side: the list of delimiters.

use crate::text::{chars_of, join, joined, views};
use vstd::prelude::*;

verus! {

/// What the character `c` behind a backslash stands for, or `None` where
/// it has no meaning there.
pub open spec fn escaped(c: char) -> Option<Seq<char>> {
    if c == 'n' {
        Some(seq!['\n'])
    } else if c == 't' {
        Some(seq!['\t'])
    } else if c == '\\' {
        Some(seq!['\\'])
    } else if c == '0' {
        Some(Seq::empty())
    } else {
        None
    }
}

/// The delimiters that `given` lists, or the message that says why it
/// lists none: each character stands for itself, and `\n`, `\t`, `\\` and
/// `\0` stand for a newline, a tab, a backslash and the empty string.
pub open spec fn delimiters(given: Seq<char>) -> Result<Seq<Seq<char>>, Seq<char>>
    decreases given.len(),
{
    if given.len() == 0 {
        Ok(Seq::empty())
    } else if given[0] != '\\' {
        match delimiters(given.skip(1)) {
            Ok(rest) => Ok(seq![seq![given[0]]] + rest),
            Err(e) => Err(e),
        }
    } else if given.len() == 1 {
        Err("Lone backslash"@)
    } else {
        match escaped(given[1]) {
            Some(d) => match delimiters(given.skip(2)) {
                Ok(rest) => Ok(seq![d] + rest),
                Err(e) => Err(e),
            },
            None => Err("Unknown escape \"\\"@ + seq![given[1]] + "\""@),
        }
    }
}

/// Reading on from position `i` with what has been read so far gives the
/// same as reading the whole.
proof fn lemma_delimiters_step(given: Seq<char>, i: int, sofar: Seq<Seq<char>>)
    requires
        0 <= i <= given.len(),
        delimiters(given) == (match delimiters(given.skip(i)) {
            Ok(rest) => Ok::<Seq<Seq<char>>, Seq<char>>(sofar + rest),
            Err(e) => Err(e),
        }),
    ensures
        i == given.len() ==> delimiters(given) == Ok::<Seq<Seq<char>>, Seq<char>>(sofar),
        i < given.len() && given[i] != '\\' ==> delimiters(given) == (match delimiters(
            given.skip(i + 1),
        ) {
            Ok(rest) => Ok::<Seq<Seq<char>>, Seq<char>>(sofar.push(seq![given[i]]) + rest),
            Err(e) => Err(e),
        }),
        i + 1 == given.len() && given[i] == '\\' ==> delimiters(given) == Err::<
            Seq<Seq<char>>,
            Seq<char>,
        >("Lone backslash"@),
        i + 1 < given.len() && given[i] == '\\' ==> delimiters(given) == (match escaped(
            given[i + 1],
        ) {
            Some(d) => match delimiters(given.skip(i + 2)) {
                Ok(rest) => Ok::<Seq<Seq<char>>, Seq<char>>(sofar.push(d) + rest),
                Err(e) => Err(e),
            },
            None => Err("Unknown escape \"\\"@ + seq![given[i + 1]] + "\""@),
        }),
{
    let tail = given.skip(i);
    if i < given.len() {
        assert(tail.skip(1) =~= given.skip(i + 1));
        if given[i] != '\\' {
            match delimiters(given.skip(i + 1)) {
                Ok(rest) => {
                    assert(sofar + (seq![seq![given[i]]] + rest) =~= sofar.push(seq![given[i]])
                        + rest);
                },
                Err(e) => {},
            }
        } else if i + 1 < given.len() {
            assert(tail.skip(2) =~= given.skip(i + 2));
            match escaped(given[i + 1]) {
                Some(d) => match delimiters(given.skip(i + 2)) {
                    Ok(rest) => {
                        assert(sofar + (seq![d] + rest) =~= sofar.push(d) + rest);
                    },
                    Err(e) => {},
                },
                None => {},
            }
        }
    }
}

/// Parses a list of delimiters such as `\t,\n`.
pub fn parse_delimiters(given: &str) -> (r: Result<Vec<String>, String>)
    ensures
        match r {
            Ok(list) => delimiters(given@) == Ok::<Seq<Seq<char>>, Seq<char>>(views(list@)),
            Err(e) => delimiters(given@) == Err::<Seq<Seq<char>>, Seq<char>>(e@),
        },
{
    let chars = chars_of(given);
    let n = chars.len();
    let mut results: Vec<String> = Vec::new();
    let mut i: usize = 0;
    assert(chars@.skip(0) =~= chars@);
    while i < n
        invariant
            i <= n,
            n == chars.len(),
            chars@ == given@,
            delimiters(chars@) == (match delimiters(chars@.skip(i as int)) {
                Ok(rest) => Ok::<Seq<Seq<char>>, Seq<char>>(views(results@) + rest),
                Err(e) => Err(e),
            }),
        decreases n - i,
    {
        proof {
            lemma_delimiters_step(chars@, i as int, views(results@));
        }
        let ghost before = views(results@);
        let chr = chars[i];
        if chr != '\\' {
            let mut one = String::new();
            one.push(chr);
            results.push(one);
            assert(views(results@) =~= before.push(seq![chr]));
            i += 1;
        } else if i + 1 == n {
            return Err("Lone backslash".to_owned());
        } else {
            let c = chars[i + 1];
            let mut one = String::new();
            if c == 'n' {
                one.push('\n');
            } else if c == 't' {
                one.push('\t');
            } else if c == '\\' {
                one.push('\\');
            } else if c == '0' {
            } else {
                let mut e = String::new();
                e.push_str("Unknown escape \"\\");
                e.push(c);
                e.push_str("\"");
                assert(e@ =~= "Unknown escape \"\\"@ + seq![c] + "\""@);
                return Err(e);
            }
            results.push(one);
            assert(views(results@) =~= before.push(one@));
            i += 2;
        }
    }
    proof {
        lemma_delimiters_step(chars@, i as int, views(results@));
    }
    Ok(results)
}

/// The lines of several files, as texts.
pub open spec fn columns_of(files: Seq<Vec<String>>) -> Seq<Seq<Seq<char>>> {
    files.map_values(|f: Vec<String>| views(f@))
}

/// Line `r` of a file, or the empty text where the file has run out.
pub open spec fn cell(column: Seq<Seq<char>>, r: int) -> Seq<char> {
    if 0 <= r < column.len() {
        column[r]
    } else {
        Seq::empty()
    }
}

/// Line `r` of every file, side by side.
pub open spec fn row(columns: Seq<Seq<Seq<char>>>, r: int) -> Seq<Seq<char>> {
    Seq::new(columns.len(), |c: int| cell(columns[c], r))
}

/// Whether line `r` is empty or missing in every file.
pub open spec fn row_is_blank(columns: Seq<Seq<Seq<char>>>, r: int) -> bool {
    forall|c: int| 0 <= c < columns.len() ==> (#[trigger] cell(columns[c], r)).len() == 0
}

/// The number of lines of the longest file.
pub open spec fn longest(columns: Seq<Seq<Seq<char>>>) -> nat
    decreases columns.len(),
{
    if columns.len() == 0 {
        0
    } else {
        let rest = longest(columns.drop_last());
        if columns.last().len() > rest {
            columns.last().len()
        } else {
            rest
        }
    }
}

/// The rows from `r` on, each joined with `delim`, up to the first row
/// that is blank in every file and no further than row `limit`.
pub open spec fn pasted_from(
    columns: Seq<Seq<Seq<char>>>,
    delim: Seq<char>,
    r: nat,
    limit: nat,
) -> Seq<Seq<char>>
    decreases limit - r,
{
    if r >= limit || row_is_blank(columns, r as int) {
        Seq::empty()
    } else {
        seq![joined(row(columns, r as int), delim)] + pasted_from(columns, delim, r + 1, limit)
    }
}

/// The files side by side: row after row, the lines of a row joined with
/// `delim`, up to the first row that is empty in every file.
pub open spec fn pasted(columns: Seq<Seq<Seq<char>>>, delim: Seq<char>) -> Seq<Seq<char>> {
    pasted_from(columns, delim, 0, longest(columns))
}

/// No file has a line beyond the length of the longest.
pub proof fn lemma_longest(columns: Seq<Seq<Seq<char>>>, r: int)
    requires
        r >= longest(columns),
    ensures
        row_is_blank(columns, r),
    decreases columns.len(),
{
    if columns.len() > 0 {
        lemma_longest(columns.drop_last(), r);
        assert forall|c: int| 0 <= c < columns.len() implies (#[trigger] cell(columns[c], r)).len()
            == 0 by {
            if c < columns.len() - 1 {
                assert(cell(columns.drop_last()[c], r).len() == 0);
            }
        }
    }
}

/// The number of lines of the longest file.
fn longest_file(files: &Vec<Vec<String>>) -> (n: usize)
    ensures
        n == longest(columns_of(files@)),
{
    let mut n: usize = 0;
    let mut c: usize = 0;
    let ghost columns = columns_of(files@);
    while c < files.len()
        invariant
            c <= files.len(),
            columns == columns_of(files@),
            n == longest(columns.take(c as int)),
        decreases files.len() - c,
    {
        proof {
            assert(columns.take(c + 1).drop_last() =~= columns.take(c as int));
        }
        if files[c].len() > n {
            n = files[c].len();
        }
        c += 1;
    }
    assert(columns.take(c as int) =~= columns);
    n
}

/// Line `r` of every file, side by side, and whether all of them are
/// empty.
fn take_row(files: &Vec<Vec<String>>, r: usize) -> (res: (Vec<String>, bool))
    ensures
        views(res.0@) == row(columns_of(files@), r as int),
        res.1 == row_is_blank(columns_of(files@), r as int),
{
    let mut lines: Vec<String> = Vec::new();
    let mut blank = true;
    let mut c: usize = 0;
    let ghost columns = columns_of(files@);
    while c < files.len()
        invariant
            c <= files.len(),
            columns == columns_of(files@),
            views(lines@) == row(columns, r as int).take(c as int),
            blank == (forall|k: int| 0 <= k < c ==> (#[trigger] cell(columns[k], r as int)).len()
                == 0),
        decreases files.len() - c,
    {
        let file = &files[c];
        let line = if r < file.len() {
            file[r].clone()
        } else {
            String::new()
        };
        assert(line@ == cell(columns[c as int], r as int));
        if !line.as_str().is_empty() {
            blank = false;
        }
        lines.push(line);
        c += 1;
        assert(row(columns, r as int).take(c as int) =~= row(columns, r as int).take(c - 1).push(
            line@,
        ));
    }
    (lines, blank)
}

/// Puts the lines of the files side by side, joined with `delim`.
pub fn paste(files: &Vec<Vec<String>>, delim: &str) -> (out: Vec<String>)
    ensures
        views(out@) == pasted(columns_of(files@), delim@),
{
    let limit = longest_file(files);
    let mut out: Vec<String> = Vec::new();
    let mut r: usize = 0;
    let ghost columns = columns_of(files@);
    while r < limit
        invariant
            r <= limit,
            columns == columns_of(files@),
            limit == longest(columns),
            views(out@) + pasted_from(columns, delim@, r as nat, limit as nat) == pasted(
                columns,
                delim@,
            ),
        decreases limit - r,
    {
        let (lines, blank) = take_row(files, r);
        if blank {
            return out;
        }
        let text = join(&lines, delim);
        out.push(text);
        r += 1;
    }
    out
}

} // verus!
