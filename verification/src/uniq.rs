//! Folding repeated lines into one, with a count.

use crate::text::{decimal_text, push_number, right_aligned, trim, trimmed, views};
use vstd::prelude::*;

verus! {

/// A run of lines that say the same: the first of them, and how many.
#[derive(Debug)]
pub struct Group {
    pub count: usize,
    pub line: String,
}

/// The runs among `lines`. Two lines say the same where they are equal
/// but for white space at their ends, and a run keeps its first line as it
/// is. Blank lines at the head of the input belong to no run.
pub open spec fn runs(lines: Seq<Seq<char>>) -> Seq<(nat, Seq<char>)>
    decreases lines.len(),
{
    if lines.len() == 0 {
        Seq::empty()
    } else {
        let before = runs(lines.drop_last());
        let line = lines.last();
        if before.len() == 0 {
            if trimmed(line).len() == 0 {
                before
            } else {
                before.push((1nat, line))
            }
        } else if trimmed(line) == trimmed(before.last().1) {
            before.drop_last().push(((before.last().0 + 1) as nat, before.last().1))
        } else {
            before.push((1nat, line))
        }
    }
}

/// The runs as numbers and texts.
pub open spec fn group_views(groups: Seq<Group>) -> Seq<(nat, Seq<char>)> {
    groups.map_values(|g: Group| (g.count as nat, g.line@))
}

/// No run is longer than the input.
proof fn lemma_runs_bound(lines: Seq<Seq<char>>)
    ensures
        runs(lines).len() <= lines.len(),
        forall|k: int| 0 <= k < runs(lines).len() ==> 1 <= (#[trigger] runs(lines)[k]).0 <= lines.len(),
    decreases lines.len(),
{
    if lines.len() > 0 {
        lemma_runs_bound(lines.drop_last());
    }
}

/// Folds each run of lines that say the same into one group.
pub fn uniq(lines: &Vec<String>) -> (groups: Vec<Group>)
    ensures
        group_views(groups@) == runs(views(lines@)),
{
    let mut groups: Vec<Group> = Vec::new();
    let mut current: String = String::new();
    let mut i: usize = 0;
    while i < lines.len()
        invariant
            i <= lines.len(),
            group_views(groups@) == runs(views(lines@).take(i as int)),
            groups@.len() > 0 ==> current@ == trimmed(groups@.last().line@),
            groups@.len() == 0 ==> current@.len() == 0,
        decreases lines.len() - i,
    {
        let ghost seen = views(lines@).take(i as int);
        let ghost after = views(lines@).take(i + 1);
        let ghost before = group_views(groups@);
        proof {
            assert(after.drop_last() =~= seen);
            lemma_runs_bound(seen);
        }
        let line = &lines[i];
        let short = trim(line.as_str());
        if short == current {
            if groups.len() > 0 {
                let last = groups.pop().unwrap();
                assert(before.last() == runs(seen)[before.len() - 1]);
                groups.push(Group { count: last.count + 1, line: last.line });
            }
        } else {
            proof {
                if groups@.len() == 0 {
                    if short@.len() == 0 {
                        assert(short@ =~= current@);
                    }
                }
            }
            groups.push(Group { count: 1, line: line.clone() });
            current = short;
        }
        i += 1;
    }
    assert(views(lines@).take(i as int) =~= views(lines@));
    groups
}

/// How a group is written out: the line as it is, after its count in a
/// column of four where counts are asked for.
pub open spec fn result_text(count: bool, num: nat, line: Seq<char>) -> Seq<char> {
    if count {
        right_aligned(decimal_text(num), 4) + seq![' '] + line
    } else {
        line
    }
}

/// Formats one group for the output.
pub fn format_result(count: bool, num: usize, line: &str) -> (s: String)
    ensures
        s@ == result_text(count, num as nat, line@),
{
    let mut s = String::new();
    if count {
        push_number(&mut s, num as u64, 4);
        s.push(' ');
    }
    s.push_str(line);
    s
}

} // verus!
