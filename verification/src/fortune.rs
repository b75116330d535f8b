//! Fortunes: the seed of the random pick and the records of a fortune file.

use crate::pattern::Pattern;
use crate::text::{chars_of, concat3, join, joined, parse_unsigned, trim, trimmed};
use crate::text::{unsigned_value, views};
use vstd::prelude::*;

verus! {

/// The message for a seed that is no number.
pub open spec fn seed_error(val: Seq<char>) -> Seq<char> {
    "\""@ + val + "\" not a valid integer"@
}

/// Parses the seed: an unsigned decimal number that fits a `u64`.
pub fn parse_u64(val: &str) -> (r: Result<u64, String>)
    ensures
        match r {
            Ok(n) => unsigned_value(val@, u64::MAX as nat) == Some(n as nat),
            Err(e) => unsigned_value(val@, u64::MAX as nat) is None && e@ == seed_error(val@),
        },
{
    let chars = chars_of(val);
    assert(chars@.subrange(0, chars.len() as int) =~= val@);
    match parse_unsigned(&chars, 0, chars.len(), u64::MAX) {
        Some(n) => Ok(n),
        None => Err(concat3("\"", val, "\" not a valid integer")),
    }
}

/// One fortune, and the file it comes from.
#[derive(Debug)]
pub struct Fortune {
    pub source: String,
    pub text: String,
}

/// The lines of one fortune file, and the name of the file.
#[derive(Debug)]
pub struct FortuneFile {
    pub source: String,
    pub lines: Vec<String>,
}

/// Whether a line ends a fortune: it holds a percent sign and nothing else
/// but white space.
pub open spec fn is_separator(line: Seq<char>) -> bool {
    trimmed(line) == seq!['%']
}

/// How many lines stand before the first separator; the number of lines
/// where there is none.
pub open spec fn first_separator(lines: Seq<Seq<char>>) -> nat
    decreases lines.len(),
{
    if lines.len() == 0 || is_separator(lines[0]) {
        0
    } else {
        1 + first_separator(lines.drop_first())
    }
}

/// The text of a fortune: its lines without the white space at their ends,
/// joined by newlines.
pub open spec fn fortune_text(lines: Seq<Seq<char>>) -> Seq<char> {
    joined(lines.map_values(|line: Seq<char>| trimmed(line)), seq!['\n'])
}

/// The texts of the fortunes in a file: each run of lines that a separator
/// ends. Lines after the last separator belong to no fortune.
pub open spec fn fortune_texts(lines: Seq<Seq<char>>) -> Seq<Seq<char>>
    decreases lines.len(),
{
    let end = first_separator(lines) as int;
    if end >= lines.len() {
        Seq::empty()
    } else {
        seq![fortune_text(lines.take(end))] + fortune_texts(lines.skip(end + 1))
    }
}

/// Whether a fortune is wanted: every one is where no expression is given,
/// and otherwise those that the expression matches.
pub open spec fn wanted(pattern: Option<Pattern>, text: Seq<char>) -> bool {
    match pattern {
        None => true,
        Some(p) => p.matches(text),
    }
}

/// The wanted ones among `texts`, in order.
pub open spec fn chosen(pattern: Option<Pattern>, texts: Seq<Seq<char>>) -> Seq<Seq<char>>
    decreases texts.len(),
{
    if texts.len() == 0 {
        Seq::empty()
    } else {
        chosen(pattern, texts.drop_last()) + if wanted(pattern, texts.last()) {
            seq![texts.last()]
        } else {
            Seq::empty()
        }
    }
}

/// The fortunes as pairs of source and text.
pub open spec fn fortune_views(fortunes: Seq<Fortune>) -> Seq<(Seq<char>, Seq<char>)> {
    fortunes.map_values(|f: Fortune| (f.source@, f.text@))
}

/// The texts under one source.
pub open spec fn from_source(source: Seq<char>, texts: Seq<Seq<char>>) -> Seq<
    (Seq<char>, Seq<char>),
> {
    texts.map_values(|t: Seq<char>| (source, t))
}

/// The wanted fortunes of one file.
pub open spec fn file_fortunes(source: Seq<char>, lines: Seq<Seq<char>>, pattern: Option<Pattern>)
    -> Seq<(Seq<char>, Seq<char>)> {
    from_source(source, chosen(pattern, fortune_texts(lines)))
}

/// The wanted fortunes of several files, in the order of the files.
pub open spec fn all_fortunes(files: Seq<FortuneFile>, pattern: Option<Pattern>) -> Seq<
    (Seq<char>, Seq<char>),
>
    decreases files.len(),
{
    if files.len() == 0 {
        Seq::empty()
    } else {
        all_fortunes(files.drop_last(), pattern) + file_fortunes(
            files.last().source@,
            views(files.last().lines@),
            pattern,
        )
    }
}

/// The first separator is where a separator stands with none before it.
proof fn lemma_first_separator(lines: Seq<Seq<char>>, k: int)
    requires
        0 <= k <= lines.len(),
        forall|j: int| 0 <= j < k ==> !is_separator(#[trigger] lines[j]),
        k < lines.len() ==> is_separator(lines[k]),
    ensures
        first_separator(lines) == k,
    decreases k,
{
    if k > 0 {
        assert forall|j: int| 0 <= j < k - 1 implies !is_separator(
            #[trigger] lines.drop_first()[j],
        ) by {}
        lemma_first_separator(lines.drop_first(), k - 1);
    }
}

/// Choosing among two runs of texts is choosing in each.
proof fn lemma_chosen_concat(pattern: Option<Pattern>, a: Seq<Seq<char>>, b: Seq<Seq<char>>)
    ensures
        chosen(pattern, a + b) == chosen(pattern, a) + chosen(pattern, b),
    decreases b.len(),
{
    if b.len() > 0 {
        assert((a + b).drop_last() =~= a + b.drop_last());
        lemma_chosen_concat(pattern, a, b.drop_last());
    }
}

/// Whether a fortune is wanted.
pub fn is_wanted(pattern: &Option<Pattern>, text: &str) -> (b: bool)
    ensures
        b == wanted(*pattern, text@),
{
    match pattern {
        None => true,
        Some(pat) => pat.is_match(text),
    }
}

/// Reads the fortunes of one file and appends the wanted ones.
pub fn add_fortunes(
    fortunes: &mut Vec<Fortune>,
    source: &str,
    lines: &Vec<String>,
    pattern: &Option<Pattern>,
)
    ensures
        fortune_views(final(fortunes)@) == fortune_views(old(fortunes)@) + file_fortunes(
            source@,
            views(lines@),
            *pattern,
        ),
{
    let ghost all = views(lines@);
    let ghost start_views = fortune_views(fortunes@);
    let mut texts: Vec<String> = Vec::new();
    let ghost mut start: int = 0;
    let ghost mut done: Seq<Seq<char>> = Seq::empty();
    let mut i: usize = 0;
    proof {
        assert(all.skip(0) =~= all);
    }
    while i < lines.len()
        invariant
            0 <= start <= i <= lines.len(),
            all == views(lines@),
            start_views == fortune_views(old(fortunes)@),
            done + fortune_texts(all.skip(start)) == fortune_texts(all),
            forall|j: int| start <= j < i ==> !is_separator(#[trigger] all[j]),
            views(texts@) == all.subrange(start, i as int).map_values(
                |line: Seq<char>| trimmed(line),
            ),
            fortune_views(fortunes@) == start_views + from_source(source@, chosen(*pattern, done)),
        decreases lines.len() - i,
    {
        let ghost record = all.subrange(start, i as int);
        let ghost rest = all.skip(start);
        let ghost kept = fortune_views(fortunes@);
        let short = trim(lines[i].as_str());
        let mut percent = String::new();
        percent.push('%');
        if short == percent {
            let text = join(&texts, "\n");
            proof {
                reveal_strlit("\n");
                assert("\n"@ =~= seq!['\n']);
                assert forall|j: int| 0 <= j < i - start implies !is_separator(
                    #[trigger] rest[j],
                ) by {}
                lemma_first_separator(rest, i - start);
                assert(rest.take(i - start) =~= record);
                assert(rest.skip(i - start + 1) =~= all.skip(i + 1));
                lemma_chosen_concat(*pattern, done, seq![text@]);
                assert(done + seq![text@] =~= done.push(text@));
            }
            if is_wanted(pattern, text.as_str()) {
                fortunes.push(Fortune { source: source.to_owned(), text });
                proof {
                    let one = seq![text@];
                    assert(chosen(*pattern, one.drop_last()) =~= Seq::<Seq<char>>::empty());
                    assert(from_source(source@, chosen(*pattern, done) + seq![text@])
                        =~= from_source(source@, chosen(*pattern, done)).push((source@, text@)));
                    assert(kept.push((source@, text@)) =~= start_views + from_source(
                        source@,
                        chosen(*pattern, done),
                    ).push((source@, text@)));
                }
            } else {
                proof {
                    let one = seq![text@];
                    assert(chosen(*pattern, one.drop_last()) =~= Seq::<Seq<char>>::empty());
                }
            }
            texts = Vec::new();
            proof {
                done = done.push(text@);
                start = i + 1;
            }
        } else {
            texts.push(short);
            proof {
                assert(all.subrange(start, i + 1).map_values(|line: Seq<char>| trimmed(line))
                    =~= record.map_values(|line: Seq<char>| trimmed(line)).push(
                    trimmed(all[i as int]),
                ));
            }
        }
        i += 1;
    }
    proof {
        let rest = all.skip(start);
        assert forall|j: int| 0 <= j < rest.len() implies !is_separator(#[trigger] rest[j]) by {}
        lemma_first_separator(rest, rest.len() as int);
    }
}

/// Reads the fortunes of all the files, keeping those that are wanted.
pub fn read_fortunes(files: &Vec<FortuneFile>, pattern: &Option<Pattern>) -> (fortunes: Vec<
    Fortune,
>)
    ensures
        fortune_views(fortunes@) == all_fortunes(files@, *pattern),
{
    let mut fortunes: Vec<Fortune> = Vec::new();
    let mut i: usize = 0;
    while i < files.len()
        invariant
            i <= files.len(),
            fortune_views(fortunes@) == all_fortunes(files@.take(i as int), *pattern),
        decreases files.len() - i,
    {
        proof {
            assert(files@.take(i + 1).drop_last() =~= files@.take(i as int));
        }
        add_fortunes(&mut fortunes, files[i].source.as_str(), &files[i].lines, pattern);
        i += 1;
    }
    assert(files@.take(i as int) =~= files@);
    fortunes
}

} // verus!
