//! Counting the lines, words, bytes and characters of a text.

use crate::tail::{count_lines_bytes, lemma_count_newlines_bound, line_count};
use crate::text::{chars_of, count_words, decimal_text, is_space, is_whitespace, push_number};
use crate::text::right_aligned;
use vstd::prelude::*;
use vstd::string::StringSliceAdditionalSpecFns;

verus! {

/// The counts of one file.
#[derive(Debug, Clone, Copy, PartialEq, Eq, Structural)]
pub struct FileInfo {
    pub num_lines: usize,
    pub num_words: usize,
    pub num_bytes: usize,
    pub num_chars: usize,
}

/// Counts the words among `chars`.
fn words_in(chars: &Vec<char>) -> (n: usize)
    ensures
        n == count_words(chars@),
{
    let mut n: usize = 0;
    let mut in_word = false;
    let mut i: usize = 0;
    while i < chars.len()
        invariant
            i <= chars.len(),
            n == count_words(chars@.take(i as int)),
            n <= i,
            in_word == (i > 0 && !is_whitespace(chars@[i - 1])),
        decreases chars.len() - i,
    {
        let ghost after = chars@.take(i + 1);
        proof {
            assert(after.drop_last() =~= chars@.take(i as int));
        }
        let space = is_space(chars[i]);
        if !space && !in_word {
            n += 1;
        }
        in_word = !space;
        i += 1;
    }
    assert(chars@.take(i as int) =~= chars@);
    n
}

/// Counts the lines, words, bytes and characters of `text`. A line ends
/// with a newline; what follows the last newline counts as a line too.
pub fn count(text: &str) -> (info: FileInfo)
    ensures
        info.num_lines == line_count(text.spec_bytes()),
        info.num_words == count_words(text@),
        info.num_bytes == text.spec_bytes().len(),
        info.num_chars == text@.len(),
{
    let bytes = text.as_bytes();
    let totals = count_lines_bytes(bytes);
    proof {
        lemma_count_newlines_bound(bytes@);
    }
    let chars = chars_of(text);
    let num_bytes = bytes.len();
    FileInfo {
        num_lines: totals.line_count as usize,
        num_words: words_in(&chars),
        num_bytes,
        num_chars: chars.len(),
    }
}

/// The line that reports the counts of one file: lines, words and bytes in
/// columns of eight, then the name.
pub open spec fn report(info: FileInfo, filename: Seq<char>) -> Seq<char> {
    right_aligned(decimal_text(info.num_lines as nat), 8) + right_aligned(
        decimal_text(info.num_words as nat),
        8,
    ) + right_aligned(decimal_text(info.num_bytes as nat), 8) + seq![' '] + filename
}

/// Formats the line that reports the counts of one file.
pub fn format_counts(info: &FileInfo, filename: &str) -> (s: String)
    ensures
        s@ == report(*info, filename@),
{
    let mut s = String::new();
    push_number(&mut s, info.num_lines as u64, 8);
    push_number(&mut s, info.num_words as u64, 8);
    push_number(&mut s, info.num_bytes as u64, 8);
    s.push(' ');
    s.push_str(filename);
    s
}

/// Which counts to show, for lines, words, bytes and characters in this
/// order: those asked for, or lines, words and bytes where none is.
pub open spec fn shown_counts(lines: bool, words: bool, bytes: bool, chars: bool) -> (
    bool,
    bool,
    bool,
    bool,
) {
    if !lines && !words && !bytes && !chars {
        (true, true, true, false)
    } else {
        (lines, words, bytes, chars)
    }
}

/// Settles which counts to show.
pub fn choose_counts(lines: bool, words: bool, bytes: bool, chars: bool) -> (r: (
    bool,
    bool,
    bool,
    bool,
))
    ensures
        r == shown_counts(lines, words, bytes, chars),
{
    if !lines && !words && !bytes && !chars {
        (true, true, true, false)
    } else {
        (lines, words, bytes, chars)
    }
}

} // verus!
