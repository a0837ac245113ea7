//! Range files: one `hand:frequency` entry per line, e.g. `AKs:1.0000` or `T9s:0.5`.
//!
//! The solver takes a range as one comma-separated list, where a hand played at
//! full frequency is written alone and any other hand as `hand:frequency`.
use vstd::prelude::*;

use crate::text::{
    chars_of,
    join_strings,
    join_texts,
    split_at_char,
    split_char,
    string_of,
    trim,
    trim_chars,
};

verus! {

/// The entry that one line of a range file gives: the trimmed hand and the trimmed
/// frequency text, when the trimmed line holds exactly one `:`. Blank lines, lines
/// without `:` and lines with more than one `:` give nothing.
pub open spec fn line_entry(line: Seq<char>) -> Option<(Seq<char>, Seq<char>)> {
    let t = trim(line);
    let parts = split_char(t, ':');
    if t.len() == 0 || parts.len() != 2 {
        None
    } else {
        Some((trim(parts[0]), trim(parts[1])))
    }
}

/// The entries of a list of lines, in order.
pub open spec fn entries_of_lines(lines: Seq<Seq<char>>) -> Seq<(Seq<char>, Seq<char>)>
    decreases lines.len(),
{
    if lines.len() == 0 {
        Seq::empty()
    } else {
        let r = entries_of_lines(lines.drop_last());
        match line_entry(lines.last()) {
            Some(e) => r.push(e),
            None => r,
        }
    }
}

/// The entries of a range file's text. Lines end at `\n`; a `\r` before it is
/// whitespace and goes with the trimming.
pub open spec fn range_entries_of(content: Seq<char>) -> Seq<(Seq<char>, Seq<char>)> {
    entries_of_lines(split_char(content, '\n'))
}

/// The texts of a list of string pairs.
pub open spec fn pair_texts(v: Seq<(String, String)>) -> Seq<(Seq<char>, Seq<char>)> {
    v.map_values(|e: (String, String)| (e.0@, e.1@))
}

/// The entry of one line, if it has one.
fn entry_of_line(line: &Vec<char>) -> (r: Option<(String, String)>)
    ensures
        match r {
            Some(e) => line_entry(line@) == Some((e.0@, e.1@)),
            None => line_entry(line@) is None,
        },
{
    let t = trim_chars(line);
    if t.len() == 0 {
        return None;
    }
    let parts = split_at_char(&t, ':');
    if parts.len() != 2 {
        return None;
    }
    let hand = trim_chars(&parts[0]);
    let freq = trim_chars(&parts[1]);
    Some((string_of(hand.as_slice()), string_of(freq.as_slice())))
}

/// The `(hand, frequency text)` entries of a range file's text, in file order.
pub fn range_entries(content: &str) -> (r: Vec<(String, String)>)
    ensures
        pair_texts(r@) == range_entries_of(content@),
{
    let chars = chars_of(content);
    let lines = split_at_char(&chars, '\n');
    let ghost all = split_char(content@, '\n');
    let mut r: Vec<(String, String)> = Vec::new();
    let mut i: usize = 0;
    while i < lines.len()
        invariant
            i <= lines@.len() == all.len(),
            all == split_char(content@, '\n'),
            forall|k: int| 0 <= k < lines@.len() ==> (#[trigger] lines@[k])@ == all[k],
            pair_texts(r@) == entries_of_lines(all.take(i as int)),
        decreases lines@.len() - i,
    {
        assert(all.take(i + 1).drop_last() =~= all.take(i as int));
        let entry = entry_of_line(&lines[i]);
        match entry {
            Some(e) => {
                r.push(e);
                assert(pair_texts(r@) =~= entries_of_lines(all.take(i + 1)));
            },
            None => {},
        }
        i = i + 1;
    }
    assert(all.take(lines@.len() as int) =~= all);
    r
}

/// The range text for the solver: the given entries joined with `,`.
pub fn join_range(entries: &Vec<String>) -> (r: String)
    ensures
        r@ == join_texts(entries@.map_values(|p: String| p@), ","@),
{
    join_strings(entries, ",")
}

} // verus!
