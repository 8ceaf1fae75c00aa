//! The excerpt of an example's documentation shown beside it: a description
//! and an optional note.

use crate::text::{char_slice, chars_of, trim, trim_bounds};
use vstd::prelude::*;

verus! {

/// The text split at every line feed; `n` line feeds give `n + 1` pieces.
pub open spec fn split_lines(t: Seq<char>) -> Seq<Seq<char>>
    decreases t.len(),
{
    if t.len() == 0 {
        seq![Seq::empty()]
    } else {
        let before = split_lines(t.drop_last());
        if t.last() == '\n' {
            before.push(Seq::empty())
        } else {
            before.update(before.len() - 1, before.last().push(t.last()))
        }
    }
}

/// A trimmed line that starts with `note:` in any letter case.
pub open spec fn is_note_line(t: Seq<char>) -> bool {
    &&& t.len() >= 5
    &&& t[0] == 'n' || t[0] == 'N'
    &&& t[1] == 'o' || t[1] == 'O'
    &&& t[2] == 't' || t[2] == 'T'
    &&& t[3] == 'e' || t[3] == 'E'
    &&& t[4] == ':'
}

/// A line that is blank or a heading carries nothing.
pub open spec fn is_skipped_line(t: Seq<char>) -> bool {
    t.len() == 0 || t[0] == '#'
}

/// What one more line does to the description and note read so far: the first
/// line that carries text is the description, and a later note line ends the
/// reading with its text after the marker.
pub open spec fn doc_step(
    st: (Seq<char>, Option<Seq<char>>),
    line: Seq<char>,
) -> (Seq<char>, Option<Seq<char>>) {
    let t = trim(line);
    if st.1 is Some || is_skipped_line(t) {
        st
    } else if st.0.len() == 0 {
        (t, None)
    } else if is_note_line(t) {
        (st.0, Some(trim(t.subrange(5, t.len() as int))))
    } else {
        st
    }
}

/// The description and note read from a sequence of lines.
pub open spec fn summarize(lines: Seq<Seq<char>>) -> (Seq<char>, Option<Seq<char>>)
    decreases lines.len(),
{
    if lines.len() == 0 {
        (Seq::empty(), None)
    } else {
        doc_step(summarize(lines.drop_last()), lines.last())
    }
}

/// The description and note of a documentation text.
pub open spec fn doc_summary(t: Seq<char>) -> (Seq<char>, Option<Seq<char>>) {
    summarize(split_lines(t))
}

fn read_line(
    text: &str,
    cs: &Vec<char>,
    a: usize,
    b: usize,
    description: &mut String,
    note: &mut Option<String>,
)
    requires
        cs@ == text@,
        a <= b <= cs@.len(),
    ensures
        (final(description)@, final(note).deep_view()) == doc_step(
            (old(description)@, old(note).deep_view()),
            cs@.subrange(a as int, b as int),
        ),
{
    if note.is_some() {
        return ;
    }
    let (lo, hi) = trim_bounds(cs, a, b);
    if lo == hi || cs[lo] == '#' {
        return ;
    }
    if description.as_str().is_empty() {
        *description = char_slice(text, lo, hi);
        return ;
    }
    if hi - lo >= 5 && (cs[lo] == 'n' || cs[lo] == 'N') && (cs[lo + 1] == 'o' || cs[lo + 1]
        == 'O') && (cs[lo + 2] == 't' || cs[lo + 2] == 'T') && (cs[lo + 3] == 'e' || cs[lo + 3]
        == 'E') && cs[lo + 4] == ':' {
        let ghost t = cs@.subrange(lo as int, hi as int);
        assert(t.subrange(5, t.len() as int) =~= cs@.subrange(lo + 5, hi as int));
        let (nlo, nhi) = trim_bounds(cs, lo + 5, hi);
        *note = Some(char_slice(text, nlo, nhi));
    }
}

/// Reads the description and the note out of a documentation text: blank lines
/// and headings are passed over, the first other line is the description, and
/// a later line that starts with `note:` (any case) gives the note, trimmed.
pub fn parse_doc(text: &str) -> (r: (String, Option<String>))
    ensures
        (r.0@, r.1.deep_view()) == doc_summary(text@),
{
    let cs = chars_of(text);
    let n = cs.len();
    let mut description = String::new();
    let mut note: Option<String> = None;
    let mut start: usize = 0;
    let mut i: usize = 0;
    while i < n
        invariant
            n == cs@.len(),
            cs@ == text@,
            start <= i <= n,
            split_lines(cs@.subrange(0, i as int)).len() >= 1,
            split_lines(cs@.subrange(0, i as int)).last() == cs@.subrange(start as int, i as int),
            (description@, note.deep_view()) == summarize(
                split_lines(cs@.subrange(0, i as int)).drop_last(),
            ),
        decreases n - i,
    {
        let ghost before = split_lines(cs@.subrange(0, i as int));
        assert(cs@.subrange(0, i + 1).drop_last() =~= cs@.subrange(0, i as int));
        if cs[i] == '\n' {
            read_line(text, &cs, start, i, &mut description, &mut note);
            start = i + 1;
            assert(split_lines(cs@.subrange(0, i + 1)).drop_last() =~= before);
            assert(summarize(before) == doc_step(summarize(before.drop_last()), before.last()));
            assert(cs@.subrange(start as int, i + 1) =~= Seq::<char>::empty());
        } else {
            let ghost after = split_lines(cs@.subrange(0, i + 1));
            assert(after.drop_last() =~= before.drop_last());
            assert(cs@.subrange(start as int, i + 1) =~= cs@.subrange(start as int, i as int).push(
                cs@[i as int],
            ));
        }
        i = i + 1;
    }
    assert(cs@.subrange(0, n as int) =~= cs@);
    read_line(text, &cs, start, n, &mut description, &mut note);
    (description, note)
}

} // verus!
