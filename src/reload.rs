//! The decisions of the hot-reload loop: which file changes call for a
//! reload, which example stays selected afterwards, and which examples the
//! name filter shows.

use crate::paths::{
    extension, extension_dot, file_name_span, is_script_path, last_index_of, lemma_last_index_of,
    script_extension,
};
use crate::registry::Example;
use crate::text::{chars_of, same_text};
use vstd::prelude::*;

verus! {

/// A change that touches these paths calls for a reload: one of them is a
/// script file.
pub open spec fn reload_trigger(paths: Seq<Seq<char>>) -> bool {
    exists|i: int| 0 <= i < paths.len() && extension(#[trigger] paths[i]) == Some(script_extension())
}

/// Whether a change to `paths` calls for a reload.
pub fn is_reload_trigger(paths: &Vec<String>) -> (r: bool)
    ensures
        r == reload_trigger(paths@.map_values(|p: String| p@)),
{
    let ghost ps = paths@.map_values(|p: String| p@);
    let mut i: usize = 0;
    while i < paths.len()
        invariant
            i <= paths@.len(),
            ps == paths@.map_values(|p: String| p@),
            forall|j: int| 0 <= j < i ==> extension(#[trigger] ps[j]) != Some(script_extension()),
        decreases paths@.len() - i,
    {
        if is_script_path(paths[i].as_str()) {
            assert(ps[i as int] == paths@[i as int]@);
            return true;
        }
        i = i + 1;
    }
    false
}

pub proof fn lemma_last_index_unique(p: Seq<char>, c: char, k: int)
    requires
        -1 <= k < p.len(),
        k >= 0 ==> p[k] == c,
        forall|j: int| k < j < p.len() ==> p[j] != c,
    ensures
        last_index_of(p, c) == k,
{
    lemma_last_index_of(p, c);
    let l = last_index_of(p, c);
    if l > k {
        assert(p[l] == c);
    }
    if l < k {
        assert(p[k] == c);
    }
}

/// A path made of a stem that does not end in a separator, a dot and an
/// extension without dots or separators has that extension.
pub proof fn lemma_extension_of_stem_and_ext(stem: Seq<char>, ext: Seq<char>)
    requires
        stem.len() > 0,
        stem.last() != '/',
        ext.len() > 0,
        forall|j: int| 0 <= j < ext.len() ==> ext[j] != '/' && ext[j] != '.',
    ensures
        extension(stem + seq!['.'] + ext) == Some(ext),
{
    let p = stem + seq!['.'] + ext;
    let n = p.len();
    let q = stem.len() as int;
    assert(p[q] == '.');
    assert(forall|j: int| q < j < n ==> p[j] == ext[j - q - 1]);
    assert(p.last() == ext.last());
    let k = last_index_of(stem, '/');
    lemma_last_index_of(stem, '/');
    lemma_last_index_unique(p, '/', k);
    assert(k < q - 1);
    let name = p.subrange(k + 1, n as int);
    assert(name.last() == ext.last());
    assert(name != seq!['.', '.']) by {
        if name == seq!['.', '.'] {
            assert(name.last() == '.');
        }
    }
    assert(file_name_span(p) == Some((k + 1, n as int)));
    lemma_last_index_unique(name, '.', q - k - 1);
    assert(extension_dot(p) == Some(q));
    assert(p.subrange(q + 1, n as int) =~= ext);
}

/// A change to paths that all end in `.txt` after a stem never calls for a
/// reload; a change that touches one path ending in `.rhai` after a stem
/// always does. A stem here is a non-empty path that does not end in a
/// separator.
pub proof fn lemma_reload_only_for_scripts(
    text_stems: Seq<Seq<char>>,
    paths: Seq<Seq<char>>,
    i: int,
    script_stem: Seq<char>,
)
    requires
        forall|j: int|
            0 <= j < text_stems.len() ==> (#[trigger] text_stems[j]).len() > 0
                && text_stems[j].last() != '/',
        0 <= i < paths.len(),
        script_stem.len() > 0,
        script_stem.last() != '/',
        paths[i] == script_stem + seq!['.'] + script_extension(),
    ensures
        !reload_trigger(text_stems.map_values(|s: Seq<char>| s + seq!['.', 't', 'x', 't'])),
        reload_trigger(paths),
{
    let txt: Seq<char> = seq!['t', 'x', 't'];
    let ps = text_stems.map_values(|s: Seq<char>| s + seq!['.', 't', 'x', 't']);
    assert forall|j: int| 0 <= j < ps.len() implies extension(#[trigger] ps[j]) != Some(
        script_extension(),
    ) by {
        assert(text_stems[j] + seq!['.', 't', 'x', 't'] =~= text_stems[j] + seq!['.'] + txt);
        lemma_extension_of_stem_and_ext(text_stems[j], txt);
        assert(txt[0] != script_extension()[0]);
    }
    lemma_extension_of_stem_and_ext(script_stem, script_extension());
}

/// The index of the first example with id `id`.
pub fn position_of(examples: &Vec<Example>, id: &str) -> (r: Option<usize>)
    ensures
        match r {
            None => forall|j: int| 0 <= j < examples@.len() ==> (#[trigger] examples@[j]).id@ != id@,
            Some(k) => k < examples@.len() && examples@[k as int].id@ == id@ && forall|j: int|
                0 <= j < k ==> (#[trigger] examples@[j]).id@ != id@,
        },
{
    let mut i: usize = 0;
    while i < examples.len()
        invariant
            i <= examples@.len(),
            forall|j: int| 0 <= j < i ==> (#[trigger] examples@[j]).id@ != id@,
        decreases examples@.len() - i,
    {
        if same_text(examples[i].id.as_str(), id) {
            return Some(i);
        }
        i = i + 1;
    }
    None
}

/// The index that stays selected once `previous` has been replaced by `fresh`: that
/// of the first example in `fresh` with the id that was selected in `previous`, or
/// none where nothing was selected or the id is gone.
pub fn reselect(previous: &Vec<Example>, selected: Option<usize>, fresh: &Vec<Example>) -> (r: Option<
    usize,
>)
    ensures
        match selected {
            Some(i) if i < previous@.len() => match r {
                None => forall|j: int|
                    0 <= j < fresh@.len() ==> (#[trigger] fresh@[j]).id@ != previous@[i as int].id@,
                Some(k) => k < fresh@.len() && fresh@[k as int].id@ == previous@[i as int].id@ && forall|
                    j: int,
                | 0 <= j < k ==> (#[trigger] fresh@[j]).id@ != previous@[i as int].id@,
            },
            _ => r is None,
        },
{
    match selected {
        Some(i) => {
            if i < previous.len() {
                position_of(fresh, previous[i].id.as_str())
            } else {
                None
            }
        },
        None => None,
    }
}

/// Whether the script of the selected example has to be read into the
/// editor: it has not been, or the editor holds another example's script.
pub fn needs_script_load(examples: &Vec<Example>, selected: usize, loaded: &Option<String>) -> (r:
    bool)
    requires
        selected < examples@.len(),
    ensures
        r == !(loaded is Some && loaded->Some_0@ == examples@[selected as int].id@),
{
    match loaded {
        Some(id) => !same_text(id.as_str(), examples[selected].id.as_str()),
        None => true,
    }
}

/// Which example the window shows, and whose script its editor holds.
pub struct Selection {
    /// Index of the selected example in the current list.
    pub selected: Option<usize>,
    /// Id of the example whose script the editor holds.
    pub loaded: Option<String>,
}

impl Selection {
    /// Nothing selected, nothing loaded.
    pub fn new() -> (r: Selection)
        ensures
            r.selected is None,
            r.loaded is None,
    {
        Selection { selected: None, loaded: None }
    }

    /// The user picks example `i`; its script is still to be read.
    pub fn select(&mut self, i: usize)
        ensures
            final(self).selected == Some(i),
            final(self).loaded is None,
    {
        self.selected = Some(i);
        self.loaded = None;
    }

    /// The editor now holds the script of the example `id`.
    pub fn mark_loaded(&mut self, id: &str)
        ensures
            final(self).selected == old(self).selected,
            final(self).loaded is Some,
            final(self).loaded->Some_0@ == id@,
    {
        self.loaded = Some(id.to_owned());
    }

    /// The list `previous` has been replaced by `fresh`: the selection follows
    /// the selected id into `fresh`, or is cleared where that id is gone. The result
    /// tells whether the selected example's script is to be read again and
    /// run, which is so exactly when something stays selected.
    pub fn after_reload(&mut self, previous: &Vec<Example>, fresh: &Vec<Example>) -> (r: bool)
        ensures
            r == final(self).selected is Some,
            final(self).loaded == old(self).loaded,
            match old(self).selected {
                Some(i) if i < previous@.len() => match final(self).selected {
                    None => forall|j: int|
                        0 <= j < fresh@.len() ==> (#[trigger] fresh@[j]).id@ != previous@[i as int].id@,
                    Some(k) => k < fresh@.len() && fresh@[k as int].id@ == previous@[i as int].id@
                        && forall|j: int|
                        0 <= j < k ==> (#[trigger] fresh@[j]).id@ != previous@[i as int].id@,
                },
                _ => final(self).selected is None,
            },
    {
        self.selected = reselect(previous, self.selected, fresh);
        self.selected.is_some()
    }

    /// The selected example, where the selection lies in `examples`, with
    /// whether its script is still to be read into the editor.
    pub fn current(&self, examples: &Vec<Example>) -> (r: Option<(usize, bool)>)
        ensures
            match self.selected {
                Some(i) if i < examples@.len() => r == Some((
                    i,
                    !(self.loaded is Some && self.loaded->Some_0@ == examples@[i as int].id@),
                )),
                _ => r is None,
            },
    {
        match self.selected {
            Some(i) => {
                if i < examples.len() {
                    Some((i, needs_script_load(examples, i, &self.loaded)))
                } else {
                    None
                }
            },
            None => None,
        }
    }
}

/// Two characters that are equal once ASCII letters are lowered.
pub open spec fn same_ignoring_ascii_case(a: char, b: char) -> bool {
    a == b || ('A' <= a <= 'Z' && (a as u32) + 32 == (b as u32)) || ('A' <= b <= 'Z' && (b as u32)
        + 32 == (a as u32))
}

/// `filter` occurs in `name` from index `k`, ignoring ASCII case.
pub open spec fn occurs_at(name: Seq<char>, filter: Seq<char>, k: int) -> bool {
    &&& 0 <= k
    &&& k + filter.len() <= name.len()
    &&& forall|j: int| 0 <= j < filter.len() ==> same_ignoring_ascii_case(name[k + j], filter[j])
}

/// How a name fares under the list's filter.
pub enum FilterMatch {
    /// The filter is empty: every name is shown as it is.
    All,
    /// The name is shown, with the first occurrence of the filter set apart.
    Hit { before: String, hit: String, after: String },
    /// The name is hidden.
    Miss,
}

fn same_ignoring_case(a: char, b: char) -> (r: bool)
    ensures
        r == same_ignoring_ascii_case(a, b),
{
    a == b || ('A' <= a && a <= 'Z' && (a as u32) + 32 == (b as u32)) || ('A' <= b && b <= 'Z' && (
    b as u32) + 32 == (a as u32))
}

/// Splits `name` around the first occurrence of `filter`, ignoring ASCII case.
pub fn match_filter(name: &str, filter: &str) -> (r: FilterMatch)
    ensures
        filter@.len() == 0 ==> r is All,
        filter@.len() > 0 ==> match r {
            FilterMatch::All => false,
            FilterMatch::Miss => forall|k: int| !occurs_at(name@, filter@, k),
            FilterMatch::Hit { before, hit, after } => {
                &&& before@ + hit@ + after@ == name@
                &&& occurs_at(name@, filter@, before@.len() as int)
                &&& hit@.len() == filter@.len()
                &&& forall|k: int| 0 <= k < before@.len() ==> !occurs_at(name@, filter@, k)
            },
        },
{
    let f = chars_of(filter);
    if f.len() == 0 {
        return FilterMatch::All;
    }
    let cs = chars_of(name);
    if cs.len() < f.len() {
        return FilterMatch::Miss;
    }
    let last = cs.len() - f.len();
    let mut k: usize = 0;
    while k <= last
        invariant
            cs@ == name@,
            f@ == filter@,
            last == cs@.len() - f@.len(),
            f@.len() > 0,
            f@.len() <= cs@.len() <= usize::MAX,
            forall|t: int| 0 <= t < k ==> !occurs_at(name@, filter@, t),
        decreases last + 1 - k,
    {
        let mut j: usize = 0;
        while j < f.len() && same_ignoring_case(cs[k + j], f[j])
            invariant
                cs@ == name@,
                f@ == filter@,
                k <= last,
                last == cs@.len() - f@.len(),
                f@.len() <= cs@.len() <= usize::MAX,
                j <= f@.len(),
                forall|t: int| 0 <= t < j ==> same_ignoring_ascii_case(cs@[k + t], f@[t]),
            decreases f@.len() - j,
        {
            j = j + 1;
        }
        if j == f.len() {
            let before = crate::text::char_slice(name, 0, k);
            let hit = crate::text::char_slice(name, k, k + f.len());
            let after = crate::text::char_slice(name, k + f.len(), cs.len());
            assert(before@ + hit@ + after@ =~= name@);
            return FilterMatch::Hit { before, hit, after };
        }
        assert(!same_ignoring_ascii_case(cs@[k + j], f@[j as int]));
        k = k + 1;
    }
    assert forall|t: int| !occurs_at(name@, filter@, t) by {
        if t > last {
            assert(t + filter@.len() > name@.len());
        }
    }
    FilterMatch::Miss
}

} // verus!
