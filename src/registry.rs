//! The examples of the catalogue, built from manifest entries and their
//! documentation, and listed in order of id.

use crate::doc::{doc_summary, parse_doc};
use crate::paths::{markdown_extension, markdown_path, with_extension_spec};
use crate::text::chars_of;
use vstd::prelude::*;

verus! {

/// One entry of the manifest: an id, a display name, the script's path and the
/// path of its rendered documentation.
pub struct ManifestEntry {
    pub id: String,
    pub name: String,
    pub script: String,
    pub doc: String,
}

/// Metadata of one catalogued script.
#[derive(Clone, Debug)]
pub struct Example {
    /// Unique identifier.
    pub id: String,
    /// Display name.
    pub name: String,
    /// First line of text of the documentation.
    pub description: String,
    /// Text of the documentation's note line, if it has one.
    pub note: Option<String>,
    /// Path of the documentation's source text.
    pub doc_path: String,
    /// Path of the rendered documentation.
    pub doc_html_path: String,
    /// Path of the script.
    pub script_path: String,
}

impl Example {
    /// The example of a manifest entry, with the description and note read
    /// from `doc_text`, the text found at the entry's markdown path (empty
    /// where there is none).
    pub fn from_entry(entry: ManifestEntry, doc_text: &str) -> (r: Example)
        ensures
            r.id@ == entry.id@,
            r.name@ == entry.name@,
            r.script_path@ == entry.script@,
            r.doc_html_path@ == entry.doc@,
            r.doc_path@ == with_extension_spec(entry.doc@, markdown_extension()),
            (r.description@, r.note.deep_view()) == doc_summary(doc_text@),
    {
        let doc_path = markdown_path(entry.doc.as_str());
        let (description, note) = parse_doc(doc_text);
        Example {
            id: entry.id,
            name: entry.name,
            description,
            note,
            doc_path,
            doc_html_path: entry.doc,
            script_path: entry.script,
        }
    }
}

/// Strict lexicographic order of ids, character by character: the order of
/// `String`'s comparison, since UTF-8 keeps the order of code points.
pub open spec fn id_less(a: Seq<char>, b: Seq<char>) -> bool
    decreases a.len(),
{
    if a.len() == 0 {
        b.len() > 0
    } else if b.len() == 0 {
        false
    } else if a[0] != b[0] {
        a[0] < b[0]
    } else {
        id_less(a.drop_first(), b.drop_first())
    }
}

/// No example comes before one with a smaller id.
pub open spec fn sorted_by_id(s: Seq<Example>) -> bool {
    forall|i: int, j: int| 0 <= i < j < s.len() ==> !id_less(#[trigger] s[j].id@, #[trigger] s[i].id@)
}

/// Where an example with id `x` goes in `r`: before the first example with a
/// larger id, so that it follows those with an equal one.
pub open spec fn insert_pos(r: Seq<Example>, x: Seq<char>) -> int
    decreases r.len(),
{
    if r.len() == 0 {
        0
    } else if id_less(x, r[0].id@) {
        0
    } else {
        1 + insert_pos(r.drop_first(), x)
    }
}

/// The examples of `s` in order of id; those with equal ids keep their order.
pub open spec fn sort_by_id(s: Seq<Example>) -> Seq<Example>
    decreases s.len(),
{
    if s.len() == 0 {
        s
    } else {
        let r = sort_by_id(s.drop_last());
        r.insert(insert_pos(r, s.last().id@), s.last())
    }
}

pub proof fn lemma_id_less_irreflexive(a: Seq<char>)
    ensures
        !id_less(a, a),
    decreases a.len(),
{
    if a.len() > 0 {
        lemma_id_less_irreflexive(a.drop_first());
    }
}

pub proof fn lemma_id_less_transitive(a: Seq<char>, b: Seq<char>, c: Seq<char>)
    requires
        id_less(a, b),
        id_less(b, c),
    ensures
        id_less(a, c),
    decreases a.len(),
{
    if a.len() > 0 && b.len() > 0 && c.len() > 0 && a[0] == b[0] && b[0] == c[0] {
        lemma_id_less_transitive(a.drop_first(), b.drop_first(), c.drop_first());
    }
}

pub proof fn lemma_insert_pos(r: Seq<Example>, x: Seq<char>)
    ensures
        0 <= insert_pos(r, x) <= r.len(),
        forall|i: int| 0 <= i < insert_pos(r, x) ==> !id_less(x, #[trigger] r[i].id@),
        insert_pos(r, x) < r.len() ==> id_less(x, r[insert_pos(r, x)].id@),
    decreases r.len(),
{
    if r.len() > 0 && !id_less(x, r[0].id@) {
        lemma_insert_pos(r.drop_first(), x);
        assert forall|i: int| 0 <= i < insert_pos(r, x) implies !id_less(x, #[trigger] r[i].id@) by {
            if i > 0 {
                assert(r[i] == r.drop_first()[i - 1]);
            }
        }
    }
}

/// `insert_pos` is the first index whose id is larger than `x`.
pub proof fn lemma_insert_pos_is_first(r: Seq<Example>, x: Seq<char>, k: int)
    requires
        0 <= k <= r.len(),
        forall|i: int| 0 <= i < k ==> !id_less(x, #[trigger] r[i].id@),
        k < r.len() ==> id_less(x, r[k].id@),
    ensures
        insert_pos(r, x) == k,
    decreases r.len(),
{
    if r.len() > 0 && k > 0 {
        assert(!id_less(x, r[0].id@));
        assert forall|i: int| 0 <= i < k - 1 implies !id_less(x, #[trigger] r.drop_first()[i].id@) by {
            assert(r.drop_first()[i] == r[i + 1]);
        }
        lemma_insert_pos_is_first(r.drop_first(), x, k - 1);
    }
}

pub proof fn lemma_insert_sorted(r: Seq<Example>, e: Example)
    requires
        sorted_by_id(r),
    ensures
        sorted_by_id(r.insert(insert_pos(r, e.id@), e)),
{
    let k = insert_pos(r, e.id@);
    lemma_insert_pos(r, e.id@);
    let s = r.insert(k, e);
    assert forall|i: int, j: int| 0 <= i < j < s.len() implies !id_less(
        #[trigger] s[j].id@,
        #[trigger] s[i].id@,
    ) by {
        if j < k {
            assert(s[i] == r[i] && s[j] == r[j]);
        } else if j == k {
            assert(s[i] == r[i]);
        } else if i > k {
            assert(s[i] == r[i - 1] && s[j] == r[j - 1]);
        } else if i == k {
            // s[j] is r[j - 1] with k <= j - 1; e's id is below r[k]'s.
            assert(s[j] == r[j - 1]);
            if id_less(r[j - 1].id@, e.id@) {
                lemma_id_less_transitive(r[j - 1].id@, e.id@, r[k].id@);
                if j - 1 == k {
                    lemma_id_less_irreflexive(r[k].id@);
                }
            }
        } else {
            assert(s[i] == r[i] && s[j] == r[j - 1]);
        }
    }
}

/// Sorting a sequence that is already in order of id changes nothing.
pub proof fn lemma_sort_sorted_is_identity(s: Seq<Example>)
    requires
        sorted_by_id(s),
    ensures
        sort_by_id(s) == s,
    decreases s.len(),
{
    if s.len() > 0 {
        let p = s.drop_last();
        assert(sorted_by_id(p)) by {
            assert forall|i: int, j: int| 0 <= i < j < p.len() implies !id_less(
                #[trigger] p[j].id@,
                #[trigger] p[i].id@,
            ) by {
                assert(p[i] == s[i] && p[j] == s[j]);
            }
        }
        lemma_sort_sorted_is_identity(p);
        assert forall|i: int| 0 <= i < p.len() implies !id_less(s.last().id@, #[trigger] p[i].id@) by {
            assert(p[i] == s[i]);
        }
        lemma_insert_pos_is_first(p, s.last().id@, p.len() as int);
        assert(p.insert(p.len() as int, s.last()) =~= s);
    }
}

/// Sorting keeps every example and orders them by id.
pub proof fn lemma_sort_by_id(s: Seq<Example>)
    ensures
        sorted_by_id(sort_by_id(s)),
        sort_by_id(s).to_multiset() == s.to_multiset(),
        sort_by_id(s).len() == s.len(),
    decreases s.len(),
{
    broadcast use vstd::seq_lib::to_multiset_insert, vstd::seq_lib::to_multiset_build;

    if s.len() == 0 {
    } else {
        let p = s.drop_last();
        lemma_sort_by_id(p);
        let r = sort_by_id(p);
        lemma_insert_pos(r, s.last().id@);
        lemma_insert_sorted(r, s.last());
        assert(s =~= p.push(s.last()));
    }
}

/// The listing of a registry holds each of its examples once (as many as there
/// are), sorted by id; listing an already sorted sequence gives it back as it
/// is, so listing again yields the same content.
pub proof fn lemma_listing_sorted_complete_idempotent(s: Seq<Example>)
    ensures
        sort_by_id(s).len() == s.len(),
        sort_by_id(s).to_multiset() == s.to_multiset(),
        sorted_by_id(sort_by_id(s)),
        sort_by_id(sort_by_id(s)) == sort_by_id(s),
{
    lemma_sort_by_id(s);
    lemma_sort_sorted_is_identity(sort_by_id(s));
}

/// No two examples share an id.
pub open spec fn ids_unique(s: Seq<Example>) -> bool {
    forall|i: int, j: int| 0 <= i < j < s.len() ==> (#[trigger] s[i]).id@ != (#[trigger] s[j]).id@
}

pub proof fn lemma_id_less_total(a: Seq<char>, b: Seq<char>)
    requires
        a != b,
    ensures
        id_less(a, b) || id_less(b, a),
    decreases a.len(),
{
    if a.len() > 0 && b.len() > 0 && a[0] == b[0] {
        assert(a.drop_first() != b.drop_first()) by {
            if a.drop_first() == b.drop_first() {
                assert(a =~= seq![a[0]] + a.drop_first());
                assert(b =~= seq![b[0]] + b.drop_first());
            }
        }
        lemma_id_less_total(a.drop_first(), b.drop_first());
    } else if a.len() == 0 && b.len() == 0 {
        assert(a =~= b);
    }
}

proof fn lemma_sort_strict(s: Seq<Example>)
    requires
        ids_unique(s),
    ensures
        forall|i: int, j: int|
            0 <= i < j < sort_by_id(s).len() ==> id_less(
                (#[trigger] sort_by_id(s)[i]).id@,
                (#[trigger] sort_by_id(s)[j]).id@,
            ),
    decreases s.len(),
{
    broadcast use vstd::seq_lib::to_multiset_contains;

    if s.len() > 0 {
        let p = s.drop_last();
        let x = s.last();
        assert(ids_unique(p)) by {
            assert forall|i: int, j: int| 0 <= i < j < p.len() implies (#[trigger] p[i]).id@
                != (#[trigger] p[j]).id@ by {
                assert(p[i] == s[i] && p[j] == s[j]);
            }
        }
        lemma_sort_strict(p);
        lemma_sort_by_id(p);
        let r = sort_by_id(p);
        let k = insert_pos(r, x.id@);
        lemma_insert_pos(r, x.id@);
        assert forall|i: int| 0 <= i < r.len() implies (#[trigger] r[i]).id@ != x.id@ by {
            assert(r.to_multiset().count(r[i]) > 0);
            assert(p.contains(r[i]));
            let j = choose|j: int| 0 <= j < p.len() && p[j] == r[i];
            assert(s[j] == p[j]);
            assert(s[s.len() - 1] == x);
        }
        let t = r.insert(k, x);
        assert forall|i: int, j: int| 0 <= i < j < t.len() implies id_less(
            (#[trigger] t[i]).id@,
            (#[trigger] t[j]).id@,
        ) by {
            if j < k {
                assert(t[i] == r[i] && t[j] == r[j]);
            } else if j == k {
                assert(t[i] == r[i]);
                lemma_id_less_total(r[i].id@, x.id@);
            } else if i > k {
                assert(t[i] == r[i - 1] && t[j] == r[j - 1]);
            } else if i == k {
                assert(t[j] == r[j - 1]);
                if j - 1 > k {
                    lemma_id_less_transitive(x.id@, r[k].id@, r[j - 1].id@);
                }
            } else {
                assert(t[i] == r[i] && t[j] == r[j - 1]);
            }
        }
    }
}

/// Where no two examples share an id, the listing puts each id strictly
/// before the next.
pub proof fn lemma_listing_strict_when_ids_unique(s: Seq<Example>)
    requires
        ids_unique(s),
    ensures
        forall|i: int, j: int|
            0 <= i < j < sort_by_id(s).len() ==> id_less(
                (#[trigger] sort_by_id(s)[i]).id@,
                (#[trigger] sort_by_id(s)[j]).id@,
            ),
        ids_unique(sort_by_id(s)),
{
    lemma_sort_strict(s);
    let r = sort_by_id(s);
    assert forall|i: int, j: int| 0 <= i < j < r.len() implies (#[trigger] r[i]).id@
        != (#[trigger] r[j]).id@ by {
        assert(id_less(r[i].id@, r[j].id@));
        if r[i].id@ == r[j].id@ {
            lemma_id_less_irreflexive(r[i].id@);
        }
    }
}

/// Whether `a` comes before `b` in the order of ids.
pub fn id_precedes(a: &str, b: &str) -> (r: bool)
    ensures
        r == id_less(a@, b@),
{
    let x = chars_of(a);
    let y = chars_of(b);
    let mut i: usize = 0;
    assert(x@.subrange(0, x@.len() as int) =~= x@);
    assert(y@.subrange(0, y@.len() as int) =~= y@);
    while i < x.len() && i < y.len() && x[i] == y[i]
        invariant
            x@ == a@,
            y@ == b@,
            i <= x@.len(),
            i <= y@.len(),
            id_less(a@, b@) == id_less(
                x@.subrange(i as int, x@.len() as int),
                y@.subrange(i as int, y@.len() as int),
            ),
        decreases x@.len() - i,
    {
        assert(x@.subrange(i as int, x@.len() as int).drop_first() =~= x@.subrange(
            i + 1,
            x@.len() as int,
        ));
        assert(y@.subrange(i as int, y@.len() as int).drop_first() =~= y@.subrange(
            i + 1,
            y@.len() as int,
        ));
        i = i + 1;
    }
    if i == x.len() {
        i < y.len()
    } else if i == y.len() {
        false
    } else {
        x[i] < y[i]
    }
}

/// The examples of `v` sorted by id; those with equal ids keep their order.
pub fn sort_examples(v: Vec<Example>) -> (r: Vec<Example>)
    ensures
        r@ == sort_by_id(v@),
{
    let n = v.len();
    let mut rest = v;
    let mut r: Vec<Example> = Vec::new();
    let mut i: usize = 0;
    while i < n
        invariant
            n == v@.len(),
            i <= n,
            rest@ == v@.subrange(i as int, n as int),
            r@ == sort_by_id(v@.subrange(0, i as int)),
        decreases n - i,
    {
        let x = rest.remove(0);
        let mut k: usize = 0;
        while k < r.len() && !id_precedes(x.id.as_str(), r[k].id.as_str())
            invariant
                k <= r@.len(),
                forall|t: int| 0 <= t < k ==> !id_less(x.id@, #[trigger] r@[t].id@),
            decreases r@.len() - k,
        {
            k = k + 1;
        }
        proof {
            lemma_insert_pos_is_first(r@, x.id@, k as int);
            assert(v@.subrange(0, i + 1).drop_last() =~= v@.subrange(0, i as int));
            assert(rest@ =~= v@.subrange(i + 1, n as int));
        }
        r.insert(k, x);
        i = i + 1;
    }
    assert(v@.subrange(0, n as int) =~= v@);
    r
}

/// The examples of the catalogue, as built from the manifest.
pub struct ExampleRegistry {
    pub examples: Vec<Example>,
}

impl ExampleRegistry {
    /// A registry of the examples of the manifest's entries, in manifest order;
    /// `docs[i]` is the documentation text of `entries[i]`.
    pub fn from_entries(entries: Vec<ManifestEntry>, docs: &Vec<String>) -> (r: ExampleRegistry)
        requires
            entries@.len() == docs@.len(),
        ensures
            r.examples@.len() == entries@.len(),
            forall|i: int|
                0 <= i < entries@.len() ==> {
                    let e = #[trigger] r.examples@[i];
                    &&& e.id@ == entries@[i].id@
                    &&& e.name@ == entries@[i].name@
                    &&& e.script_path@ == entries@[i].script@
                    &&& e.doc_html_path@ == entries@[i].doc@
                    &&& e.doc_path@ == with_extension_spec(entries@[i].doc@, markdown_extension())
                    &&& (e.description@, e.note.deep_view()) == doc_summary(docs@[i]@)
                },
    {
        let n = entries.len();
        let mut rest = entries;
        let mut examples: Vec<Example> = Vec::new();
        let mut i: usize = 0;
        while i < n
            invariant
                n == entries@.len(),
                n == docs@.len(),
                i <= n,
                rest@ == entries@.subrange(i as int, n as int),
                examples@.len() == i,
                forall|j: int|
                    0 <= j < i ==> {
                        let e = #[trigger] examples@[j];
                        &&& e.id@ == entries@[j].id@
                        &&& e.name@ == entries@[j].name@
                        &&& e.script_path@ == entries@[j].script@
                        &&& e.doc_html_path@ == entries@[j].doc@
                        &&& e.doc_path@ == with_extension_spec(
                            entries@[j].doc@,
                            markdown_extension(),
                        )
                        &&& (e.description@, e.note.deep_view()) == doc_summary(docs@[j]@)
                    },
            decreases n - i,
        {
            let entry = rest.remove(0);
            assert(entry == entries@[i as int]);
            let ex = Example::from_entry(entry, docs[i].as_str());
            examples.push(ex);
            i = i + 1;
            assert(rest@ =~= entries@.subrange(i as int, n as int));
        }
        ExampleRegistry { examples }
    }

    /// All examples, sorted by id.
    pub fn all(self) -> (r: Vec<Example>)
        ensures
            r@ == sort_by_id(self.examples@),
            r@.len() == self.examples@.len(),
            sorted_by_id(r@),
            r@.to_multiset() == self.examples@.to_multiset(),
            ids_unique(self.examples@) ==> ids_unique(r@),
    {
        proof {
            lemma_sort_by_id(self.examples@);
            if ids_unique(self.examples@) {
                lemma_listing_strict_when_ids_unique(self.examples@);
            }
        }
        sort_examples(self.examples)
    }
}

} // verus!
