//! File names and extensions of slash-separated paths, read the way
//! `std::path::Path` reads them on Unix.

use crate::text::{char_slice, chars_of, same_chars};
use vstd::prelude::*;

verus! {

/// The index of the last `c` in `p`, or -1 where there is none.
pub open spec fn last_index_of(p: Seq<char>, c: char) -> int
    decreases p.len(),
{
    if p.len() == 0 {
        -1
    } else if p.last() == c {
        p.len() - 1
    } else {
        last_index_of(p.drop_last(), c)
    }
}

/// Where the file name of `p` lies in it: trailing separators and `.`
/// components are passed over; a path that ends in `..`, or that has no
/// component left, has no file name.
pub open spec fn file_name_span(p: Seq<char>) -> Option<(int, int)>
    decreases p.len(),
{
    if p.len() == 0 {
        None
    } else if p.last() == '/' {
        file_name_span(p.drop_last())
    } else if p.len() >= 2 && p.last() == '.' && p[p.len() - 2] == '/' {
        file_name_span(p.drop_last())
    } else if p.len() == 1 && p[0] == '.' {
        None
    } else {
        let k = last_index_of(p, '/');
        let name = p.subrange(k + 1, p.len() as int);
        if name == seq!['.', '.'] {
            None
        } else {
            Some((k + 1, p.len() as int))
        }
    }
}

/// The position in `p` of the dot that starts the extension of its file name:
/// the last dot of the name, unless that dot begins the name.
pub open spec fn extension_dot(p: Seq<char>) -> Option<int> {
    match file_name_span(p) {
        None => None,
        Some(span) => {
            let d = last_index_of(p.subrange(span.0, span.1), '.');
            if d > 0 {
                Some(span.0 + d)
            } else {
                None
            }
        },
    }
}

/// The extension of the file name of `p`, without its dot.
pub open spec fn extension(p: Seq<char>) -> Option<Seq<char>> {
    match extension_dot(p) {
        None => None,
        Some(d) => Some(p.subrange(d + 1, file_name_span(p).unwrap().1)),
    }
}

/// `p` with the extension of its file name replaced by `ext` (removed where
/// `ext` is empty); `p` itself where it has no file name.
pub open spec fn with_extension_spec(p: Seq<char>, ext: Seq<char>) -> Seq<char> {
    match file_name_span(p) {
        None => p,
        Some(span) => {
            let stem_end = match extension_dot(p) {
                Some(d) => d,
                None => span.1,
            };
            if ext.len() == 0 {
                p.subrange(0, stem_end)
            } else {
                p.subrange(0, stem_end) + seq!['.'] + ext
            }
        },
    }
}

/// The extension that script files carry.
pub open spec fn script_extension() -> Seq<char> {
    seq!['r', 'h', 'a', 'i']
}

/// The extension of rendered documentation's source text.
pub open spec fn markdown_extension() -> Seq<char> {
    seq!['m', 'd']
}

pub proof fn lemma_last_index_of(p: Seq<char>, c: char)
    ensures
        -1 <= last_index_of(p, c) < p.len(),
        last_index_of(p, c) >= 0 ==> p[last_index_of(p, c)] == c,
        forall|j: int| last_index_of(p, c) < j < p.len() ==> p[j] != c,
    decreases p.len(),
{
    if p.len() > 0 && p.last() != c {
        lemma_last_index_of(p.drop_last(), c);
        assert forall|j: int| last_index_of(p, c) < j < p.len() implies p[j] != c by {
            if j < p.len() - 1 {
                assert(p[j] == p.drop_last()[j]);
            }
        }
    }
}

/// One past the last `c` in `cs[from..end]`, or `from` where there is none.
fn after_last(cs: &Vec<char>, from: usize, end: usize, c: char) -> (r: usize)
    requires
        from <= end <= cs@.len(),
    ensures
        from <= r <= end,
        r == from + last_index_of(cs@.subrange(from as int, end as int), c) + 1,
{
    let mut j = end;
    while j > from
        invariant
            from <= j <= end <= cs@.len(),
            last_index_of(cs@.subrange(from as int, end as int), c) == last_index_of(
                cs@.subrange(from as int, j as int),
                c,
            ),
        decreases j - from,
    {
        if cs[j - 1] == c {
            return j;
        }
        assert(cs@.subrange(from as int, j as int).drop_last() =~= cs@.subrange(
            from as int,
            j - 1,
        ));
        j = j - 1;
    }
    j
}

/// Where the file name of the path `cs` lies in it.
fn name_span(cs: &Vec<char>) -> (r: Option<(usize, usize)>)
    ensures
        match r {
            None => file_name_span(cs@) is None,
            Some(span) => file_name_span(cs@) == Some((span.0 as int, span.1 as int)) && span.0
                <= span.1 <= cs@.len(),
        },
{
    let mut end = cs.len();
    assert(cs@.subrange(0, end as int) =~= cs@);
    loop
        invariant
            end <= cs@.len(),
            file_name_span(cs@) == file_name_span(cs@.subrange(0, end as int)),
        decreases end,
    {
        let ghost p = cs@.subrange(0, end as int);
        if end == 0 {
            return None;
        }
        assert(p.drop_last() =~= cs@.subrange(0, end - 1));
        if cs[end - 1] == '/' || (end >= 2 && cs[end - 1] == '.' && cs[end - 2] == '/') {
            end = end - 1;
        } else if end == 1 && cs[0] == '.' {
            return None;
        } else {
            let start = after_last(cs, 0, end, '/');
            proof {
                lemma_last_index_of(p, '/');
            }
            if end - start == 2 && cs[start] == '.' && cs[start + 1] == '.' {
                assert(p.subrange(start as int, end as int) =~= seq!['.', '.']);
                return None;
            }
            assert(p.subrange(start as int, end as int) != seq!['.', '.']) by {
                if p.subrange(start as int, end as int) == seq!['.', '.'] {
                    let ghost two: Seq<char> = seq!['.', '.'];
                    assert(two.len() == 2);
                    assert(p.subrange(start as int, end as int).len() == end - start);
                    assert(cs@[start as int] == p.subrange(start as int, end as int)[0]);
                    assert(cs@[start + 1] == p.subrange(start as int, end as int)[1]);
                }
            }
            return Some((start, end));
        }
    }
}

/// Where the extension's dot stands in the path `cs`, with the end of the
/// file name.
fn dot_of_extension(cs: &Vec<char>) -> (r: Option<(usize, usize)>)
    ensures
        match r {
            None => extension_dot(cs@) is None,
            Some((d, e)) => {
                &&& extension_dot(cs@) == Some(d as int)
                &&& file_name_span(cs@) is Some
                &&& file_name_span(cs@).unwrap().1 == e
                &&& d < e <= cs@.len()
            },
        },
{
    match name_span(cs) {
        None => None,
        Some((s, e)) => {
            let a = after_last(cs, s, e, '.');
            proof {
                lemma_last_index_of(cs@.subrange(s as int, e as int), '.');
            }
            if a - s > 1 {
                Some((a - 1, e))
            } else {
                None
            }
        },
    }
}

/// Whether the file name of `path` has the extension `ext`.
pub fn has_extension(path: &str, ext: &str) -> (r: bool)
    ensures
        r == (extension(path@) == Some(ext@)),
{
    let cs = chars_of(path);
    let wanted = chars_of(ext);
    match dot_of_extension(&cs) {
        None => false,
        Some((d, e)) => same_chars(&cs, d + 1, e, &wanted),
    }
}

/// Whether `path` names a script file.
pub fn is_script_path(path: &str) -> (r: bool)
    ensures
        r == (extension(path@) == Some(script_extension())),
{
    proof {
        reveal_strlit("rhai");
    }
    assert("rhai"@ =~= script_extension());
    has_extension(path, "rhai")
}

/// `path` with the extension of its file name replaced by `ext`.
pub fn with_extension(path: &str, ext: &str) -> (r: String)
    ensures
        r@ == with_extension_spec(path@, ext@),
{
    let cs = chars_of(path);
    match name_span(&cs) {
        None => path.to_owned(),
        Some((_s, e)) => {
            let stem_end = match dot_of_extension(&cs) {
                Some((d, _)) => d,
                None => e,
            };
            let mut r = char_slice(path, 0, stem_end);
            if !ext.is_empty() {
                r.append(".");
                r.append(ext);
                proof {
                    reveal_strlit(".");
                }
                assert(r@ =~= path@.subrange(0, stem_end as int) + seq!['.'] + ext@);
            }
            r
        },
    }
}

/// The path of the text a rendered documentation page is made from: the page's
/// path with the markdown extension.
pub fn markdown_path(doc: &str) -> (r: String)
    ensures
        r@ == with_extension_spec(doc@, markdown_extension()),
{
    proof {
        reveal_strlit("md");
    }
    assert("md"@ =~= markdown_extension());
    with_extension(doc, "md")
}

} // verus!
