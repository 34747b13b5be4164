//! Paths, held as text. Joining is the Unix rule of `Path::join`, proved
//! here; the component queries (`file_name`, `parent`, `extension`,
//! `file_stem`) are `std::path::Path`'s own, called through wrappers: the
//! file name and the parent are named, the extension and the stem are stated
//! over the file name as the documentation gives them. Lists of directories
//! are merged here too.
use vstd::prelude::*;

use crate::text::chars_of;
use crate::text::concat2;
use crate::text::concat3;
use crate::text::str_eq;
use crate::text::string_views;

verus! {

/// `Path::join` on Unix: an absolute `rel` replaces `base`; otherwise `rel`
/// is appended, with a `/` in between unless `base` is empty or already ends
/// with one.
pub open spec fn join(base: Seq<char>, rel: Seq<char>) -> Seq<char> {
    if rel.len() > 0 && rel[0] == '/' {
        rel
    } else if base.len() == 0 || base.last() == '/' {
        base + rel
    } else {
        base + seq!['/'] + rel
    }
}

/// `base.join(rel)`.
pub fn join_path(base: &str, rel: &str) -> (r: String)
    ensures
        r@ == join(base@, rel@),
{
    let b = chars_of(base);
    let r = chars_of(rel);
    if r.len() > 0 && r[0] == '/' {
        return String::from_str(rel);
    }
    if b.len() == 0 || b[b.len() - 1] == '/' {
        concat2(base, rel)
    } else {
        let r = concat3(base, "/", rel);
        proof {
            reveal_strlit("/");
        }
        r
    }
}

/// The view of an optional string.
pub open spec fn opt_view(o: Option<String>) -> Option<Seq<char>> {
    match o {
        Some(s) => Some(s@),
        None => None,
    }
}

/// What `Path::file_name` returns for the path `p`.
pub uninterp spec fn file_name_of(p: Seq<char>) -> Option<Seq<char>>;

/// What `Path::parent` returns for the path `p`.
pub uninterp spec fn parent_of(p: Seq<char>) -> Option<Seq<char>>;

/// The position of the last `.` in `name`, if it holds one.
pub open spec fn last_dot(name: Seq<char>) -> Option<int>
    decreases name.len(),
{
    if name.len() == 0 {
        None
    } else if name.last() == '.' {
        Some(name.len() - 1)
    } else {
        last_dot(name.drop_last())
    }
}

/// What `Path::extension` returns for the path `p`: nothing without a file
/// name, or when the file name holds no `.` but perhaps one that begins
/// it; otherwise the part of the file name after its last `.`.
pub open spec fn extension_of(p: Seq<char>) -> Option<Seq<char>> {
    match file_name_of(p) {
        None => None,
        Some(n) => match last_dot(n) {
            Some(k) => if k > 0 {
                Some(n.subrange(k + 1, n.len() as int))
            } else {
                None
            },
            None => None,
        },
    }
}

/// What `Path::file_stem` returns for the path `p`: nothing without a file
/// name; the whole file name when it holds no `.` but perhaps one that
/// begins it; otherwise the part of the file name before its last `.`.
pub open spec fn file_stem_of(p: Seq<char>) -> Option<Seq<char>> {
    match file_name_of(p) {
        None => None,
        Some(n) => match last_dot(n) {
            Some(k) => if k > 0 {
                Some(n.subrange(0, k))
            } else {
                Some(n)
            },
            None => Some(n),
        },
    }
}

/// Calls `std::path::Path::file_name`; the result is the final component of
/// the path, named `file_name_of`. The component of a path given as a `&str`
/// is valid UTF-8, so the conversion back to a `String` keeps it unchanged.
#[verifier::external_body]
pub(crate) fn file_name(p: &str) -> (r: Option<String>)
    ensures
        opt_view(r) == file_name_of(p@),
{
    match std::path::Path::new(p).file_name() {
        Some(n) => Some(n.to_string_lossy().into_owned()),
        None => None,
    }
}

/// Calls `std::path::Path::parent`; the result is the path without its final
/// component, named `parent_of`.
#[verifier::external_body]
pub(crate) fn parent(p: &str) -> (r: Option<String>)
    ensures
        opt_view(r) == parent_of(p@),
{
    match std::path::Path::new(p).parent() {
        Some(q) => Some(q.to_string_lossy().into_owned()),
        None => None,
    }
}

/// Calls `std::path::Path::extension`; the result is as its documentation
/// states, over the file name (see [`extension_of`]). A file name is a
/// normal component and never `..`, the one name `std` treats apart.
#[verifier::external_body]
pub(crate) fn extension(p: &str) -> (r: Option<String>)
    ensures
        opt_view(r) == extension_of(p@),
{
    match std::path::Path::new(p).extension() {
        Some(e) => Some(e.to_string_lossy().into_owned()),
        None => None,
    }
}

/// Calls `std::path::Path::file_stem`; the result is as its documentation
/// states, over the file name (see [`file_stem_of`]).
#[verifier::external_body]
pub(crate) fn file_stem(p: &str) -> (r: Option<String>)
    ensures
        opt_view(r) == file_stem_of(p@),
{
    match std::path::Path::new(p).file_stem() {
        Some(s) => Some(s.to_string_lossy().into_owned()),
        None => None,
    }
}

/// The directories of `base`, then those of `extra` that are not already
/// listed, each once, in order.
pub open spec fn merged(base: Seq<Seq<char>>, extra: Seq<Seq<char>>) -> Seq<Seq<char>>
    decreases extra.len(),
{
    if extra.len() == 0 {
        base
    } else {
        let prev = merged(base, extra.drop_last());
        if prev.contains(extra.last()) {
            prev
        } else {
            prev.push(extra.last())
        }
    }
}

/// Whether `dir` is among `dirs`.
fn listed(dirs: &Vec<String>, dir: &str) -> (r: bool)
    ensures
        r == string_views(dirs@).contains(dir@),
{
    let n = dirs.len();
    let mut i: usize = 0;
    while i < n
        invariant
            i <= n,
            n == dirs@.len(),
            forall|j: int| 0 <= j < i ==> dirs@[j]@ != dir@,
        decreases n - i,
    {
        if str_eq(dirs[i].as_str(), dir) {
            proof {
                assert(string_views(dirs@)[i as int] == dir@);
            }
            return true;
        }
        i += 1;
    }
    proof {
        if string_views(dirs@).contains(dir@) {
            let j = choose|j: int|
                0 <= j < string_views(dirs@).len() && string_views(dirs@)[j] == dir@;
            assert(dirs@[j]@ == dir@);
        }
    }
    false
}

/// The directories of `base`, then those of `extra` not yet listed (see
/// [`merged`]).
pub fn merge_dirs(base: Vec<String>, extra: &Vec<String>) -> (r: Vec<String>)
    ensures
        string_views(r@) == merged(string_views(base@), string_views(extra@)),
{
    let ghost b = string_views(base@);
    let ghost e = string_views(extra@);
    let mut r = base;
    let n = extra.len();
    let mut i: usize = 0;
    proof {
        assert(e.take(0) =~= Seq::<Seq<char>>::empty());
    }
    while i < n
        invariant
            i <= n,
            n == extra@.len(),
            e == string_views(extra@),
            string_views(r@) == merged(b, e.take(i as int)),
        decreases n - i,
    {
        proof {
            assert(e.take(i + 1).drop_last() =~= e.take(i as int));
            assert(e.take(i + 1).last() == extra@[i as int]@);
        }
        if !listed(&r, extra[i].as_str()) {
            let ghost before = string_views(r@);
            r.push(extra[i].clone());
            proof {
                assert(string_views(r@) =~= before.push(extra@[i as int]@));
            }
        }
        i += 1;
    }
    proof {
        assert(e.take(n as int) =~= e);
    }
    r
}

/// Law: merging keeps every directory of `base` in front, in order, adds
/// every directory of `extra`, lists nothing else, and lists no directory
/// twice when `base` does not.
pub proof fn lemma_merged(base: Seq<Seq<char>>, extra: Seq<Seq<char>>)
    ensures
        merged(base, extra).len() >= base.len(),
        merged(base, extra).take(base.len() as int) == base,
        forall|j: int| 0 <= j < extra.len() ==> merged(base, extra).contains(#[trigger] extra[j]),
        forall|d: Seq<char>| #[trigger]
            merged(base, extra).contains(d) ==> base.contains(d) || extra.contains(d),
        base.no_duplicates() ==> merged(base, extra).no_duplicates(),
    decreases extra.len(),
{
    if extra.len() == 0 {
        assert(base.take(base.len() as int) =~= base);
    } else {
        let q = extra.drop_last();
        lemma_merged(base, q);
        let prev = merged(base, q);
        let cur = merged(base, extra);
        if !prev.contains(extra.last()) {
            assert(cur.take(base.len() as int) =~= prev.take(base.len() as int));
        }
        assert forall|j: int| 0 <= j < extra.len() implies cur.contains(#[trigger] extra[j]) by {
            if j < extra.len() - 1 {
                assert(q[j] == extra[j]);
                let k = choose|k: int| 0 <= k < prev.len() && prev[k] == q[j];
                assert(cur[k] == extra[j]);
            } else if !prev.contains(extra.last()) {
                assert(cur[prev.len() as int] == extra[j]);
            }
        }
        assert forall|d: Seq<char>| #[trigger] cur.contains(d) implies base.contains(d)
            || extra.contains(d) by {
            if prev.contains(d) {
                if q.contains(d) {
                    let k = choose|k: int| 0 <= k < q.len() && q[k] == d;
                    assert(extra[k] == d);
                }
            } else {
                assert(d == extra.last());
                assert(extra[extra.len() - 1] == d);
            }
        }
    }
}

} // verus!
