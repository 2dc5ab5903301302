//! Paths as text with `/` between components: the derivations the stages
//! use to name their outputs. A path's components are read as the standard
//! library reads them on Unix-like systems: `/` after the last component
//! does not count, nor does a `.` component behind a `/`.

use crate::text::{
    lacks, last_index, last_index_of, lemma_last_index_append, lemma_last_index_bounds,
    lemma_last_index_take,
};
use vstd::prelude::*;

verus! {

/// `p` ends in something that belongs to no component: a `/`, or a `.`
/// that stands alone behind a `/`.
pub open spec fn trailing(p: Seq<char>) -> bool {
    p.len() > 0 && (p.last() == '/' || (p.last() == '.' && p.len() >= 2 && p[p.len() - 2] == '/'))
}

/// Where the last component of `p` ends: the length of `p` without what
/// trails behind it. Zero where `p` has no component at all, as the empty
/// path and the root.
pub open spec fn body_end(p: Seq<char>) -> int
    decreases p.len(),
{
    if trailing(p) {
        body_end(p.drop_last())
    } else {
        p.len() as int
    }
}

/// Where the last component of `p` begins.
pub open spec fn file_name_start(p: Seq<char>) -> int {
    last_index(p.take(body_end(p)), '/') + 1
}

/// The last component of `p`; empty where `p` has none.
pub open spec fn last_component(p: Seq<char>) -> Seq<char> {
    p.subrange(file_name_start(p), body_end(p))
}

/// `name` is `.` or `..`, which name no file.
pub open spec fn is_dots(name: Seq<char>) -> bool {
    ||| (name.len() == 1 && name[0] == '.')
    ||| (name.len() == 2 && name[0] == '.' && name[1] == '.')
}

/// The last component of `p` names a file: there is one, and it is neither
/// `.` nor `..`.
pub open spec fn has_file_name(p: Seq<char>) -> bool {
    last_component(p).len() > 0 && !is_dots(last_component(p))
}

/// The file name of `p`; empty where its last component names no file.
pub open spec fn file_name_spec(p: Seq<char>) -> Seq<char> {
    if has_file_name(p) {
        last_component(p)
    } else {
        Seq::empty()
    }
}

/// Where the extension's dot stands in `p`, or the end of the last
/// component when that has no extension. A dot that opens the component
/// marks a hidden file, not an extension.
pub open spec fn stem_end(p: Seq<char>) -> int {
    let dot = last_index(last_component(p), '.');
    if dot > 0 {
        file_name_start(p) + dot
    } else {
        body_end(p)
    }
}

/// The file name of `p` is two dots and an extension, and nothing trails
/// behind it.
pub open spec fn is_dotted_parent(p: Seq<char>) -> bool {
    let name = last_component(p);
    body_end(p) == p.len() && name.len() > 2 && name[0] == '.' && last_index(name, '.') == 1
}

/// `p` with the extension of its file name replaced by `ext`, or with
/// `.ext` added when it has none; what trails behind the file name is
/// dropped. An empty `ext` only removes the extension. A path without a
/// file name stays as it is. A file name of two dots and an extension
/// with nothing behind it loses the extension and gets none, as in the
/// standard library.
pub open spec fn with_extension_spec(p: Seq<char>, ext: Seq<char>) -> Seq<char> {
    if !has_file_name(p) {
        p
    } else if is_dotted_parent(p) {
        p.take(file_name_start(p) + 2)
    } else if ext.len() == 0 {
        p.take(stem_end(p))
    } else {
        p.take(stem_end(p)) + seq!['.'] + ext
    }
}

/// `p` has a parent: it has a last component to leave out.
pub open spec fn has_parent(p: Seq<char>) -> bool {
    body_end(p) > 0
}

/// The parent of a path that has one: the path without its last component
/// and without what trails behind the component before it; the root where
/// nothing but the root is left.
pub open spec fn parent_spec(p: Seq<char>) -> Seq<char> {
    let rest = p.take(file_name_start(p));
    if body_end(rest) == 0 && rest.len() > 0 {
        seq!['/']
    } else {
        rest.take(body_end(rest))
    }
}

/// `name` inside `dir`. A `name` that begins at the root replaces `dir`;
/// the empty directory stands for the current one.
pub open spec fn join_spec(dir: Seq<char>, name: Seq<char>) -> Seq<char> {
    if name.len() > 0 && name[0] == '/' {
        name
    } else if dir.len() == 0 {
        name
    } else if dir.last() == '/' {
        dir + name
    } else {
        dir + seq!['/'] + name
    }
}

/// The body of a path ends within the path.
pub proof fn lemma_body_end_bounds(p: Seq<char>)
    ensures
        0 <= body_end(p) <= p.len(),
        body_end(p) > 0 ==> p[body_end(p) - 1] != '/',
    decreases p.len(),
{
    if trailing(p) {
        lemma_body_end_bounds(p.drop_last());
        if body_end(p) > 0 {
            assert(p.drop_last()[body_end(p) - 1] == p[body_end(p) - 1]);
        }
    }
}

/// Replacing the extension of a file name by one without a `/` leaves the
/// file where it is: the new path has the parent of the old.
pub proof fn lemma_with_extension_keeps_parent(p: Seq<char>, ext: Seq<char>)
    requires
        has_file_name(p),
        ext.len() > 0,
        lacks(ext, '/'),
    ensures
        has_parent(with_extension_spec(p, ext)),
        parent_spec(with_extension_spec(p, ext)) == parent_spec(p),
{
    let end = body_end(p);
    let q = p.take(end);
    let start = file_name_start(p);
    let name = last_component(p);
    let se = stem_end(p);
    lemma_body_end_bounds(p);
    lemma_last_index_bounds(q, '/');
    lemma_last_index_bounds(name, '.');
    assert(start < se <= end);
    let w = with_extension_spec(p, ext);
    if is_dotted_parent(p) {
        assert(q =~= p);
        assert(w.last() == name[1]);
        assert(w[w.len() - 2] == name[0]);
        assert(name[1] == '.');
        assert(!trailing(w));
        assert(body_end(w) == w.len());
        assert(w.take(w.len() as int) =~= w);
        lemma_last_index_take(p, '/', start + 2);
        assert(file_name_start(w) == start);
        assert(w.take(start) =~= p.take(start));
        return ;
    }
    let tail = seq!['.'] + ext;
    assert(w =~= p.take(se) + tail);
    assert(w.last() == ext.last());
    assert(!trailing(w)) by {
        if w.len() >= 2 {
            if ext.len() >= 2 {
                assert(w[w.len() - 2] == ext[ext.len() - 2]);
            } else {
                assert(w[w.len() - 2] == '.');
            }
        }
    }
    assert(body_end(w) == w.len());
    assert(w.take(w.len() as int) =~= w);
    assert(p.take(se) =~= q.take(se));
    lemma_last_index_take(q, '/', se);
    lemma_last_index_bounds(tail, '/');
    assert(last_index(tail, '/') == -1) by {
        if last_index(tail, '/') > 0 {
            assert(tail[last_index(tail, '/')] == ext[last_index(tail, '/') - 1]);
        }
    }
    lemma_last_index_append(p.take(se), tail, '/');
    assert(file_name_start(w) == start);
    assert(w.take(start) =~= p.take(start));
}

/// Whether the text before position `i` of `path` ends in what belongs to
/// no component.
fn is_trailing(path: &str, i: usize) -> (r: bool)
    requires
        0 < i <= path@.len(),
    ensures
        r == trailing(path@.take(i as int)),
{
    let last = path.get_char(i - 1);
    last == '/' || (last == '.' && i >= 2 && path.get_char(i - 2) == '/')
}

/// Where the last component of the first `limit` characters of `path`
/// ends.
fn body_end_of(path: &str, limit: usize) -> (r: usize)
    requires
        limit <= path@.len(),
    ensures
        r == body_end(path@.take(limit as int)),
        r <= limit,
{
    let mut i: usize = limit;
    while i > 0 && is_trailing(path, i)
        invariant
            i <= limit <= path@.len(),
            body_end(path@.take(limit as int)) == body_end(path@.take(i as int)),
        decreases i,
    {
        proof {
            assert(path@.take(i as int).drop_last() =~= path@.take(i - 1));
        }
        i -= 1;
    }
    i
}

/// Where the last component of `path` begins, given where it ends.
fn name_start_of(path: &str, end: usize) -> (r: usize)
    requires
        end == body_end(path@),
        end <= path@.len(),
    ensures
        r == file_name_start(path@),
        r <= end,
{
    let q = path.substring_char(0, end);
    proof {
        assert(q@ =~= path@.take(end as int));
    }
    match last_index_of(q, '/') {
        Some(k) => k + 1,
        None => 0,
    }
}

/// Whether the last component of `path` names a file, given where it
/// begins and ends.
fn names_file(path: &str, start: usize, end: usize) -> (r: bool)
    requires
        end == body_end(path@),
        start == file_name_start(path@),
        start <= end <= path@.len(),
    ensures
        r == has_file_name(path@),
{
    let len: usize = end - start;
    if len == 0 {
        false
    } else if len == 1 {
        path.get_char(start) != '.'
    } else if len == 2 {
        !(path.get_char(start) == '.' && path.get_char(start + 1) == '.')
    } else {
        true
    }
}

/// `path` with its extension replaced by `ext`.
pub fn with_extension(path: &str, ext: &str) -> (r: String)
    requires
        lacks(ext@, '/'),
    ensures
        r@ == with_extension_spec(path@, ext@),
{
    let n: usize = path.unicode_len();
    proof {
        assert(path@.take(n as int) =~= path@);
    }
    let end = body_end_of(path, n);
    let start = name_start_of(path, end);
    if !names_file(path, start, end) {
        return String::from_str(path);
    }
    let name = path.substring_char(start, end);
    let dot = last_index_of(name, '.');
    let stem: usize = match dot {
        Some(d) => if d > 0 {
            start + d
        } else {
            end
        },
        None => end,
    };
    if end == n && end - start > 2 && stem == start + 1 && path.get_char(start) == '.' {
        proof {
            assert(path@.subrange(0, start + 2) =~= path@.take(start + 2));
        }
        return String::from_str(path.substring_char(0, start + 2));
    }
    let mut out = String::from_str(path.substring_char(0, stem));
    proof {
        assert(path@.subrange(0, stem as int) =~= path@.take(stem as int));
    }
    if ext.unicode_len() > 0 {
        proof {
            reveal_strlit(".");
            assert("."@ =~= seq!['.']);
        }
        out.append(".");
        out.append(ext);
    }
    out
}

/// The parent of `path`, if it has one.
pub fn parent(path: &str) -> (r: Option<String>)
    ensures
        has_parent(path@) ==> r is Some && r->Some_0@ == parent_spec(path@),
        !has_parent(path@) ==> r is None,
{
    let n: usize = path.unicode_len();
    proof {
        assert(path@.take(n as int) =~= path@);
    }
    let end = body_end_of(path, n);
    if end == 0 {
        return None;
    }
    let start = name_start_of(path, end);
    let rest_end = body_end_of(path, start);
    if rest_end == 0 && start > 0 {
        proof {
            reveal_strlit("/");
            assert("/"@ =~= seq!['/']);
        }
        Some(String::from_str("/"))
    } else {
        proof {
            assert(path@.subrange(0, rest_end as int) =~= path@.take(start as int).take(
                rest_end as int,
            ));
        }
        Some(String::from_str(path.substring_char(0, rest_end)))
    }
}

/// `name` inside `dir`.
pub fn join_path(dir: &str, name: &str) -> (r: String)
    ensures
        r@ == join_spec(dir@, name@),
{
    if name.unicode_len() > 0 && name.get_char(0) == '/' {
        return String::from_str(name);
    }
    let n: usize = dir.unicode_len();
    if n == 0 {
        return String::from_str(name);
    }
    let mut out = String::from_str(dir);
    if dir.get_char(n - 1) != '/' {
        proof {
            reveal_strlit("/");
            assert("/"@ =~= seq!['/']);
        }
        out.append("/");
    }
    out.append(name);
    out
}

/// The file name of `path`; empty where it has none.
pub fn file_name(path: &str) -> (r: String)
    ensures
        r@ == file_name_spec(path@),
{
    let n: usize = path.unicode_len();
    proof {
        assert(path@.take(n as int) =~= path@);
    }
    let end = body_end_of(path, n);
    let start = name_start_of(path, end);
    if names_file(path, start, end) {
        String::from_str(path.substring_char(start, end))
    } else {
        let out = String::new();
        proof {
            assert(out@ =~= Seq::<char>::empty());
        }
        out
    }
}

} // verus!
