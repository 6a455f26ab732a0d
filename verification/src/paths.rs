//! Filesystem paths held as strings.  What `std::path::Path` computes from a
//! path (its parent, last component, component-wise prefix test, ...) is a
//! function of the path text alone; each such function is named here and
//! reached through one `std::path` call.
use vstd::prelude::*;
use std::path::Path;
use crate::text::{chars_of, string_of_chars};

verus! {

/// The view of an optional string.
pub open spec fn opt_view(o: Option<String>) -> Option<Seq<char>> {
    match o {
        Some(s) => Some(s@),
        None => None,
    }
}

/// What `Path::parent` gives for the path `p`.
pub uninterp spec fn path_parent(p: Seq<char>) -> Option<Seq<char>>;

/// What `Path::file_name` gives for the path `p`.
pub uninterp spec fn path_file_name(p: Seq<char>) -> Option<Seq<char>>;

/// What `Path::starts_with` says of `p` and `base` (whole components only).
pub uninterp spec fn path_starts_with(p: Seq<char>, base: Seq<char>) -> bool;

/// What `==` on `Path` says of `a` and `b` (equal component lists).
pub uninterp spec fn path_eq(a: Seq<char>, b: Seq<char>) -> bool;

/// What `Path::extension` gives for the path `p`.
pub uninterp spec fn path_extension(p: Seq<char>) -> Option<Seq<char>>;

/// What `Path::strip_prefix` gives for `p` and `base`.
pub uninterp spec fn path_strip_prefix(p: Seq<char>, base: Seq<char>) -> Option<Seq<char>>;

/// The first item of `Path::components` of `p`, as text.
pub uninterp spec fn path_first_component(p: Seq<char>) -> Option<Seq<char>>;

/// What `Path::join` gives for `base` and `name`.
pub uninterp spec fn path_join(base: Seq<char>, name: Seq<char>) -> Seq<char>;

/// Calls `Path::parent`; the result is named `path_parent`.
#[verifier::external_body]
pub(crate) fn parent_of(p: &str) -> (r: Option<String>)
    ensures
        opt_view(r) == path_parent(p@),
{
    match Path::new(p).parent() {
        Some(q) => Some(q.to_string_lossy().to_string()),
        None => None,
    }
}

/// Calls `Path::file_name`; the result is named `path_file_name`.
#[verifier::external_body]
pub(crate) fn file_name_of(p: &str) -> (r: Option<String>)
    ensures
        opt_view(r) == path_file_name(p@),
{
    match Path::new(p).file_name() {
        Some(q) => Some(q.to_string_lossy().to_string()),
        None => None,
    }
}

/// Calls `Path::starts_with`; the result is named `path_starts_with`.
#[verifier::external_body]
pub(crate) fn starts_with_path(p: &str, base: &str) -> (r: bool)
    ensures
        r == path_starts_with(p@, base@),
{
    Path::new(p).starts_with(Path::new(base))
}

/// Calls `==` on two `Path`s; the result is named `path_eq`.
#[verifier::external_body]
pub(crate) fn same_path(a: &str, b: &str) -> (r: bool)
    ensures
        r == path_eq(a@, b@),
{
    Path::new(a) == Path::new(b)
}

/// Calls `Path::extension`; the result is named `path_extension`.
#[verifier::external_body]
pub(crate) fn extension_of(p: &str) -> (r: Option<String>)
    ensures
        opt_view(r) == path_extension(p@),
{
    match Path::new(p).extension() {
        Some(q) => Some(q.to_string_lossy().to_string()),
        None => None,
    }
}

/// Calls `Path::strip_prefix`; the result is named `path_strip_prefix`.
#[verifier::external_body]
pub(crate) fn strip_prefix_of(p: &str, base: &str) -> (r: Option<String>)
    ensures
        opt_view(r) == path_strip_prefix(p@, base@),
{
    match Path::new(p).strip_prefix(Path::new(base)) {
        Ok(q) => Some(q.to_string_lossy().to_string()),
        Err(_) => None,
    }
}

/// Calls `Path::components` and takes the first one; the result is named
/// `path_first_component`.
#[verifier::external_body]
pub(crate) fn first_component_of(p: &str) -> (r: Option<String>)
    ensures
        opt_view(r) == path_first_component(p@),
{
    match Path::new(p).components().next() {
        Some(c) => Some(c.as_os_str().to_string_lossy().to_string()),
        None => None,
    }
}

/// Calls `Path::join`; the result is named `path_join`.
#[verifier::external_body]
pub(crate) fn join_path(base: &str, name: &str) -> (r: String)
    ensures
        r@ == path_join(base@, name@),
{
    Path::new(base).join(name).to_string_lossy().to_string()
}


/// `c` is the component `.`.
pub open spec fn is_dot(c: Seq<char>) -> bool {
    c.len() == 1 && c[0] == '.'
}

/// `c` is the component `..`.
pub open spec fn is_dot_dot(c: Seq<char>) -> bool {
    c.len() == 2 && c[0] == '.' && c[1] == '.'
}

/// The views of a list of character vectors.
pub open spec fn char_pieces(v: Seq<Vec<char>>) -> Seq<Seq<char>> {
    v.map_values(|x: Vec<char>| x@)
}

/// Splitting `p` at each `/`: the pieces before the last `/`, and the text
/// after it.
pub open spec fn split_state(p: Seq<char>) -> (Seq<Seq<char>>, Seq<char>)
    decreases p.len(),
{
    if p.len() == 0 {
        (seq![], seq![])
    } else {
        let (done, cur) = split_state(p.drop_last());
        if p.last() == '/' {
            (done.push(cur), seq![])
        } else {
            (done, cur.push(p.last()))
        }
    }
}

/// The pieces of `p` between its `/` separators (empty ones included).
pub open spec fn pieces(p: Seq<char>) -> Seq<Seq<char>> {
    split_state(p).0.push(split_state(p).1)
}

/// The components that remain of the pieces `ps` once empty pieces and `.`
/// are dropped and each `..` takes away the component before it.  A `..`
/// with nothing before it is dropped in an absolute path and kept in a
/// relative one.
pub open spec fn resolve(ps: Seq<Seq<char>>, absolute: bool) -> Seq<Seq<char>>
    decreases ps.len(),
{
    if ps.len() == 0 {
        seq![]
    } else {
        let st = resolve(ps.drop_last(), absolute);
        let c = ps.last();
        if c.len() == 0 || is_dot(c) {
            st
        } else if is_dot_dot(c) {
            if st.len() > 0 && !is_dot_dot(st.last()) {
                st.drop_last()
            } else if absolute {
                st
            } else {
                st.push(c)
            }
        } else {
            st.push(c)
        }
    }
}

/// The components `cs` joined by `/`.
pub open spec fn join_pieces(cs: Seq<Seq<char>>) -> Seq<char>
    decreases cs.len(),
{
    if cs.len() == 0 {
        seq![]
    } else if cs.len() == 1 {
        cs[0]
    } else {
        join_pieces(cs.drop_last()) + seq!['/'] + cs.last()
    }
}

/// The path `p` with `.` and `..` resolved by its text alone.
pub open spec fn normalized(p: Seq<char>) -> Seq<char> {
    let absolute = p.len() > 0 && p[0] == '/';
    let st = resolve(pieces(p), absolute);
    if absolute {
        seq!['/'] + join_pieces(st)
    } else {
        join_pieces(st)
    }
}

/// The pieces of `p` between its `/` separators.
fn split_pieces(p: &str) -> (ps: Vec<Vec<char>>)
    ensures
        char_pieces(ps@) == pieces(p@),
{
    let cs = chars_of(p);
    let mut done: Vec<Vec<char>> = Vec::new();
    let mut cur: Vec<char> = Vec::new();
    let mut i: usize = 0;
    while i < cs.len()
        invariant
            i <= cs@.len(),
            cs@ == p@,
            (char_pieces(done@), cur@) == split_state(cs@.take(i as int)),
        decreases cs@.len() - i,
    {
        assert(cs@.take(i + 1).drop_last() =~= cs@.take(i as int));
        let c = cs[i];
        if c == '/' {
            let piece = cur;
            done.push(piece);
            cur = Vec::new();
            assert(char_pieces(done@) =~= split_state(cs@.take(i as int)).0.push(split_state(cs@.take(i as int)).1));
        } else {
            cur.push(c);
        }
        i = i + 1;
    }
    assert(cs@.take(cs@.len() as int) =~= cs@);
    let ghost before = char_pieces(done@);
    done.push(cur);
    assert(char_pieces(done@) =~= before.push(split_state(p@).1));
    done
}

/// A copy of the characters `v`.
fn copy_chars(v: &Vec<char>) -> (w: Vec<char>)
    ensures
        w@ == v@,
{
    let mut w: Vec<char> = Vec::new();
    let mut i: usize = 0;
    while i < v.len()
        invariant
            i <= v@.len(),
            w@ == v@.take(i as int),
        decreases v@.len() - i,
    {
        w.push(v[i]);
        i = i + 1;
        assert(w@ =~= v@.take(i as int));
    }
    w
}

/// Whether the characters `c` are the component `..`.
fn piece_is_dot_dot(c: &Vec<char>) -> (b: bool)
    ensures
        b == is_dot_dot(c@),
{
    c.len() == 2 && c[0] == '.' && c[1] == '.'
}

/// The path `p` with `.` and `..` resolved by its text alone, as
/// `normalized` describes: `/s/a/../b` becomes `/s/b`, `/s/..` becomes `/`.
pub fn normalize_path(p: &str) -> (s: String)
    ensures
        s@ == normalized(p@),
{
    let ps = split_pieces(p);
    let text = chars_of(p);
    let absolute = text.len() > 0 && text[0] == '/';
    assert(absolute == (p@.len() > 0 && p@[0] == '/'));
    let ghost cp = char_pieces(ps@);
    let mut st: Vec<Vec<char>> = Vec::new();
    let mut k: usize = 0;
    while k < ps.len()
        invariant
            k <= ps@.len(),
            cp == char_pieces(ps@),
            char_pieces(st@) == resolve(cp.take(k as int), absolute),
        decreases ps@.len() - k,
    {
        assert(cp.take(k + 1).drop_last() =~= cp.take(k as int));
        assert(cp.take(k + 1).last() == ps@[k as int]@);
        let ghost prev = char_pieces(st@);
        let c = &ps[k];
        let dot = c.len() == 1 && c[0] == '.';
        if c.len() == 0 || dot {
        } else if piece_is_dot_dot(c) {
            let top_is_up = st.len() > 0 && piece_is_dot_dot(&st[st.len() - 1]);
            if st.len() > 0 && !top_is_up {
                st.pop();
                assert(char_pieces(st@) =~= prev.drop_last());
            } else if absolute {
            } else {
                let w = copy_chars(c);
                st.push(w);
                assert(char_pieces(st@) =~= prev.push(c@));
            }
        } else {
            let w = copy_chars(c);
            st.push(w);
            assert(char_pieces(st@) =~= prev.push(c@));
        }
        k = k + 1;
    }
    assert(cp.take(ps@.len() as int) =~= cp);
    let ghost rs = char_pieces(st@);
    let mut out: Vec<char> = Vec::new();
    if absolute {
        out.push('/');
    }
    let ghost lead: Seq<char> = out@;
    let mut j: usize = 0;
    while j < st.len()
        invariant
            j <= st@.len(),
            rs == char_pieces(st@),
            out@ == lead + join_pieces(rs.take(j as int)),
        decreases st@.len() - j,
    {
        assert(rs.take(j + 1).drop_last() =~= rs.take(j as int));
        let ghost before = out@;
        if j > 0 {
            out.push('/');
        }
        let piece = &st[j];
        let mut q: usize = 0;
        let ghost mid = out@;
        while q < piece.len()
            invariant
                q <= piece@.len(),
                out@ == mid + piece@.take(q as int),
            decreases piece@.len() - q,
        {
            out.push(piece[q]);
            q = q + 1;
            assert(out@ =~= mid + piece@.take(q as int));
        }
        assert(piece@.take(piece@.len() as int) =~= piece@);
        if j == 0 {
            assert(rs.take(1) =~= seq![rs[0]]);
            assert(out@ =~= lead + join_pieces(rs.take(1)));
        } else {
            assert(out@ =~= lead + join_pieces(rs.take(j + 1)));
        }
        j = j + 1;
    }
    assert(rs.take(st@.len() as int) =~= rs);
    assert(rs == resolve(pieces(p@), absolute));
    if absolute {
        assert(lead =~= seq!['/']);
    } else {
        assert(lead =~= Seq::<char>::empty());
        assert(out@ =~= join_pieces(rs));
    }
    string_of_chars(&out)
}

} // verus!
