//! Unix path handling over plain strings, following the rules of
//! `std::path`: a path splits at `/` into a root, an optional leading `.`,
//! and its remaining components, where empty and interior `.` segments
//! are dropped.

use vstd::prelude::*;
use crate::text::{chars_of, owned, push_char, push_str, seq_eq, split_chars, split_on, str_views, string_of, views};

verus! {

/// `s` split at every `/` (always at least one piece).
pub open spec fn split_slash(s: Seq<char>) -> Seq<Seq<char>> {
    split_on(s, '/')
}

/// The segment `.`.
pub open spec fn dot() -> Seq<char> {
    seq!['.']
}

/// The segment `..`.
pub open spec fn dot_dot() -> Seq<char> {
    seq!['.', '.']
}

/// The root component `/`.
pub open spec fn root_comp() -> Seq<char> {
    seq!['/']
}

/// Whether a segment names an entry (neither empty, `.` nor `..`).
pub open spec fn is_normal(seg: Seq<char>) -> bool {
    seg.len() > 0 && seg != dot() && seg != dot_dot()
}

/// The components a sequence of segments contributes after the root:
/// empty and `.` segments are dropped, everything else is kept.
pub open spec fn body_components(segs: Seq<Seq<char>>) -> Seq<Seq<char>>
    decreases segs.len(),
{
    if segs.len() == 0 {
        Seq::empty()
    } else {
        let rest = body_components(segs.drop_last());
        if segs.last().len() == 0 || segs.last() == dot() {
            rest
        } else {
            rest.push(segs.last())
        }
    }
}

/// The normal components of a sequence of segments (`..` dropped as well).
pub open spec fn normal_segments(segs: Seq<Seq<char>>) -> Seq<Seq<char>>
    decreases segs.len(),
{
    if segs.len() == 0 {
        Seq::empty()
    } else {
        let rest = normal_segments(segs.drop_last());
        if is_normal(segs.last()) {
            rest.push(segs.last())
        } else {
            rest
        }
    }
}

/// Whether the path starts at the root.
pub open spec fn has_root(p: Seq<char>) -> bool {
    p.len() > 0 && p[0] == '/'
}

/// Whether a relative path begins with a `.` component.
pub open spec fn starts_at_cur_dir(p: Seq<char>) -> bool {
    !has_root(p) && p.len() >= 1 && p[0] == '.' && (p.len() == 1 || p[1] == '/')
}

/// The components of a path, as `Path::components` yields them: `/` for
/// the root, `.` for a leading current-directory marker, `..` for parent
/// steps and the names of the normal components.
pub open spec fn components(p: Seq<char>) -> Seq<Seq<char>> {
    (if has_root(p) { seq![root_comp()] } else { Seq::empty() })
        + (if starts_at_cur_dir(p) { seq![dot()] } else { Seq::empty() })
        + body_components(split_slash(p))
}

/// The names of the normal components of a path, in order.
pub open spec fn normal_parts(p: Seq<char>) -> Seq<Seq<char>> {
    normal_segments(split_slash(p))
}

/// Components joined with `/` (how a `PathBuf` collects components that
/// contain neither the root nor a leading `.`).
pub open spec fn join_slash(cs: Seq<Seq<char>>) -> Seq<char>
    decreases cs.len(),
{
    if cs.len() == 0 {
        Seq::empty()
    } else if cs.len() == 1 {
        cs[0]
    } else {
        join_slash(cs.drop_last()) + seq!['/'] + cs.last()
    }
}

/// The last component of a path when it is a normal one (`Path::file_name`).
pub open spec fn file_name(p: Seq<char>) -> Option<Seq<char>> {
    let cs = components(p);
    if cs.len() > 0 && is_normal(cs.last()) {
        Some(cs.last())
    } else {
        None
    }
}

/// The index of the last `.` in `s`, if any.
pub open spec fn last_dot(s: Seq<char>) -> Option<int>
    decreases s.len(),
{
    if s.len() == 0 {
        None
    } else if s.last() == '.' {
        Some(s.len() - 1)
    } else {
        last_dot(s.drop_last())
    }
}

/// The extension of a path (`Path::extension`): what follows the last `.`
/// of its file name, unless that `.` is the file name's first character.
pub open spec fn extension(p: Seq<char>) -> Option<Seq<char>> {
    match file_name(p) {
        None => None,
        Some(f) => match last_dot(f) {
            None => None,
            Some(i) => if i == 0 {
                None
            } else {
                Some(f.skip(i + 1))
            },
        },
    }
}

/// `base` joined with `rel` (`Path::join` on Unix): an absolute `rel`
/// replaces `base`; otherwise a `/` separates them unless `base` is empty
/// or already ends with one.
pub open spec fn join_path(base: Seq<char>, rel: Seq<char>) -> Seq<char> {
    if has_root(rel) {
        rel
    } else if base.len() == 0 || base.last() == '/' {
        base + rel
    } else {
        base + seq!['/'] + rel
    }
}

/// Whether two paths are equal as `Path`s (component by component).
pub open spec fn same_path(a: Seq<char>, b: Seq<char>) -> bool {
    components(a) == components(b)
}

/// The components of `path` after those of `base` when `base`'s components
/// begin `path`'s (`Path::strip_prefix`), else all of `path`'s components.
pub open spec fn components_after(base: Seq<char>, path: Seq<char>) -> Seq<Seq<char>> {
    let b = components(base);
    let c = components(path);
    if b.len() <= c.len() && c.take(b.len() as int) == b {
        c.skip(b.len() as int)
    } else {
        c
    }
}

// ---------------------------------------------------------------------
// Joining components back into a path
// ---------------------------------------------------------------------

/// Components that are names or `..`: none empty or `.`, none holding `/`
/// (what a path has after its root or leading `.`).
pub open spec fn plain_components(cs: Seq<Seq<char>>) -> bool {
    forall|i: int|
        0 <= i < cs.len() ==> (#[trigger] cs[i]).len() > 0 && cs[i] != dot() && !cs[i].contains('/')
}

proof fn lemma_body_plain(segs: Seq<Seq<char>>)
    requires
        forall|i: int| 0 <= i < segs.len() ==> !(#[trigger] segs[i]).contains('/'),
    ensures
        plain_components(body_components(segs)),
    decreases segs.len(),
{
    if segs.len() > 0 {
        lemma_body_plain(segs.drop_last());
        assert(!segs[segs.len() - 1].contains('/'));
    }
}

proof fn lemma_body_keeps(cs: Seq<Seq<char>>)
    requires
        plain_components(cs),
    ensures
        body_components(cs) == cs,
    decreases cs.len(),
{
    if cs.len() > 0 {
        lemma_body_keeps(cs.drop_last());
        assert(cs[cs.len() - 1] == cs.last());
        assert(cs.drop_last().push(cs.last()) =~= cs);
    } else {
        assert(cs =~= Seq::<Seq<char>>::empty());
    }
}

proof fn lemma_split_join(cs: Seq<Seq<char>>)
    requires
        cs.len() >= 1,
        plain_components(cs),
    ensures
        split_slash(join_slash(cs)) == cs,
    decreases cs.len(),
{
    assert(!cs[cs.len() - 1].contains('/'));
    if cs.len() == 1 {
        crate::text::lemma_split_single(cs[0], '/');
        assert(seq![cs[0]] =~= cs);
    } else {
        lemma_split_join(cs.drop_last());
        crate::text::lemma_split_append(join_slash(cs.drop_last()), cs.last(), '/');
        assert(cs.drop_last().push(cs.last()) =~= cs);
    }
}

proof fn lemma_join_starts(cs: Seq<Seq<char>>)
    requires
        cs.len() >= 1,
    ensures
        join_slash(cs).len() >= cs[0].len(),
        join_slash(cs).take(cs[0].len() as int) == cs[0],
    decreases cs.len(),
{
    if cs.len() == 1 {
        assert(cs[0].take(cs[0].len() as int) =~= cs[0]);
    } else {
        lemma_join_starts(cs.drop_last());
        let j = join_slash(cs.drop_last());
        assert((j + seq!['/'] + cs.last()).take(cs[0].len() as int) =~= j.take(cs[0].len() as int));
    }
}

/// Plain components joined with `/` read back as the same components.
pub proof fn lemma_components_of_join(cs: Seq<Seq<char>>)
    requires
        cs.len() >= 1,
        plain_components(cs),
    ensures
        components(join_slash(cs)) == cs,
{
    let q = join_slash(cs);
    lemma_join_starts(cs);
    lemma_split_join(cs);
    lemma_body_keeps(cs);
    let c0 = cs[0];
    assert(c0.len() > 0 && c0 != dot() && !c0.contains('/'));
    assert(q[0] == c0[0]) by {
        assert(q.take(c0.len() as int)[0] == q[0]);
    }
    assert(!has_root(q)) by {
        assert(c0[0] != '/');
    }
    assert(!starts_at_cur_dir(q)) by {
        if q[0] == '.' {
            if c0.len() == 1 {
                assert(c0 =~= dot());
            }
            assert(q[1] == c0[1]) by {
                assert(q.take(c0.len() as int)[1] == q[1]);
            }
            assert(c0[1] != '/');
        }
    }
    assert(components(q) =~= body_components(split_slash(q)));
}

/// After its first component, a path's components are plain.
pub proof fn lemma_components_tail(p: Seq<char>)
    requires
        components(p).len() >= 1,
    ensures
        plain_components(components(p).skip(1)),
{
    let body = body_components(split_slash(p));
    crate::text::lemma_split_pieces(p, '/');
    lemma_body_plain(split_slash(p));
    let cs = components(p);
    if has_root(p) {
        assert(cs.skip(1) =~= body);
    } else if starts_at_cur_dir(p) {
        assert(cs.skip(1) =~= body);
    } else {
        assert(cs =~= body);
        assert forall|i: int| 0 <= i < cs.skip(1).len() implies (#[trigger] cs.skip(1)[i]).len() > 0
            && cs.skip(1)[i] != dot() && !cs.skip(1)[i].contains('/') by {
            assert(cs.skip(1)[i] == body[i + 1]);
        }
    }
}

// ---------------------------------------------------------------------
// Executable counterparts
// ---------------------------------------------------------------------

/// The pieces of `p` between `/` separators.
pub fn split_at_slashes(p: &Vec<char>) -> (segs: Vec<Vec<char>>)
    ensures
        views(segs@) == split_slash(p@),
{
    split_chars(p, '/')
}

/// A copy of a character vector.
pub fn copy_chars(v: &Vec<char>) -> (r: Vec<char>)
    ensures
        r@ == v@,
{
    let mut r: Vec<char> = Vec::new();
    let mut i: usize = 0;
    while i < v.len()
        invariant
            i <= v.len(),
            r@ == v@.take(i as int),
        decreases v.len() - i,
    {
        r.push(v[i]);
        i = i + 1;
        assert(r@ =~= v@.take(i as int));
    }
    assert(v@.take(v.len() as int) =~= v@);
    r
}

/// Whether a segment is empty or `.`.
fn is_skipped(seg: &Vec<char>) -> (r: bool)
    ensures
        r == (seg@.len() == 0 || seg@ == dot()),
{
    seg.len() == 0 || (seg.len() == 1 && seg[0] == '.') && {
        assert(seg@ =~= dot());
        true
    }
}

/// Whether a segment is `..`.
fn is_dot_dot(seg: &Vec<char>) -> (r: bool)
    ensures
        r == (seg@ == dot_dot()),
{
    if seg.len() == 2 && seg[0] == '.' && seg[1] == '.' {
        assert(seg@ =~= dot_dot());
        true
    } else {
        false
    }
}

/// The components of `p` (see [`components`]).
pub fn path_components(p: &str) -> (out: Vec<Vec<char>>)
    ensures
        views(out@) == components(p@),
{
    let cs = chars_of(p);
    let segs = split_at_slashes(&cs);
    let mut out: Vec<Vec<char>> = Vec::new();
    let rooted = cs.len() > 0 && cs[0] == '/';
    if rooted {
        let mut r: Vec<char> = Vec::new();
        r.push('/');
        out.push(r);
    }
    if !rooted && cs.len() >= 1 && cs[0] == '.' && (cs.len() == 1 || cs[1] == '/') {
        let mut d: Vec<char> = Vec::new();
        d.push('.');
        out.push(d);
    }
    let ghost head = views(out@);
    assert(head =~= (if has_root(p@) { seq![root_comp()] } else { Seq::empty() })
        + (if starts_at_cur_dir(p@) { seq![dot()] } else { Seq::empty() }));
    let mut i: usize = 0;
    while i < segs.len()
        invariant
            i <= segs.len(),
            views(out@) == head + body_components(views(segs@).take(i as int)),
        decreases segs.len() - i,
    {
        assert(views(segs@).take(i as int + 1).drop_last() =~= views(segs@).take(i as int));
        let seg = &segs[i];
        assert(views(segs@).take(i as int + 1).last() == seg@);
        let ghost prev = views(out@);
        if !is_skipped(seg) {
            out.push(copy_chars(seg));
            assert(views(out@) =~= prev.push(seg@));
        } else {
            assert(views(out@) =~= prev);
        }
        i = i + 1;
        assert(views(out@) =~= head + body_components(views(segs@).take(i as int)));
    }
    assert(views(segs@).take(segs.len() as int) =~= views(segs@));
    out
}

/// The names of the normal components of `p`, in order.
pub fn path_normal_parts(p: &str) -> (out: Vec<String>)
    ensures
        str_views(out@) == normal_parts(p@),
{
    let cs = chars_of(p);
    let segs = split_at_slashes(&cs);
    let mut out: Vec<String> = Vec::new();
    let mut i: usize = 0;
    while i < segs.len()
        invariant
            i <= segs.len(),
            str_views(out@) == normal_segments(views(segs@).take(i as int)),
        decreases segs.len() - i,
    {
        assert(views(segs@).take(i as int + 1).drop_last() =~= views(segs@).take(i as int));
        let seg = &segs[i];
        if !is_skipped(seg) && !is_dot_dot(seg) {
            out.push(string_of(seg));
        }
        i = i + 1;
        assert(str_views(out@) =~= normal_segments(views(segs@).take(i as int)));
    }
    assert(views(segs@).take(segs.len() as int) =~= views(segs@));
    out
}

/// Components joined with `/`.
pub fn join_with_slashes(cs: &Vec<Vec<char>>, from: usize) -> (out: Vec<char>)
    requires
        from <= cs.len(),
    ensures
        out@ == join_slash(views(cs@).skip(from as int)),
{
    let mut out: Vec<char> = Vec::new();
    let mut i: usize = from;
    assert(views(cs@).skip(from as int).take(0) =~= Seq::<Seq<char>>::empty());
    while i < cs.len()
        invariant
            from <= i <= cs.len(),
            out@ == join_slash(views(cs@).skip(from as int).take(i - from)),
        decreases cs.len() - i,
    {
        let ghost part = views(cs@).skip(from as int).take(i - from + 1);
        assert(part.drop_last() =~= views(cs@).skip(from as int).take(i - from));
        assert(part.last() == cs@[i as int]@);
        if i > from {
            out.push('/');
        }
        let c = &cs[i];
        let mut j: usize = 0;
        let ghost start = out@;
        while j < c.len()
            invariant
                j <= c.len(),
                out@ == start + c@.take(j as int),
            decreases c.len() - j,
        {
            out.push(c[j]);
            j = j + 1;
            assert(out@ =~= start + c@.take(j as int));
        }
        assert(c@.take(c.len() as int) =~= c@);
        i = i + 1;
        assert(out@ =~= join_slash(part));
    }
    assert(views(cs@).skip(from as int).take(cs.len() - from) =~= views(cs@).skip(from as int));
    out
}

/// The file name of `p` (see [`file_name`]).
pub fn path_file_name(p: &str) -> (r: Option<Vec<char>>)
    ensures
        match r {
            Some(f) => file_name(p@) == Some(f@),
            None => file_name(p@) is None,
        },
{
    let cs = path_components(p);
    if cs.len() == 0 {
        return None;
    }
    let last = &cs[cs.len() - 1];
    if last.len() > 0 && !is_skipped(last) && !is_dot_dot(last) {
        Some(copy_chars(last))
    } else {
        None
    }
}

/// `base` joined with `rel` (see [`join_path`]).
pub fn join(base: &str, rel: &str) -> (r: String)
    ensures
        r@ == join_path(base@, rel@),
{
    let b = chars_of(base);
    let c = chars_of(rel);
    if c.len() > 0 && c[0] == '/' {
        return owned(rel);
    }
    let mut s = owned(base);
    if !(b.len() == 0 || b[b.len() - 1] == '/') {
        push_char(&mut s, '/');
    }
    push_str(&mut s, rel);
    s
}

/// Whether `a` and `b` are the same path, component by component.
pub fn paths_equal(a: &str, b: &str) -> (r: bool)
    ensures
        r == same_path(a@, b@),
{
    let x = path_components(a);
    let y = path_components(b);
    components_eq(&x, &y)
}

/// Whether two component lists are equal.
pub fn components_eq(x: &Vec<Vec<char>>, y: &Vec<Vec<char>>) -> (r: bool)
    ensures
        r == (views(x@) == views(y@)),
{
    if x.len() != y.len() {
        assert(views(x@).len() != views(y@).len());
        return false;
    }
    let mut i: usize = 0;
    while i < x.len()
        invariant
            x.len() == y.len(),
            i <= x.len(),
            forall|j: int| 0 <= j < i ==> x@[j]@ == y@[j]@,
        decreases x.len() - i,
    {
        if !seq_eq(&x[i], &y[i]) {
            assert(views(x@)[i as int] != views(y@)[i as int]);
            return false;
        }
        i = i + 1;
    }
    assert(views(x@) =~= views(y@));
    true
}

/// The extension of `p` (see [`extension`]).
pub fn path_extension(p: &str) -> (r: Option<Vec<char>>)
    ensures
        match r {
            Some(e) => extension(p@) == Some(e@),
            None => extension(p@) is None,
        },
{
    let f = match path_file_name(p) {
        Some(f) => f,
        None => return None,
    };
    // Find the last '.'.
    let mut i: usize = f.len();
    assert(f@.take(f.len() as int) =~= f@);
    while i > 0
        invariant
            i <= f.len(),
            file_name(p@) == Some(f@),
            last_dot(f@) == last_dot(f@.take(i as int)),
        decreases i,
    {
        assert(f@.take(i as int).drop_last() =~= f@.take(i - 1));
        assert(f@.take(i as int).last() == f@[i - 1]);
        if f[i - 1] == '.' {
            if i - 1 == 0 {
                return None;
            }
            let mut e: Vec<char> = Vec::new();
            let mut j: usize = i;
            while j < f.len()
                invariant
                    i <= j <= f.len(),
                    file_name(p@) == Some(f@),
                    last_dot(f@) == Some(i - 1),
                    e@ == f@.skip(i as int).take(j - i),
                decreases f.len() - j,
            {
                e.push(f[j]);
                j = j + 1;
                assert(e@ =~= f@.skip(i as int).take(j - i));
            }
            assert(f@.skip(i as int).take(f.len() - i) =~= f@.skip(i as int));
            return Some(e);
        }
        i = i - 1;
    }
    assert(f@.take(0) =~= Seq::<char>::empty());
    None
}

} // verus!
