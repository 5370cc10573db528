//! The tree view of an archive: entries are placed by their path
//! components in a tree whose children are in the order of their names,
//! and the tree is drawn with branch characters, one line per entry.

use vstd::prelude::*;
use crate::archive::{
    binary_size_text, date_formattable, entry_date_text, perm_text, EntryInfo, EntryView,
};
use crate::colors::{can_draw, drawable, emoji_spec, get_emoji, hue_of, Hue, Painted, Painter, Style};
use crate::config::{ColorKey, Config, ConfigView};
use crate::path::{file_name, normal_parts, path_file_name, path_normal_parts};
use crate::text::{chars_of, owned, push_char, push_str, same_text, str_views, string_of};

verus! {

// ---------------------------------------------------------------------
// Order of names and paths
// ---------------------------------------------------------------------

/// The result of comparing two values.
#[derive(Debug, Clone, Copy, PartialEq, Eq, Structural)]
pub enum Order {
    Less,
    Equal,
    Greater,
}

/// How two names compare, character by character (the order of `String`,
/// which is that of their UTF-8 bytes); a proper prefix comes first.
pub open spec fn order_text(a: Seq<char>, b: Seq<char>) -> Order
    decreases a.len(),
{
    if a.len() == 0 {
        if b.len() == 0 {
            Order::Equal
        } else {
            Order::Less
        }
    } else if b.len() == 0 {
        Order::Greater
    } else if a[0] < b[0] {
        Order::Less
    } else if a[0] > b[0] {
        Order::Greater
    } else {
        order_text(a.drop_first(), b.drop_first())
    }
}

/// How two paths compare, component by component by [`order_text`]; a
/// proper prefix comes first.
pub open spec fn order_path(a: Seq<Seq<char>>, b: Seq<Seq<char>>) -> Order
    decreases a.len(),
{
    if a.len() == 0 {
        if b.len() == 0 {
            Order::Equal
        } else {
            Order::Less
        }
    } else if b.len() == 0 {
        Order::Greater
    } else if order_text(a[0], b[0]) == Order::Less {
        Order::Less
    } else if order_text(a[0], b[0]) == Order::Greater {
        Order::Greater
    } else {
        order_path(a.drop_first(), b.drop_first())
    }
}

/// Names compare equal exactly when they are equal, and one is less than
/// another exactly when that one is greater than it.
pub proof fn lemma_order_text_basics(a: Seq<char>, b: Seq<char>)
    ensures
        (order_text(a, b) == Order::Equal) == (a == b),
        (order_text(a, b) == Order::Less) == (order_text(b, a) == Order::Greater),
    decreases a.len(),
{
    if a.len() > 0 && b.len() > 0 {
        lemma_order_text_basics(a.drop_first(), b.drop_first());
        if a[0] == b[0] && a.drop_first() == b.drop_first() {
            assert(a =~= seq![a[0]] + a.drop_first());
            assert(b =~= seq![b[0]] + b.drop_first());
        }
        if a == b {
            assert(a.drop_first() == b.drop_first());
        }
    } else if a.len() == 0 && b.len() == 0 {
        assert(a =~= b);
    }
}

/// The order of names is transitive.
pub proof fn lemma_order_text_trans(a: Seq<char>, b: Seq<char>, c: Seq<char>)
    requires
        order_text(a, b) == Order::Less,
        order_text(b, c) == Order::Less,
    ensures
        order_text(a, c) == Order::Less,
    decreases a.len(),
{
    if a.len() > 0 && b.len() > 0 && c.len() > 0 && a[0] == b[0] && b[0] == c[0] {
        lemma_order_text_trans(a.drop_first(), b.drop_first(), c.drop_first());
    }
}

/// Paths compare equal exactly when they are equal, and one is less than
/// another exactly when that one is greater than it.
pub proof fn lemma_order_path_basics(a: Seq<Seq<char>>, b: Seq<Seq<char>>)
    ensures
        (order_path(a, b) == Order::Equal) == (a == b),
        (order_path(a, b) == Order::Less) == (order_path(b, a) == Order::Greater),
    decreases a.len(),
{
    if a.len() > 0 && b.len() > 0 {
        lemma_order_text_basics(a[0], b[0]);
        lemma_order_text_basics(b[0], a[0]);
        lemma_order_path_basics(a.drop_first(), b.drop_first());
        if a[0] == b[0] && a.drop_first() == b.drop_first() {
            assert(a =~= seq![a[0]] + a.drop_first());
            assert(b =~= seq![b[0]] + b.drop_first());
        }
        if a == b {
            assert(a.drop_first() == b.drop_first());
        }
    } else if a.len() == 0 && b.len() == 0 {
        assert(a =~= b);
    }
}

/// The order of paths is transitive.
pub proof fn lemma_order_path_trans(a: Seq<Seq<char>>, b: Seq<Seq<char>>, c: Seq<Seq<char>>)
    requires
        order_path(a, b) == Order::Less,
        order_path(b, c) == Order::Less,
    ensures
        order_path(a, c) == Order::Less,
    decreases a.len(),
{
    if a.len() > 0 && b.len() > 0 && c.len() > 0 {
        lemma_order_text_basics(a[0], b[0]);
        lemma_order_text_basics(b[0], c[0]);
        lemma_order_text_basics(a[0], c[0]);
        if order_text(a[0], b[0]) == Order::Less && order_text(b[0], c[0]) == Order::Less {
            lemma_order_text_trans(a[0], b[0], c[0]);
        } else if a[0] == b[0] && b[0] == c[0] {
            lemma_order_path_trans(a.drop_first(), b.drop_first(), c.drop_first());
        }
    }
}

/// Whether `p` is a prefix of the path `q`.
pub open spec fn path_prefix(p: Seq<Seq<char>>, q: Seq<Seq<char>>) -> bool {
    p.len() <= q.len() && q.take(p.len() as int) == p
}

/// A path that begins with `p` comes after `p` unless it is `p`.
pub proof fn lemma_prefix_order(p: Seq<Seq<char>>, q: Seq<Seq<char>>)
    requires
        path_prefix(p, q),
    ensures
        p == q || order_path(p, q) == Order::Less,
    decreases p.len(),
{
    if p.len() > 0 {
        lemma_order_text_basics(p[0], q[0]);
        assert(q[0] == q.take(p.len() as int)[0]);
        assert(q.drop_first().take(p.len() - 1) =~= q.take(p.len() as int).drop_first());
        lemma_prefix_order(p.drop_first(), q.drop_first());
        if p.drop_first() == q.drop_first() {
            assert(p =~= seq![p[0]] + p.drop_first());
            assert(q =~= seq![q[0]] + q.drop_first());
        }
    } else if q.len() == 0 {
        assert(p =~= q);
    }
}

/// What lies between two paths that begin with `p` in the order begins
/// with `p` too.
pub proof fn lemma_prefix_between(
    p: Seq<Seq<char>>,
    a: Seq<Seq<char>>,
    b: Seq<Seq<char>>,
    c: Seq<Seq<char>>,
)
    requires
        path_prefix(p, a),
        path_prefix(p, c),
        order_path(a, b) != Order::Greater,
        order_path(b, c) != Order::Greater,
    ensures
        path_prefix(p, b),
    decreases p.len(),
{
    if p.len() > 0 {
        assert(a[0] == p[0]) by {
            assert(a.take(p.len() as int)[0] == a[0]);
        }
        assert(c[0] == p[0]) by {
            assert(c.take(p.len() as int)[0] == c[0]);
        }
        lemma_order_text_basics(a[0], b[0]);
        lemma_order_text_basics(b[0], c[0]);
        assert(b.len() > 0);
        if order_text(a[0], b[0]) == Order::Less && order_text(b[0], c[0]) == Order::Less {
            lemma_order_text_trans(a[0], b[0], c[0]);
            lemma_order_text_basics(a[0], c[0]);
        }
        assert(b[0] == p[0]);
        assert(a.drop_first().take(p.len() - 1) =~= p.drop_first());
        assert(c.drop_first().take(p.len() - 1) =~= p.drop_first());
        lemma_prefix_between(p.drop_first(), a.drop_first(), b.drop_first(), c.drop_first());
        assert(b.take(p.len() as int) =~= seq![b[0]] + b.drop_first().take(p.len() - 1));
        assert(p =~= seq![p[0]] + p.drop_first());
    } else {
        assert(b.take(0) =~= p);
    }
}

/// Compares two names (see [`order_text`]).
pub fn compare_text(a: &str, b: &str) -> (r: Order)
    ensures
        r == order_text(a@, b@),
{
    let x = chars_of(a);
    let y = chars_of(b);
    let mut i: usize = 0;
    assert(x@.skip(0) =~= x@);
    assert(y@.skip(0) =~= y@);
    while i < x.len() && i < y.len() && x[i] == y[i]
        invariant
            i <= x.len(),
            i <= y.len(),
            order_text(x@, y@) == order_text(x@.skip(i as int), y@.skip(i as int)),
        decreases x.len() - i,
    {
        assert(x@.skip(i as int).drop_first() =~= x@.skip(i + 1));
        assert(y@.skip(i as int).drop_first() =~= y@.skip(i + 1));
        i = i + 1;
    }
    if i == x.len() {
        if i == y.len() {
            Order::Equal
        } else {
            Order::Less
        }
    } else if i == y.len() {
        Order::Greater
    } else if x[i] < y[i] {
        Order::Less
    } else {
        Order::Greater
    }
}

/// Compares two paths (see [`order_path`]).
pub fn compare_path(a: &Vec<String>, b: &Vec<String>) -> (r: Order)
    ensures
        r == order_path(str_views(a@), str_views(b@)),
{
    let ghost x = str_views(a@);
    let ghost y = str_views(b@);
    let mut i: usize = 0;
    assert(x.skip(0) =~= x);
    assert(y.skip(0) =~= y);
    while i < a.len() && i < b.len()
        invariant
            i <= a.len(),
            i <= b.len(),
            x == str_views(a@),
            y == str_views(b@),
            order_path(x, y) == order_path(x.skip(i as int), y.skip(i as int)),
        decreases a.len() - i,
    {
        assert(x[i as int] == a@[i as int]@);
        assert(y[i as int] == b@[i as int]@);
        assert(x.skip(i as int)[0] == x[i as int]);
        assert(y.skip(i as int)[0] == y[i as int]);
        let o = compare_text(a[i].as_str(), b[i].as_str());
        match o {
            Order::Equal => {},
            _ => {
                return o;
            },
        }
        assert(x.skip(i as int).drop_first() =~= x.skip(i + 1));
        assert(y.skip(i as int).drop_first() =~= y.skip(i + 1));
        i = i + 1;
    }
    if i == a.len() {
        if i == b.len() {
            Order::Equal
        } else {
            Order::Less
        }
    } else {
        Order::Greater
    }
}


// ---------------------------------------------------------------------
// Sorted sets of paths
// ---------------------------------------------------------------------

/// The views of a sequence of paths.
pub open spec fn pv(v: Seq<Vec<String>>) -> Seq<Seq<Seq<char>>> {
    v.map_values(|p: Vec<String>| str_views(p@))
}

/// Whether the paths are in strictly increasing order.
pub open spec fn strictly_sorted(s: Seq<Seq<Seq<char>>>) -> bool {
    forall|i: int, j: int| 0 <= i < j < s.len() ==> order_path(s[i], s[j]) == Order::Less
}

proof fn lemma_contains_push<T>(s: Seq<T>, y: T, x: T)
    ensures
        s.push(y).contains(x) == (s.contains(x) || x == y),
{
    if s.push(y).contains(x) {
        let k = choose|k: int| 0 <= k < s.push(y).len() && s.push(y)[k] == x;
        if k < s.len() {
            assert(s[k] == x);
        }
    }
    if s.contains(x) {
        let k = choose|k: int| 0 <= k < s.len() && s[k] == x;
        assert(s.push(y)[k] == x);
    }
    if x == y {
        assert(s.push(y)[s.len() as int] == x);
    }
}

proof fn lemma_take_succ<T>(s: Seq<T>, i: int)
    requires
        0 <= i < s.len(),
    ensures
        s.take(i + 1) == s.take(i).push(s[i]),
{
    assert(s.take(i + 1) =~= s.take(i).push(s[i]));
}

/// A copy of a path.
fn copy_path(p: &Vec<String>) -> (r: Vec<String>)
    ensures
        str_views(r@) == str_views(p@),
{
    crate::cli::copy_strings(p)
}

/// The union of two strictly increasing sequences of paths, strictly
/// increasing.
fn merge_unique(a: &Vec<Vec<String>>, b: &Vec<Vec<String>>) -> (r: Vec<Vec<String>>)
    requires
        strictly_sorted(pv(a@)),
        strictly_sorted(pv(b@)),
    ensures
        strictly_sorted(pv(r@)),
        forall|x: Seq<Seq<char>>|
            pv(r@).contains(x) <==> (pv(a@).contains(x) || pv(b@).contains(x)),
{
    let ghost av = pv(a@);
    let ghost bv = pv(b@);
    let mut r: Vec<Vec<String>> = Vec::new();
    let mut i: usize = 0;
    let mut j: usize = 0;
    assert(av.take(0) =~= Seq::<Seq<Seq<char>>>::empty());
    assert(bv.take(0) =~= Seq::<Seq<Seq<char>>>::empty());
    assert(pv(r@) =~= Seq::<Seq<Seq<char>>>::empty());
    while i < a.len() || j < b.len()
        invariant
            i <= a.len(),
            j <= b.len(),
            av == pv(a@),
            bv == pv(b@),
            strictly_sorted(av),
            strictly_sorted(bv),
            strictly_sorted(pv(r@)),
            forall|k: int|
                0 <= k < r.len() ==> (i < a.len() ==> order_path(#[trigger] pv(r@)[k], av[i as int])
                    == Order::Less) && (j < b.len() ==> order_path(pv(r@)[k], bv[j as int])
                    == Order::Less),
            forall|x: Seq<Seq<char>>|
                pv(r@).contains(x) <==> (av.take(i as int).contains(x) || bv.take(j as int).contains(
                    x,
                )),
        decreases a.len() + b.len() - i - j,
    {
        let ghost before = pv(r@);
        // 0: take from a, 1: take from b, 2: take both (equal)
        let which: u8 = if i == a.len() {
            1
        } else if j == b.len() {
            0
        } else {
            match compare_path(&a[i], &b[j]) {
                Order::Less => 0,
                Order::Greater => 1,
                Order::Equal => 2,
            }
        };
        if which == 0 || which == 2 {
            assert(av[i as int] == str_views(a@[i as int]@));
        }
        if which == 1 || which == 2 {
            assert(bv[j as int] == str_views(b@[j as int]@));
        }
        proof {
            if which == 2 {
                lemma_order_path_basics(av[i as int], bv[j as int]);
            }
            if which == 1 && i < a.len() {
                lemma_order_path_basics(av[i as int], bv[j as int]);
            }
        }
        let item = if which == 1 {
            copy_path(&b[j])
        } else {
            copy_path(&a[i])
        };
        let ghost y = str_views(item@);
        r.push(item);
        assert(pv(r@) =~= before.push(y));
        proof {
            assert forall|x: Seq<Seq<char>>| #[trigger] pv(r@).contains(x) == (before.contains(x) || x == y) by {
                lemma_contains_push(before, y, x);
            }
        }
        if which == 0 || which == 2 {
            proof {
                lemma_take_succ(av, i as int);
                assert forall|x: Seq<Seq<char>>| #[trigger] av.take(i + 1).contains(x) == (av.take(i as int).contains(x) || x == av[i as int]) by {
                    lemma_contains_push(av.take(i as int), av[i as int], x);
                }
            }
            i = i + 1;
        }
        if which == 1 || which == 2 {
            proof {
                lemma_take_succ(bv, j as int);
                assert forall|x: Seq<Seq<char>>| #[trigger] bv.take(j + 1).contains(x) == (bv.take(j as int).contains(x) || x == bv[j as int]) by {
                    lemma_contains_push(bv.take(j as int), bv[j as int], x);
                }
            }
            j = j + 1;
        }
        proof {
            // The new last element is below what remains of both inputs.
            assert forall|k: int|
                0 <= k < r.len() implies (i < a.len() ==> order_path(#[trigger] pv(r@)[k], av[i as int])
                    == Order::Less) && (j < b.len() ==> order_path(pv(r@)[k], bv[j as int])
                    == Order::Less) by {
                if k == r.len() - 1 {
                    if i < a.len() {
                        if which == 0 || which == 2 {
                            assert(order_path(av[i - 1], av[i as int]) == Order::Less);
                        } else {
                            lemma_order_path_basics(y, av[i as int]);
                        }
                    }
                    if j < b.len() {
                        if which == 1 || which == 2 {
                            assert(order_path(bv[j - 1], bv[j as int]) == Order::Less);
                        } else {
                            assert(order_path(y, bv[j as int]) == Order::Less);
                        }
                    }
                } else {
                    assert(pv(r@)[k] == before[k]);
                    if i < a.len() && (which == 0 || which == 2) {
                        lemma_order_path_trans(before[k], av[i - 1], av[i as int]);
                    }
                    if j < b.len() && (which == 1 || which == 2) {
                        lemma_order_path_trans(before[k], bv[j - 1], bv[j as int]);
                    }
                }
            }
            assert forall|p: int, q: int| 0 <= p < q < pv(r@).len() implies order_path(
                pv(r@)[p],
                pv(r@)[q],
            ) == Order::Less by {
                if q < pv(r@).len() - 1 {
                    assert(pv(r@)[p] == before[p] && pv(r@)[q] == before[q]);
                } else {
                    assert(pv(r@)[p] == before[p]);
                }
            }
        }
    }
    assert(av.take(a.len() as int) =~= av);
    assert(bv.take(b.len() as int) =~= bv);
    r
}

proof fn lemma_contains_split<T>(s: Seq<T>, m: int, x: T)
    requires
        0 <= m <= s.len(),
    ensures
        s.contains(x) == (s.take(m).contains(x) || s.skip(m).contains(x)),
{
    if s.contains(x) {
        let k = choose|k: int| 0 <= k < s.len() && s[k] == x;
        if k < m {
            assert(s.take(m)[k] == x);
        } else {
            assert(s.skip(m)[k - m] == x);
        }
    }
    if s.take(m).contains(x) {
        let k = choose|k: int| 0 <= k < s.take(m).len() && s.take(m)[k] == x;
        assert(s[k] == x);
    }
    if s.skip(m).contains(x) {
        let k = choose|k: int| 0 <= k < s.skip(m).len() && s.skip(m)[k] == x;
        assert(s[k + m] == x);
    }
}

/// The distinct paths of `v` in strictly increasing order.
pub fn sort_unique(v: Vec<Vec<String>>) -> (r: Vec<Vec<String>>)
    ensures
        strictly_sorted(pv(r@)),
        forall|x: Seq<Seq<char>>| pv(r@).contains(x) <==> pv(v@).contains(x),
    decreases v.len(),
{
    if v.len() <= 1 {
        return v;
    }
    let ghost vv = pv(v@);
    let mut left = v;
    let mid = left.len() / 2;
    let right = left.split_off(mid);
    assert(pv(left@) =~= vv.take(mid as int));
    assert(pv(right@) =~= vv.skip(mid as int));
    let ls = sort_unique(left);
    let rs = sort_unique(right);
    let r = merge_unique(&ls, &rs);
    proof {
        assert forall|x: Seq<Seq<char>>| pv(r@).contains(x) <==> vv.contains(x) by {
            lemma_contains_split(vv, mid as int, x);
        }
    }
    r
}

/// Where `target` stands in a strictly increasing sequence of paths, if it
/// is there.
pub fn find_path(nodes: &Vec<Vec<String>>, target: &Vec<String>) -> (r: Option<usize>)
    requires
        strictly_sorted(pv(nodes@)),
    ensures
        match r {
            Some(k) => k < nodes.len() && pv(nodes@)[k as int] == str_views(target@),
            None => !pv(nodes@).contains(str_views(target@)),
        },
{
    let ghost t = str_views(target@);
    let ghost nv = pv(nodes@);
    let mut lo: usize = 0;
    let mut hi: usize = nodes.len();
    while lo < hi
        invariant
            lo <= hi <= nodes.len(),
            nv == pv(nodes@),
            strictly_sorted(nv),
            t == str_views(target@),
            forall|k: int| 0 <= k < lo ==> order_path(#[trigger] nv[k], t) == Order::Less,
            forall|k: int| hi <= k < nodes.len() ==> order_path(t, #[trigger] nv[k]) == Order::Less,
        decreases hi - lo,
    {
        let mid = lo + (hi - lo) / 2;
        assert(nv[mid as int] == str_views(nodes@[mid as int]@));
        match compare_path(&nodes[mid], target) {
            Order::Equal => {
                proof {
                    lemma_order_path_basics(nv[mid as int], t);
                }
                return Some(mid);
            },
            Order::Less => {
                proof {
                    assert forall|k: int| 0 <= k < mid + 1 implies order_path(#[trigger] nv[k], t)
                        == Order::Less by {
                        if k < mid {
                            lemma_order_path_trans(nv[k], nv[mid as int], t);
                        }
                    }
                }
                lo = mid + 1;
            },
            Order::Greater => {
                proof {
                    lemma_order_path_basics(t, nv[mid as int]);
                    assert forall|k: int| mid <= k < nodes.len() implies order_path(t, #[trigger] nv[k])
                        == Order::Less by {
                        if k > mid {
                            lemma_order_path_trans(t, nv[mid as int], nv[k]);
                        }
                    }
                }
                hi = mid;
            },
        }
    }
    proof {
        if nv.contains(t) {
            let k = choose|k: int| 0 <= k < nv.len() && nv[k] == t;
            lemma_order_path_basics(t, t);
            if k < lo {
                assert(order_path(nv[k], t) == Order::Less);
            } else {
                assert(order_path(t, nv[k]) == Order::Less);
            }
        }
    }
    None
}


// ---------------------------------------------------------------------
// Building the tree
// ---------------------------------------------------------------------

/// The views of a sequence of entries.
pub open spec fn entry_views(es: Seq<EntryInfo>) -> Seq<EntryView> {
    es.map_values(|e: EntryInfo| e@)
}

/// The path components an entry is placed by: the names of its path's
/// normal components.
pub open spec fn entry_parts(e: EntryView) -> Seq<Seq<char>> {
    normal_parts(e.path)
}

/// Whether a path is a node of the tree of `es`: a non-empty beginning of
/// some entry's components.
pub open spec fn in_closure(es: Seq<EntryView>, p: Seq<Seq<char>>) -> bool {
    p.len() > 0 && exists|k: int| 0 <= k < es.len() && path_prefix(p, #[trigger] entry_parts(es[k]))
}

/// The last entry placed at `p`, if any.
pub open spec fn last_info(es: Seq<EntryView>, p: Seq<Seq<char>>) -> Option<EntryView>
    decreases es.len(),
{
    if es.len() == 0 {
        None
    } else if entry_parts(es.last()) == p {
        Some(es.last())
    } else {
        last_info(es.drop_last(), p)
    }
}

/// All non-empty beginnings of each entry's components.
fn collect_prefixes(entries: &[EntryInfo]) -> (r: Vec<Vec<String>>)
    ensures
        forall|x: Seq<Seq<char>>|
            pv(r@).contains(x) <==> in_closure(entry_views(entries@), x),
{
    let ghost es = entry_views(entries@);
    let mut r: Vec<Vec<String>> = Vec::new();
    let mut k: usize = 0;
    while k < entries.len()
        invariant
            k <= entries.len(),
            es == entry_views(entries@),
            forall|x: Seq<Seq<char>>|
                #![trigger pv(r@).contains(x)]
                pv(r@).contains(x) <==> (x.len() > 0 && exists|m: int|
                    0 <= m < k && path_prefix(x, #[trigger] entry_parts(es[m]))),
        decreases entries.len() - k,
    {
        let parts = path_normal_parts(entries[k].path.as_str());
        let ghost ps = str_views(parts@);
        assert(es[k as int] == entries@[k as int]@);
        assert(ps == entry_parts(es[k as int]));
        let ghost start = pv(r@);
        let mut a: usize = 0;
        while a < parts.len()
            invariant
                a <= parts.len(),
                ps == str_views(parts@),
                forall|x: Seq<Seq<char>>|
                    #![trigger pv(r@).contains(x)]
                    pv(r@).contains(x) <==> (start.contains(x) || (1 <= x.len() <= a && x
                        == ps.take(x.len() as int))),
            decreases parts.len() - a,
        {
            let mut pre: Vec<String> = Vec::new();
            let mut b: usize = 0;
            while b <= a
                invariant
                    b <= a + 1,
                    a < parts.len(),
                    ps == str_views(parts@),
                    str_views(pre@) == ps.take(b as int),
                decreases a + 1 - b,
            {
                let c = parts[b].clone();
                assert(c@ == ps[b as int]);
                let ghost pb = str_views(pre@);
                pre.push(c);
                assert(str_views(pre@) =~= pb.push(c@));
                b = b + 1;
                assert(str_views(pre@) =~= ps.take(b as int));
            }
            let ghost before = pv(r@);
            r.push(pre);
            assert(pv(r@) =~= before.push(ps.take(a as int + 1)));
            proof {
                assert forall|x: Seq<Seq<char>>| #[trigger] pv(r@).contains(x) <==> (start.contains(x)
                    || (1 <= x.len() <= a + 1 && x == ps.take(x.len() as int))) by {
                    lemma_contains_push(before, ps.take(a as int + 1), x);
                }
            }
            a = a + 1;
        }
        proof {
            assert forall|x: Seq<Seq<char>>| #[trigger] pv(r@).contains(x) <==> (x.len() > 0
                && exists|m: int| 0 <= m < k + 1 && path_prefix(x, #[trigger] entry_parts(es[m]))) by {
                if pv(r@).contains(x) && !start.contains(x) {
                    assert(path_prefix(x, entry_parts(es[k as int])));
                }
                if x.len() > 0 && (exists|m: int|
                    0 <= m < k + 1 && path_prefix(x, #[trigger] entry_parts(es[m]))) {
                    let m = choose|m: int|
                        0 <= m < k + 1 && path_prefix(x, #[trigger] entry_parts(es[m]));
                    if m < k {
                        assert(start.contains(x));
                    } else {
                        assert(x == ps.take(x.len() as int));
                    }
                }
            }
        }
        k = k + 1;
    }
    r
}

/// An archive's entries arranged as a tree.
pub struct TreeNode {
    paths: Vec<Vec<String>>,
    infos: Vec<Option<EntryInfo>>,
}

/// What a [`TreeNode`] holds: its nodes' paths in order, and the entry
/// placed at each.
pub struct TreeView {
    pub paths: Seq<Seq<Seq<char>>>,
    pub infos: Seq<Option<EntryView>>,
}

/// The view of optional entries.
pub open spec fn info_views(v: Seq<Option<EntryInfo>>) -> Seq<Option<EntryView>> {
    v.map_values(
        |o: Option<EntryInfo>|
            match o {
                Some(e) => Some(e@),
                None => None,
            },
    )
}

/// Whether every node's parent directories are nodes too.
pub open spec fn prefix_closed(ps: Seq<Seq<Seq<char>>>) -> bool {
    forall|i: int, a: int|
        0 <= i < ps.len() && 1 <= a < ps[i].len() ==> ps.contains(#[trigger] ps[i].take(a))
}

/// Whether a sequence of paths is a tree: strictly increasing, no empty
/// path, every parent present.
pub open spec fn is_tree(ps: Seq<Seq<Seq<char>>>) -> bool {
    &&& strictly_sorted(ps)
    &&& forall|i: int| 0 <= i < ps.len() ==> (#[trigger] ps[i]).len() > 0
    &&& prefix_closed(ps)
}

impl View for TreeNode {
    type V = TreeView;

    closed spec fn view(&self) -> TreeView {
        TreeView { paths: pv(self.paths@), infos: info_views(self.infos@) }
    }
}

impl TreeNode {
    #[verifier::type_invariant]
    spec fn well_formed(&self) -> bool {
        &&& is_tree(pv(self.paths@))
        &&& self.infos.len() == self.paths.len()
    }
}

/// The tree of the entries: its nodes are the non-empty beginnings of the
/// entries' components, in increasing order (so that each node's children
/// follow it in the order of their names), and each node carries the last
/// entry placed at it.
pub fn build_tree(entries: &[EntryInfo]) -> (t: TreeNode)
    ensures
        strictly_sorted(t@.paths),
        forall|x: Seq<Seq<char>>|
            t@.paths.contains(x) <==> in_closure(entry_views(entries@), x),
        t@.infos.len() == t@.paths.len(),
        forall|k: int|
            0 <= k < t@.paths.len() ==> t@.infos[k] == last_info(
                entry_views(entries@),
                #[trigger] t@.paths[k],
            ),
{
    let ghost es = entry_views(entries@);
    let all = collect_prefixes(entries);
    let paths = sort_unique(all);
    let ghost ps = pv(paths@);
    proof {
        assert forall|i: int| 0 <= i < ps.len() implies (#[trigger] ps[i]).len() > 0 by {
            assert(ps.contains(ps[i]));
        }
        assert forall|i: int, a: int| 0 <= i < ps.len() && 1 <= a < ps[i].len() implies ps.contains(
            #[trigger] ps[i].take(a),
        ) by {
            assert(ps.contains(ps[i]));
            let m = choose|m: int| 0 <= m < es.len() && path_prefix(ps[i], #[trigger] entry_parts(es[m]));
            assert(entry_parts(es[m]).take(a) =~= ps[i].take(a));
            assert(path_prefix(ps[i].take(a), entry_parts(es[m])));
            assert(in_closure(es, ps[i].take(a)));
        }
    }
    let mut infos: Vec<Option<EntryInfo>> = Vec::new();
    let mut n: usize = 0;
    while n < paths.len()
        invariant
            n <= paths.len(),
            infos.len() == n,
            forall|m: int| 0 <= m < n ==> (#[trigger] infos@[m]) is None,
        decreases paths.len() - n,
    {
        infos.push(None);
        n = n + 1;
    }
    let mut k: usize = 0;
    assert(es.take(0) =~= Seq::<EntryView>::empty());
    while k < entries.len()
        invariant
            k <= entries.len(),
            es == entry_views(entries@),
            ps == pv(paths@),
            is_tree(ps),
            forall|x: Seq<Seq<char>>| ps.contains(x) <==> in_closure(es, x),
            infos.len() == paths.len(),
            forall|m: int|
                0 <= m < ps.len() ==> info_views(infos@)[m] == last_info(
                    es.take(k as int),
                    #[trigger] ps[m],
                ),
        decreases entries.len() - k,
    {
        let e = &entries[k];
        assert(es[k as int] == e@);
        assert(es.take(k as int + 1).drop_last() =~= es.take(k as int));
        assert(es.take(k as int + 1).last() == e@);
        let parts = path_normal_parts(e.path.as_str());
        if parts.len() > 0 {
            proof {
                assert(entry_parts(es[k as int]).take(entry_parts(es[k as int]).len() as int)
                    =~= entry_parts(es[k as int]));
                assert(path_prefix(entry_parts(es[k as int]), entry_parts(es[k as int])));
                assert(in_closure(es, str_views(parts@)));
            }
            match find_path(&paths, &parts) {
                Some(idx) => {
                    let ghost before = info_views(infos@);
                    infos.set(idx, Some(e.duplicate()));
                    proof {
                        assert forall|m: int| 0 <= m < ps.len() implies info_views(infos@)[m]
                            == last_info(es.take(k as int + 1), #[trigger] ps[m]) by {
                            if m != idx {
                                lemma_order_path_basics(ps[m], ps[idx as int]);
                                if m < idx {
                                    assert(order_path(ps[m], ps[idx as int]) == Order::Less);
                                } else {
                                    assert(order_path(ps[idx as int], ps[m]) == Order::Less);
                                    lemma_order_path_basics(ps[idx as int], ps[m]);
                                }
                                assert(info_views(infos@)[m] == before[m]);
                            }
                        }
                    }
                },
                None => {},
            }
        } else {
            proof {
                assert forall|m: int| 0 <= m < ps.len() implies info_views(infos@)[m]
                    == last_info(es.take(k as int + 1), #[trigger] ps[m]) by {
                    assert(ps[m].len() > 0);
                }
            }
        }
        k = k + 1;
    }
    assert(es.take(entries.len() as int) =~= es);
    let t = TreeNode { paths, infos };
    t
}


// ---------------------------------------------------------------------
// Shape of the drawing
// ---------------------------------------------------------------------

/// How the tree is drawn.
pub struct TreeOptions<'a> {
    /// The deepest level drawn; 0 draws every level.
    pub max_depth: u32,
    pub show_size: bool,
    pub show_date: bool,
    pub show_perm: bool,
    /// The `strftime` format of dates.
    pub date_fmt: &'a str,
    /// Box-drawing characters when set, ASCII otherwise.
    pub unicode: bool,
}

/// What a [`TreeOptions`] holds.
pub struct OptionsView {
    pub max_depth: u32,
    pub show_size: bool,
    pub show_date: bool,
    pub show_perm: bool,
    pub date_fmt: Seq<char>,
    pub unicode: bool,
}

impl<'a> View for TreeOptions<'a> {
    type V = OptionsView;

    open spec fn view(&self) -> OptionsView {
        OptionsView {
            max_depth: self.max_depth,
            show_size: self.show_size,
            show_date: self.show_date,
            show_perm: self.show_perm,
            date_fmt: self.date_fmt@,
            unicode: self.unicode,
        }
    }
}

/// Whether a node at depth `d` is drawn.
pub open spec fn depth_shown(max_depth: u32, d: int) -> bool {
    max_depth == 0 || d <= max_depth
}

/// Whether two paths name children of one directory.
pub open spec fn siblings(q: Seq<Seq<char>>, r: Seq<Seq<char>>) -> bool {
    q.len() > 0 && r.len() == q.len() && r.take(q.len() - 1) == q.take(q.len() - 1)
}

/// Whether no sibling of `q` comes after it.
pub open spec fn is_last_child(ps: Seq<Seq<Seq<char>>>, q: Seq<Seq<char>>) -> bool {
    forall|k: int|
        0 <= k < ps.len() && siblings(q, #[trigger] ps[k]) ==> order_path(q, ps[k]) != Order::Less
}

/// Whether some node is a child of `q`.
pub open spec fn has_children(ps: Seq<Seq<Seq<char>>>, q: Seq<Seq<char>>) -> bool {
    exists|k: int|
        0 <= k < ps.len() && (#[trigger] ps[k]).len() == q.len() + 1 && path_prefix(q, ps[k])
}

/// The branch drawn before a node.
pub open spec fn connector(last: bool, unicode: bool) -> Seq<char> {
    if unicode {
        if last {
            "└── "@
        } else {
            "├── "@
        }
    } else {
        if last {
            "`-- "@
        } else {
            "|-- "@
        }
    }
}

/// The column drawn below a node for its descendants: a bar while
/// siblings follow it, blank after the last one.
pub open spec fn continuation(last: bool, unicode: bool) -> Seq<char> {
    if last {
        "    "@
    } else if unicode {
        "│   "@
    } else {
        "|   "@
    }
}

/// The columns drawn for the first `j` ancestors of `q` below the root.
pub open spec fn indent(ps: Seq<Seq<Seq<char>>>, q: Seq<Seq<char>>, j: int, unicode: bool) -> Seq<
    char,
>
    decreases j,
{
    if j <= 0 {
        Seq::empty()
    } else {
        indent(ps, q, j - 1, unicode) + continuation(is_last_child(ps, q.take(j)), unicode)
    }
}

/// Whether `a` and `b` have the same first `m` components.
fn same_start(a: &Vec<String>, b: &Vec<String>, m: usize) -> (r: bool)
    requires
        m <= b.len(),
    ensures
        r == (m <= a.len() && str_views(a@).take(m as int) == str_views(b@).take(m as int)),
{
    if a.len() < m {
        return false;
    }
    let mut j: usize = 0;
    while j < m
        invariant
            j <= m,
            m <= a.len(),
            m <= b.len(),
            str_views(a@).take(j as int) == str_views(b@).take(j as int),
        decreases m - j,
    {
        assert(str_views(a@)[j as int] == a@[j as int]@);
        assert(str_views(b@)[j as int] == b@[j as int]@);
        if !same_text(a[j].as_str(), b[j].as_str()) {
            assert(str_views(a@).take(m as int)[j as int] != str_views(b@).take(m as int)[j as int]);
            return false;
        }
        assert(str_views(a@).take(j as int + 1) =~= str_views(a@).take(j as int).push(
            str_views(a@)[j as int],
        ));
        assert(str_views(b@).take(j as int + 1) =~= str_views(b@).take(j as int).push(
            str_views(b@)[j as int],
        ));
        j = j + 1;
    }
    true
}

/// For each node, whether it is the last child of its parent.
fn last_flags(paths: &Vec<Vec<String>>) -> (r: Vec<bool>)
    requires
        is_tree(pv(paths@)),
    ensures
        r.len() == paths.len(),
        forall|i: int| 0 <= i < r.len() ==> r@[i] == is_last_child(pv(paths@), #[trigger] pv(paths@)[i]),
{
    let ghost ps = pv(paths@);
    let mut r: Vec<bool> = Vec::new();
    let n = paths.len();
    let mut i: usize = 0;
    while i < n
        invariant
            i <= n,
            n == paths.len(),
            ps == pv(paths@),
            is_tree(ps),
            r.len() == i,
            forall|m: int| 0 <= m < i ==> r@[m] == is_last_child(ps, #[trigger] ps[m]),
        decreases n - i,
    {
        let d = paths[i].len();
        assert(ps[i as int].len() == d);
        assert(d > 0);
        let ghost q = ps[i as int];
        let ghost parent = q.take(d - 1);
        let mut last = true;
        let mut stop = false;
        let mut j: usize = i + 1;
        while j < n && !stop
            invariant
                i < j <= n,
                n == paths.len(),
                ps == pv(paths@),
                is_tree(ps),
                q == ps[i as int],
                d == q.len(),
                d > 0,
                parent == q.take(d - 1),
                forall|m: int|
                    i < m < j ==> path_prefix(parent, #[trigger] ps[m]) && ps[m].len() != d,
                stop ==> j < n,
                stop && last ==> !path_prefix(parent, ps[j as int]),
                !last ==> stop && siblings(q, ps[j as int]) && order_path(q, ps[j as int])
                    == Order::Less,
            decreases 2 * (n - j) + (if stop { 0int } else { 1int }),
        {
            assert(ps[j as int] == str_views(paths@[j as int]@));
            assert(q == str_views(paths@[i as int]@));
            let within = same_start(&paths[j], &paths[i], d - 1);
            if !within {
                stop = true;
            } else if paths[j].len() == d {
                assert(siblings(q, ps[j as int]));
                assert(order_path(q, ps[j as int]) == Order::Less);
                last = false;
                stop = true;
            } else {
                j = j + 1;
            }
        }
        proof {
            if last {
                assert forall|k: int|
                    0 <= k < ps.len() && siblings(q, #[trigger] ps[k]) implies order_path(
                    q,
                    ps[k],
                ) != Order::Less by {
                    lemma_order_path_basics(q, ps[k]);
                    lemma_order_path_basics(ps[k], q);
                    if k > i && order_path(q, ps[k]) == Order::Less {
                        assert(path_prefix(parent, ps[k]));
                        if j < n {
                            if k > j {
                                assert(order_path(ps[j as int], ps[k]) == Order::Less);
                                assert(order_path(q, ps[j as int]) == Order::Less);
                                assert(path_prefix(parent, q));
                                lemma_prefix_between(parent, q, ps[j as int], ps[k]);
                            }
                        }
                    }
                    if k < i {
                        assert(order_path(ps[k], q) == Order::Less);
                    }
                }
            } else {
                assert(!is_last_child(ps, q));
            }
        }
        r.push(last);
        i = i + 1;
    }
    r
}

/// Whether node `i` has a child: its next node lies below it.
fn node_has_children(paths: &Vec<Vec<String>>, i: usize) -> (r: bool)
    requires
        is_tree(pv(paths@)),
        i < paths.len(),
    ensures
        r == has_children(pv(paths@), pv(paths@)[i as int]),
{
    let ghost ps = pv(paths@);
    let ghost q = ps[i as int];
    assert(q == str_views(paths@[i as int]@));
    if i + 1 >= paths.len() {
        proof {
            assert forall|k: int|
                0 <= k < ps.len() && (#[trigger] ps[k]).len() == q.len() + 1 implies !path_prefix(
                q,
                ps[k],
            ) by {
                if path_prefix(q, ps[k]) {
                    lemma_prefix_order(q, ps[k]);
                    lemma_order_path_basics(ps[k], q);
                    if k < i {
                        assert(order_path(ps[k], q) == Order::Less);
                    }
                }
            }
        }
        return false;
    }
    let d = paths[i].len();
    assert(ps[i as int + 1] == str_views(paths@[i as int + 1]@));
    let r = same_start(&paths[i + 1], &paths[i], d);
    proof {
        let next = ps[i as int + 1];
        assert(q.take(d as int) =~= q);
        assert(order_path(q, next) == Order::Less);
        lemma_order_path_basics(q, next);
        if r {
            assert(path_prefix(q, next));
            if next.len() == d {
                assert(next.take(d as int) =~= next);
            }
            assert(next.len() > d);
            let c = next.take(d as int + 1);
            if next.len() == d + 1 {
                assert(c =~= next);
                assert(ps.contains(c));
            } else {
                assert(ps.contains(ps[i as int + 1].take(d as int + 1)));
            }
            let k = choose|k: int| 0 <= k < ps.len() && ps[k] == c;
            assert(c.take(d as int) =~= q);
            assert(ps[k].len() == q.len() + 1 && path_prefix(q, ps[k]));
        } else {
            assert(!path_prefix(q, next));
            assert forall|k: int|
                0 <= k < ps.len() && (#[trigger] ps[k]).len() == q.len() + 1 implies !path_prefix(
                q,
                ps[k],
            ) by {
                if path_prefix(q, ps[k]) {
                    lemma_prefix_order(q, ps[k]);
                    lemma_order_path_basics(ps[k], q);
                    if k < i {
                        assert(order_path(ps[k], q) == Order::Less);
                    } else if k > i + 1 {
                        assert(order_path(next, ps[k]) == Order::Less);
                        assert(q.take(q.len() as int) =~= q);
                        lemma_prefix_between(q, q, next, ps[k]);
                    }
                }
            }
        }
    }
    r
}

// ---------------------------------------------------------------------
// Pieces of the drawing
// ---------------------------------------------------------------------

/// A piece of text and its style.
pub open spec fn piece_view(p: Painted) -> (Seq<char>, Style) {
    (p.text@, p.style)
}

/// The views of pieces.
pub open spec fn painted_views(v: Seq<Painted>) -> Seq<(Seq<char>, Style)> {
    v.map_values(|p: Painted| piece_view(p))
}

/// The text of pieces, one after the other.
pub open spec fn texts_of(s: Seq<(Seq<char>, Style)>) -> Seq<char>
    decreases s.len(),
{
    if s.len() == 0 {
        Seq::empty()
    } else {
        texts_of(s.drop_last()) + s.last().0
    }
}

/// Whether every piece from `from` on is drawn plain.
pub open spec fn all_plain_from(v: Seq<Painted>, from: int) -> bool {
    forall|j: int| 0 <= j && from <= j < v.len() ==> (#[trigger] v[j]).style.is_plain()
}

/// Unstyled text.
pub open spec fn plain_style() -> Style {
    Style { hue: Hue::Plain, bold: false }
}

/// The style of text of kind `k` under a configuration: its color when
/// colors are on, in bold for headers and errors.
pub open spec fn style_in(c: ConfigView, k: ColorKey) -> Style {
    Style {
        hue: hue_of(c.display.colors, c.colors.get(k)),
        bold: k == ColorKey::Header || k == ColorKey::Error,
    }
}

/// Whether node `i` is drawn as a directory: as its entry says, or, with
/// no entry, when it has children.
pub open spec fn node_is_dir(t: TreeView, i: int) -> bool {
    match t.infos[i] {
        Some(e) => e.is_dir,
        None => has_children(t.paths, t.paths[i]),
    }
}

/// Whether node `i` is drawn as a link.
pub open spec fn node_is_link(t: TreeView, i: int) -> bool {
    match t.infos[i] {
        Some(e) => e.is_link,
        None => false,
    }
}

/// The permission text of an entry; nine `?` when its mode is unknown.
pub open spec fn shown_perm(e: EntryView) -> Seq<char> {
    match e.perm {
        Some(p) => perm_text(p),
        None => "?????????"@,
    }
}

/// The name of node `i`: its last component, as a directory, as a link
/// followed by ` -> ` and its target when it has one, or as a file.
pub open spec fn name_pieces(t: TreeView, i: int, c: ConfigView) -> Seq<(Seq<char>, Style)> {
    let name = t.paths[i].last();
    if node_is_dir(t, i) {
        seq![(name, style_in(c, ColorKey::Dir))]
    } else if node_is_link(t, i) {
        let base = seq![(name, style_in(c, ColorKey::Link))];
        match t.infos[i] {
            Some(e) => match e.link_target {
                Some(target) => base + seq![
                    (" -> "@, plain_style()),
                    (target, style_in(c, ColorKey::Link)),
                ],
                None => base,
            },
            None => base,
        }
    } else {
        seq![(name, style_in(c, ColorKey::File))]
    }
}

/// The columns after the name of node `i`, each after two spaces: its
/// permissions, its size (not for directories), its date; none for a
/// node with no entry.
pub open spec fn meta_pieces(t: TreeView, i: int, o: OptionsView, c: ConfigView, date: Seq<char>) -> Seq<
    (Seq<char>, Style),
> {
    match t.infos[i] {
        None => Seq::empty(),
        Some(e) => (if o.show_perm {
            seq![("  "@, plain_style()), (shown_perm(e), style_in(c, ColorKey::Perm))]
        } else {
            Seq::empty()
        }) + (if o.show_size && !node_is_dir(t, i) {
            seq![("  "@, plain_style()), (binary_size_text(e.size), style_in(c, ColorKey::Size))]
        } else {
            Seq::empty()
        }) + (if o.show_date {
            seq![("  "@, plain_style()), (date, style_in(c, ColorKey::Date))]
        } else {
            Seq::empty()
        }),
    }
}

/// The line of node `i`: the columns of its ancestors and its branch, its
/// emoji and a space when emoji are on, its name, its columns, a newline.
pub open spec fn line_pieces(t: TreeView, i: int, o: OptionsView, c: ConfigView, date: Seq<char>) -> Seq<
    (Seq<char>, Style),
> {
    let ps = t.paths;
    let q = ps[i];
    seq![
        (indent(ps, q, q.len() - 1, o.unicode) + connector(is_last_child(ps, q), o.unicode), style_in(
            c,
            ColorKey::Tree,
        )),
    ] + (if c.display.emoji {
        seq![
            (emoji_spec(q.last(), node_is_dir(t, i), node_is_link(t, i), c) + " "@, plain_style()),
        ]
    } else {
        Seq::empty()
    }) + name_pieces(t, i, c) + meta_pieces(t, i, o, c, date) + seq![("\n"@, plain_style())]
}

/// The pieces of the lines of the first `k` nodes that are drawn, given
/// each node's date text.
pub open spec fn tree_pieces_upto(
    t: TreeView,
    o: OptionsView,
    c: ConfigView,
    dates: Seq<Seq<char>>,
    k: int,
) -> Seq<(Seq<char>, Style)>
    decreases k,
{
    if k <= 0 {
        Seq::empty()
    } else {
        tree_pieces_upto(t, o, c, dates, k - 1) + if depth_shown(o.max_depth, t.paths[k - 1].len() as int) {
            line_pieces(t, k - 1, o, c, dates[k - 1])
        } else {
            Seq::empty()
        }
    }
}

/// Whether the line of node `i` can be drawn: every kind of text on it can
/// (see [`drawable`]).
pub open spec fn line_drawable(t: TreeView, i: int, o: OptionsView, c: ConfigView) -> bool {
    &&& drawable(c, ColorKey::Tree)
    &&& if node_is_dir(t, i) {
        drawable(c, ColorKey::Dir)
    } else if node_is_link(t, i) {
        drawable(c, ColorKey::Link)
    } else {
        drawable(c, ColorKey::File)
    }
    &&& match t.infos[i] {
        Some(_) => (o.show_perm ==> drawable(c, ColorKey::Perm)) && (o.show_size && !node_is_dir(
            t,
            i,
        ) ==> drawable(c, ColorKey::Size)) && (o.show_date ==> drawable(c, ColorKey::Date)),
        None => true,
    }
}

/// Whether every line of the drawing can be drawn.
pub open spec fn tree_drawable(t: TreeView, o: OptionsView, c: ConfigView) -> bool {
    forall|i: int|
        0 <= i < t.paths.len() && depth_shown(o.max_depth, t.paths[i].len() as int)
            ==> #[trigger] line_drawable(t, i, o, c)
}

/// Appends a piece, keeping track of whether the pieces from `from` on are
/// plain when `watch` is set.
fn push_piece(out: &mut Vec<Painted>, p: Painted, Ghost(from): Ghost<int>, Ghost(watch): Ghost<bool>)
    requires
        watch ==> all_plain_from(old(out)@, from),
        watch ==> p.style.is_plain(),
    ensures
        final(out)@ == old(out)@.push(p),
        painted_views(final(out)@) == painted_views(old(out)@).push(piece_view(p)),
        watch ==> all_plain_from(final(out)@, from),
{
    let ghost before = out@;
    out.push(p);
    assert(painted_views(out@) =~= painted_views(before).push(piece_view(p)));
    assert forall|j: int| watch && 0 <= j && from <= j < out@.len() implies (#[trigger] out@[j]).style.is_plain() by {
        if j < before.len() {
            assert(out@[j] == before[j]);
        }
    }
}

/// An unstyled piece.
fn plain_piece(s: &str) -> (p: Painted)
    ensures
        p.text@ == s@,
        p.style == plain_style(),
{
    Painted { text: owned(s), style: Style { hue: Hue::Plain, bold: false } }
}

fn connector_text(last: bool, unicode: bool) -> (r: &'static str)
    ensures
        r@ == connector(last, unicode),
{
    if unicode {
        if last {
            "└── "
        } else {
            "├── "
        }
    } else {
        if last {
            "`-- "
        } else {
            "|-- "
        }
    }
}

fn continuation_text(last: bool, unicode: bool) -> (r: &'static str)
    ensures
        r@ == continuation(last, unicode),
{
    if last {
        "    "
    } else if unicode {
        "│   "
    } else {
        "|   "
    }
}

impl TreeNode {
    /// The columns and branch drawn before node `i`.
    fn branch_text(&self, i: usize, lasts: &Vec<bool>, unicode: bool) -> (r: String)
        requires
            i < self@.paths.len(),
            lasts.len() == self@.paths.len(),
            forall|m: int|
                0 <= m < lasts.len() ==> lasts@[m] == is_last_child(
                    self@.paths,
                    #[trigger] self@.paths[m],
                ),
        ensures
            r@ == indent(self@.paths, self@.paths[i as int], self@.paths[i as int].len() - 1, unicode)
                + connector(is_last_child(self@.paths, self@.paths[i as int]), unicode),
    {
        proof {
            use_type_invariant(self);
        }
        let ghost ps = self@.paths;
        let ghost q = ps[i as int];
        assert(q == str_views(self.paths@[i as int]@));
        let d = self.paths[i].len();
        assert forall|m: int| 1 <= m < d implies ps.contains(#[trigger] q.take(m)) by {
            assert(ps.contains(ps[i as int].take(m)));
        }
        let mut text = String::new();
        let mut anc: Vec<String> = Vec::new();
        let mut j: usize = 0;
        while j + 1 < d
            invariant
                j + 1 <= d,
                d == q.len(),
                ps == pv(self.paths@),
                strictly_sorted(ps),
                forall|m: int| 1 <= m < d ==> ps.contains(#[trigger] q.take(m)),
                q == str_views(self.paths@[i as int]@),
                i < self.paths.len(),
                lasts.len() == self.paths.len(),
                forall|m: int|
                    0 <= m < lasts.len() ==> lasts@[m] == is_last_child(ps, #[trigger] ps[m]),
                str_views(anc@) == q.take(j as int),
                text@ == indent(ps, q, j as int, unicode),
            decreases d - j,
        {
            let piece = self.paths[i][j].clone();
            assert(piece@ == q[j as int]);
            let ghost before = str_views(anc@);
            anc.push(piece);
            assert(str_views(anc@) =~= before.push(q[j as int]));
            assert(q.take(j as int + 1) =~= q.take(j as int).push(q[j as int]));
            let ghost a = q.take(j as int + 1);
            assert(ps.contains(a));
            match find_path(&self.paths, &anc) {
                Some(idx) => {
                    assert(lasts@[idx as int] == is_last_child(ps, a));
                    push_str(&mut text, continuation_text(lasts[idx], unicode));
                },
                None => {
                    assert(false);
                },
            }
            j = j + 1;
        }
        assert(lasts@[i as int] == is_last_child(ps, q));
        push_str(&mut text, connector_text(lasts[i], unicode));
        text
    }

    /// Whether node `i` is drawn as a directory and as a link.
    fn node_kind(&self, i: usize) -> (r: (bool, bool))
        requires
            i < self@.paths.len(),
        ensures
            r.0 == node_is_dir(self@, i as int),
            r.1 == node_is_link(self@, i as int),
    {
        proof {
            use_type_invariant(self);
        }
        assert(self@.infos[i as int] == info_views(self.infos@)[i as int]);
        let is_dir = match &self.infos[i] {
            Some(e) => e.is_dir,
            None => node_has_children(&self.paths, i),
        };
        let is_link = match &self.infos[i] {
            Some(e) => e.is_link,
            None => false,
        };
        (is_dir, is_link)
    }

    /// Appends the pieces of the name of node `i`.
    fn draw_name(
        &self,
        i: usize,
        is_dir: bool,
        is_link: bool,
        opts: &TreeOptions,
        config: &Config,
        painter: &Painter,
        out: &mut Vec<Painted>,
    )
        requires
            i < self@.paths.len(),
            is_dir == node_is_dir(self@, i as int),
            is_link == node_is_link(self@, i as int),
            painter.colors_spec() == config@.colors,
            painter.enabled_spec() == config@.display.colors,
            line_drawable(self@, i as int, opts@, config@),
            !config@.display.colors ==> all_plain_from(old(out)@, 0),
        ensures
            painted_views(final(out)@) == painted_views(old(out)@) + name_pieces(self@, i as int, config@),
            !config@.display.colors ==> all_plain_from(final(out)@, 0),
    {
        proof {
            use_type_invariant(self);
        }
        let ghost watch = !config@.display.colors;
        let ghost start = painted_views(out@);
        assert(self@.paths[i as int] == str_views(self.paths@[i as int]@));
        assert(self@.infos[i as int] == info_views(self.infos@)[i as int]);
        let d = self.paths[i].len();
        let name = self.paths[i][d - 1].as_str();
        if is_dir {
            push_piece(out, painter.dir(name), Ghost(0), Ghost(watch));
        } else if is_link {
            push_piece(out, painter.link(name), Ghost(0), Ghost(watch));
            match &self.infos[i] {
                Some(e) => match &e.link_target {
                    Some(target) => {
                        push_piece(out, plain_piece(" -> "), Ghost(0), Ghost(watch));
                        push_piece(out, painter.link(target.as_str()), Ghost(0), Ghost(watch));
                    },
                    None => {},
                },
                None => {},
            }
        } else {
            push_piece(out, painter.file(name), Ghost(0), Ghost(watch));
        }
        assert(painted_views(out@) =~= start + name_pieces(self@, i as int, config@));
    }

    /// Appends the pieces of the columns of node `i`.
    fn draw_meta(
        &self,
        i: usize,
        is_dir: bool,
        opts: &TreeOptions,
        config: &Config,
        painter: &Painter,
        date: &str,
        out: &mut Vec<Painted>,
    )
        requires
            i < self@.paths.len(),
            is_dir == node_is_dir(self@, i as int),
            painter.colors_spec() == config@.colors,
            painter.enabled_spec() == config@.display.colors,
            line_drawable(self@, i as int, opts@, config@),
            !config@.display.colors ==> all_plain_from(old(out)@, 0),
        ensures
            painted_views(final(out)@) == painted_views(old(out)@) + meta_pieces(
                self@,
                i as int,
                opts@,
                config@,
                date@,
            ),
            !config@.display.colors ==> all_plain_from(final(out)@, 0),
    {
        proof {
            use_type_invariant(self);
        }
        let ghost watch = !config@.display.colors;
        let ghost start = painted_views(out@);
        let ghost t = self@;
        let ghost c = config@;
        let ghost o = opts@;
        assert(t.infos[i as int] == info_views(self.infos@)[i as int]);
        match &self.infos[i] {
            Some(e) => {
                if opts.show_perm {
                    push_piece(out, plain_piece("  "), Ghost(0), Ghost(watch));
                    let perm = e.perm_str();
                    push_piece(out, painter.perm(perm.as_str()), Ghost(0), Ghost(watch));
                }
                let ghost p1 = painted_views(out@);
                if opts.show_size && !is_dir {
                    push_piece(out, plain_piece("  "), Ghost(0), Ghost(watch));
                    let size = e.size_human();
                    push_piece(out, painter.size(size.as_str()), Ghost(0), Ghost(watch));
                }
                let ghost p2 = painted_views(out@);
                if opts.show_date {
                    push_piece(out, plain_piece("  "), Ghost(0), Ghost(watch));
                    push_piece(out, painter.date(date), Ghost(0), Ghost(watch));
                }
                proof {
                    let ev = e@;
                    let pp = if o.show_perm {
                        seq![("  "@, plain_style()), (shown_perm(ev), style_in(c, ColorKey::Perm))]
                    } else {
                        Seq::empty()
                    };
                    let sp = if o.show_size && !node_is_dir(t, i as int) {
                        seq![
                            ("  "@, plain_style()),
                            (binary_size_text(ev.size), style_in(c, ColorKey::Size)),
                        ]
                    } else {
                        Seq::empty()
                    };
                    let dp = if o.show_date {
                        seq![("  "@, plain_style()), (date@, style_in(c, ColorKey::Date))]
                    } else {
                        Seq::empty()
                    };
                    assert(p1 =~= start + pp);
                    assert(p2 =~= p1 + sp);
                    assert(painted_views(out@) =~= p2 + dp);
                    assert(meta_pieces(t, i as int, o, c, date@) =~= pp + sp + dp);
                }
            },
            None => {},
        }
        assert(painted_views(out@) =~= start + meta_pieces(t, i as int, o, c, date@));
    }

    /// Appends the pieces of the line of node `i`, with `date` as its date
    /// text.
    #[verifier::spinoff_prover]
    #[verifier::rlimit(40)]
    fn draw_node(
        &self,
        i: usize,
        lasts: &Vec<bool>,
        opts: &TreeOptions,
        config: &Config,
        painter: &Painter,
        date: &str,
        out: &mut Vec<Painted>,
    )
        requires
            i < self@.paths.len(),
            lasts.len() == self@.paths.len(),
            forall|m: int|
                0 <= m < lasts.len() ==> lasts@[m] == is_last_child(
                    self@.paths,
                    #[trigger] self@.paths[m],
                ),
            painter.colors_spec() == config@.colors,
            painter.enabled_spec() == config@.display.colors,
            line_drawable(self@, i as int, opts@, config@),
            !config@.display.colors ==> all_plain_from(old(out)@, 0),
        ensures
            painted_views(final(out)@) == painted_views(old(out)@) + line_pieces(
                self@,
                i as int,
                opts@,
                config@,
                date@,
            ),
            !config@.display.colors ==> all_plain_from(final(out)@, 0),
    {
        let ghost t = self@;
        let ghost ps = t.paths;
        let ghost q = ps[i as int];
        let ghost c = config@;
        let ghost o = opts@;
        let ghost watch = !config@.display.colors;
        let ghost start = painted_views(out@);
        let branch = self.branch_text(i, lasts, opts.unicode);
        push_piece(out, painter.tree(branch.as_str()), Ghost(0), Ghost(watch));
        let ghost head = seq![
            (indent(ps, q, q.len() - 1, o.unicode) + connector(is_last_child(ps, q), o.unicode),
            style_in(c, ColorKey::Tree)),
        ];
        assert(painted_views(out@) =~= start + head);
        let (is_dir, is_link) = self.node_kind(i);
        if config.display.emoji {
            let name = self.last_name(i);
            let mut s = owned(get_emoji(name, is_dir, is_link, config));
            push_str(&mut s, " ");
            push_piece(out, plain_piece(s.as_str()), Ghost(0), Ghost(watch));
        }
        let ghost emo = if c.display.emoji {
            seq![
                (emoji_spec(q.last(), node_is_dir(t, i as int), node_is_link(t, i as int), c)
                    + " "@, plain_style()),
            ]
        } else {
            Seq::empty()
        };
        assert(painted_views(out@) =~= start + head + emo);
        let ghost mid = painted_views(out@);
        self.draw_name(i, is_dir, is_link, opts, config, painter, out);
        let ghost after_name = painted_views(out@);
        self.draw_meta(i, is_dir, opts, config, painter, date, out);
        let ghost before_nl = painted_views(out@);
        push_piece(out, plain_piece("\n"), Ghost(0), Ghost(watch));
        assert(painted_views(out@) =~= before_nl + seq![("\n"@, plain_style())]);
        assert(line_pieces(t, i as int, o, c, date@) =~= head + emo + name_pieces(t, i as int, c)
            + meta_pieces(t, i as int, o, c, date@) + seq![("\n"@, plain_style())]);
        assert(painted_views(out@) =~= start + line_pieces(t, i as int, o, c, date@));
    }

    /// The last component of node `i`'s path.
    fn last_name(&self, i: usize) -> (r: &str)
        requires
            i < self@.paths.len(),
        ensures
            r@ == self@.paths[i as int].last(),
    {
        proof {
            use_type_invariant(self);
        }
        assert(self@.paths[i as int] == str_views(self.paths@[i as int]@));
        let d = self.paths[i].len();
        self.paths[i][d - 1].as_str()
    }
}

// ---------------------------------------------------------------------
// Drawing
// ---------------------------------------------------------------------

/// Whether every entry's date can be formatted, where dates are shown.
pub open spec fn dates_formattable(t: TreeView, o: OptionsView) -> bool {
    o.show_date ==> forall|i: int|
        0 <= i < t.infos.len() && depth_shown(o.max_depth, t.paths[i].len() as int) ==> match #[trigger] t.infos[i] {
            Some(e) => date_formattable(e, o.date_fmt),
            None => true,
        }
}

/// The date text of each node: its entry's date (see [`entry_date_text`])
/// where dates are shown and the node is drawn; `?` for another node with
/// an entry, nothing for a node without one.
pub open spec fn tree_dates(t: TreeView, o: OptionsView) -> Seq<Seq<char>> {
    Seq::new(
        t.paths.len(),
        |i: int|
            match t.infos[i] {
                Some(e) => if o.show_date && depth_shown(o.max_depth, t.paths[i].len() as int) {
                    entry_date_text(e, o.date_fmt)
                } else {
                    "?"@
                },
                None => Seq::empty(),
            },
    )
}

/// The pieces of the drawing of the tree: one line for each node down to
/// the deepest level drawn, in order, node `i` dated by `dates[i]`.
pub fn tree_pieces(root: &TreeNode, opts: &TreeOptions, config: &Config, dates: &Vec<String>) -> (r:
    Vec<Painted>)
    requires
        tree_drawable(root@, opts@, config@),
        dates.len() == root@.paths.len(),
    ensures
        painted_views(r@) == tree_pieces_upto(
            root@,
            opts@,
            config@,
            str_views(dates@),
            root@.paths.len() as int,
        ),
        !config@.display.colors ==> all_plain_from(r@, 0),
{
    proof {
        use_type_invariant(root);
    }
    let ghost t = root@;
    let ghost ds = str_views(dates@);
    let painter = Painter::new(config, config.display.colors);
    let lasts = last_flags(&root.paths);
    let n = root.paths.len();
    let mut out: Vec<Painted> = Vec::new();
    let mut i: usize = 0;
    while i < n
        invariant
            i <= n,
            n == root.paths.len(),
            t == root@,
            n == t.paths.len(),
            ds == str_views(dates@),
            dates.len() == n,
            lasts.len() == n,
            forall|m: int| 0 <= m < lasts.len() ==> lasts@[m] == is_last_child(t.paths, #[trigger] t.paths[m]),
            painter.colors_spec() == config@.colors,
            painter.enabled_spec() == config@.display.colors,
            tree_drawable(t, opts@, config@),
            painted_views(out@) == tree_pieces_upto(t, opts@, config@, ds, i as int),
            !config@.display.colors ==> all_plain_from(out@, 0),
        decreases n - i,
    {
        assert(t.paths[i as int] == str_views(root.paths@[i as int]@));
        let d = root.paths[i].len();
        if opts.max_depth == 0 || d <= opts.max_depth as usize {
            assert(ds[i as int] == dates@[i as int]@);
            assert(line_drawable(t, i as int, opts@, config@));
            root.draw_node(i, &lasts, opts, config, &painter, dates[i].as_str(), &mut out);
        }
        i = i + 1;
    }
    out
}

/// Texts one after the other.
pub open spec fn flatten(rs: Seq<Seq<char>>) -> Seq<char>
    decreases rs.len(),
{
    if rs.len() == 0 {
        Seq::empty()
    } else {
        flatten(rs.drop_last()) + rs.last()
    }
}

/// Whether `r` is how a piece prints: its text when it is plain; else its
/// text, or a longer one (its text with terminal codes around it).
pub open spec fn printed_piece(p: (Seq<char>, Style), r: Seq<char>) -> bool {
    &&& p.1.is_plain() ==> r == p.0
    &&& r == p.0 || r.len() > p.0.len()
}

/// Whether `out` is how pieces print, one after the other (see
/// [`printed_piece`]).
pub open spec fn prints_as(ps: Seq<(Seq<char>, Style)>, out: Seq<char>) -> bool {
    exists|rs: Seq<Seq<char>>|
        rs.len() == ps.len() && (forall|i: int|
            0 <= i < ps.len() ==> #[trigger] printed_piece(ps[i], rs[i])) && out == flatten(rs)
}

/// The pieces as they print, one after the other.
fn join_pieces(pieces: &Vec<Painted>) -> (r: String)
    ensures
        prints_as(painted_views(pieces@), r@),
        all_plain_from(pieces@, 0) ==> r@ == texts_of(painted_views(pieces@)),
{
    let ghost v = painted_views(pieces@);
    let mut r = String::new();
    let ghost mut rs: Seq<Seq<char>> = Seq::empty();
    let mut i: usize = 0;
    while i < pieces.len()
        invariant
            i <= pieces.len(),
            v == painted_views(pieces@),
            rs.len() == i,
            forall|j: int| 0 <= j < i ==> #[trigger] printed_piece(v[j], rs[j]),
            r@ == flatten(rs),
            all_plain_from(pieces@, 0) ==> r@ == texts_of(v.take(i as int)),
        decreases pieces.len() - i,
    {
        let s = pieces[i].render();
        push_str(&mut r, s.as_str());
        proof {
            assert(v[i as int] == piece_view(pieces@[i as int]));
            let old_rs = rs;
            rs = rs.push(s@);
            assert(rs.drop_last() =~= old_rs);
            assert forall|j: int| 0 <= j < i + 1 implies #[trigger] printed_piece(v[j], rs[j]) by {
                if j < i {
                    assert(rs[j] == old_rs[j]);
                }
            }
            assert(v.take(i as int + 1).drop_last() =~= v.take(i as int));
            assert(v.take(i as int + 1).last() == piece_view(pieces@[i as int]));
        }
        i = i + 1;
    }
    assert(v.take(pieces.len() as int) =~= v);
    r
}

/// The date text of each node: its entry's time in `opts.date_fmt` where
/// dates are shown; nothing when a date cannot be formatted.
fn node_dates(root: &TreeNode, opts: &TreeOptions) -> (r: Option<Vec<String>>)
    ensures
        r is Some <==> dates_formattable(root@, opts@),
        r matches Some(ds) ==> str_views(ds@) == tree_dates(root@, opts@),
{
    proof {
        use_type_invariant(root);
    }
    let ghost t = root@;
    let ghost want = tree_dates(t, opts@);
    let n = root.infos.len();
    let mut ds: Vec<String> = Vec::new();
    let mut i: usize = 0;
    while i < n
        invariant
            i <= n,
            n == root.infos.len(),
            n == root.paths.len(),
            t == root@,
            want == tree_dates(t, opts@),
            n == t.infos.len(),
            n == t.paths.len(),
            ds.len() == i,
            opts.show_date ==> forall|m: int|
                0 <= m < i && depth_shown(opts.max_depth, t.paths[m].len() as int) ==> match #[trigger] t.infos[m] {
                    Some(e) => date_formattable(e, opts@.date_fmt),
                    None => true,
                },
            forall|m: int| 0 <= m < i ==> (#[trigger] ds@[m])@ == want[m],
        decreases n - i,
    {
        assert(t.infos[i as int] == info_views(root.infos@)[i as int]);
        assert(t.paths[i as int] == str_views(root.paths@[i as int]@));
        let shown = opts.max_depth == 0 || root.paths[i].len() <= opts.max_depth as usize;
        let text = match &root.infos[i] {
            Some(e) => {
                if opts.show_date && shown {
                    match e.mtime_text(opts.date_fmt) {
                        Some(s) => s,
                        None => {
                            return None;
                        },
                    }
                } else {
                    owned("?")
                }
            },
            None => String::new(),
        };
        assert(text@ == want[i as int]);
        ds.push(text);
        i = i + 1;
    }
    assert(str_views(ds@) =~= want);
    Some(ds)
}

/// Whether every line of the drawing can be drawn (see [`tree_drawable`]).
pub fn can_draw_tree(root: &TreeNode, opts: &TreeOptions, config: &Config) -> (r: bool)
    ensures
        r == tree_drawable(root@, opts@, config@),
{
    proof {
        use_type_invariant(root);
    }
    let ghost t = root@;
    let n = root.paths.len();
    let mut i: usize = 0;
    while i < n
        invariant
            i <= n,
            n == root.paths.len(),
            n == root.infos.len(),
            t == root@,
            n == t.paths.len(),
            forall|m: int|
                0 <= m < i && depth_shown(opts.max_depth, t.paths[m].len() as int)
                    ==> #[trigger] line_drawable(t, m, opts@, config@),
        decreases n - i,
    {
        assert(t.paths[i as int] == str_views(root.paths@[i as int]@));
        assert(t.infos[i as int] == info_views(root.infos@)[i as int]);
        let d = root.paths[i].len();
        if opts.max_depth == 0 || d <= opts.max_depth as usize {
            let (is_dir, is_link) = root.node_kind(i);
            let name_ok = if is_dir {
                can_draw(config, ColorKey::Dir)
            } else if is_link {
                can_draw(config, ColorKey::Link)
            } else {
                can_draw(config, ColorKey::File)
            };
            let meta_ok = match &root.infos[i] {
                Some(_) => (!opts.show_perm || can_draw(config, ColorKey::Perm)) && (!(opts.show_size
                    && !is_dir) || can_draw(config, ColorKey::Size)) && (!opts.show_date || can_draw(
                    config,
                    ColorKey::Date,
                )),
                None => true,
            };
            if !(can_draw(config, ColorKey::Tree) && name_ok && meta_ok) {
                assert(!line_drawable(t, i as int, opts@, config@));
                return false;
            }
            assert(line_drawable(t, i as int, opts@, config@));
        }
        i = i + 1;
    }
    true
}

/// The drawing of the tree, or nothing when a date it shows cannot be
/// formatted: the pieces of [`tree_pieces`], dated by [`tree_dates`], as
/// they print (see [`prints_as`]); with colors off, exactly their text.
pub fn try_render_tree(root: &TreeNode, opts: &TreeOptions, config: &Config) -> (r: Option<String>)
    requires
        tree_drawable(root@, opts@, config@),
    ensures
        r is Some <==> dates_formattable(root@, opts@),
        r matches Some(s) ==> prints_as(
            tree_pieces_upto(root@, opts@, config@, tree_dates(root@, opts@), root@.paths.len() as int),
            s@,
        ),
        r matches Some(s) ==> (!config@.display.colors ==> s@ == texts_of(
            tree_pieces_upto(root@, opts@, config@, tree_dates(root@, opts@), root@.paths.len() as int),
        )),
{
    match node_dates(root, opts) {
        Some(dates) => {
            assert(str_views(dates@).len() == dates@.len());
            assert(tree_dates(root@, opts@).len() == root@.paths.len());
            let pieces = tree_pieces(root, opts, config, &dates);
            let s = join_pieces(&pieces);
            Some(s)
        },
        None => None,
    }
}

/// The drawing of the tree (see [`try_render_tree`]).
pub fn render_tree(root: &TreeNode, opts: &TreeOptions, config: &Config) -> (r: String)
    requires
        tree_drawable(root@, opts@, config@),
        dates_formattable(root@, opts@),
    ensures
        prints_as(
            tree_pieces_upto(root@, opts@, config@, tree_dates(root@, opts@), root@.paths.len() as int),
            r@,
        ),
        !config@.display.colors ==> r@ == texts_of(
            tree_pieces_upto(root@, opts@, config@, tree_dates(root@, opts@), root@.paths.len() as int),
        ),
{
    match try_render_tree(root, opts, config) {
        Some(s) => s,
        None => {
            assert(false);
            String::new()
        },
    }
}

// ---------------------------------------------------------------------
// The flat listing
// ---------------------------------------------------------------------

/// A text right-aligned in `w` columns, padded with spaces (`{:>w}`).
pub open spec fn pad_left(s: Seq<char>, w: nat) -> Seq<char> {
    if s.len() >= w {
        s
    } else {
        Seq::new((w - s.len()) as nat, |_i: int| ' ') + s
    }
}

/// `s` right-aligned in `w` columns.
fn pad_left_text(s: &str, w: usize) -> (r: String)
    ensures
        r@ == pad_left(s@, w as nat),
{
    let n = chars_of(s).len();
    if n >= w {
        return owned(s);
    }
    let mut r = String::new();
    let mut k: usize = 0;
    while k < w - n
        invariant
            k <= w - n,
            n < w,
            n == s@.len(),
            r@ == Seq::new(k as nat, |_i: int| ' '),
        decreases w - n - k,
    {
        push_char(&mut r, ' ');
        k = k + 1;
        assert(r@ =~= Seq::new(k as nat, |_i: int| ' '));
    }
    push_str(&mut r, s);
    r
}

/// The style of an entry's name in the listing.
pub open spec fn listed_name_style(e: EntryView, c: ConfigView) -> Style {
    if e.is_dir {
        style_in(c, ColorKey::Dir)
    } else if e.is_link {
        style_in(c, ColorKey::Link)
    } else {
        style_in(c, ColorKey::File)
    }
}

/// The line of an entry in the flat listing (without its newline): its
/// emoji (picked by its file name) and a space when emoji are on, then its
/// path; in verbose mode first its permissions, its size right-aligned in
/// ten columns and its date text, apart by one space, and two spaces.
pub open spec fn flat_pieces_spec(e: EntryView, verbose: bool, c: ConfigView, date: Seq<char>) -> Seq<
    (Seq<char>, Style),
> {
    let fname = match file_name(e.path) {
        Some(f) => f,
        None => Seq::empty(),
    };
    let emo = if c.display.emoji {
        seq![(emoji_spec(fname, e.is_dir, e.is_link, c) + " "@, plain_style())]
    } else {
        Seq::empty()
    };
    let name = seq![(e.path, listed_name_style(e, c))];
    if verbose {
        seq![
            (shown_perm(e), style_in(c, ColorKey::Perm)),
            (" "@, plain_style()),
            (pad_left(binary_size_text(e.size), 10), style_in(c, ColorKey::Size)),
            (" "@, plain_style()),
            (date, style_in(c, ColorKey::Date)),
            ("  "@, plain_style()),
        ] + emo + name
    } else {
        emo + name
    }
}

/// Whether an entry's line in the flat listing can be drawn: every kind of
/// text on it can (see [`drawable`]).
pub open spec fn flat_drawable(e: EntryView, verbose: bool, c: ConfigView) -> bool {
    &&& verbose ==> drawable(c, ColorKey::Perm) && drawable(c, ColorKey::Size) && drawable(
        c,
        ColorKey::Date,
    )
    &&& if e.is_dir {
        drawable(c, ColorKey::Dir)
    } else if e.is_link {
        drawable(c, ColorKey::Link)
    } else {
        drawable(c, ColorKey::File)
    }
}

/// Whether an entry's line can be drawn (see [`flat_drawable`]).
pub fn can_draw_flat(entry: &EntryInfo, verbose: bool, config: &Config) -> (r: bool)
    ensures
        r == flat_drawable(entry@, verbose, config@),
{
    let meta = !verbose || (can_draw(config, ColorKey::Perm) && can_draw(config, ColorKey::Size)
        && can_draw(config, ColorKey::Date));
    let name = if entry.is_dir {
        can_draw(config, ColorKey::Dir)
    } else if entry.is_link {
        can_draw(config, ColorKey::Link)
    } else {
        can_draw(config, ColorKey::File)
    };
    meta && name
}

/// The pieces of an entry's line in the flat listing, with `date` as its
/// date text.
pub fn flat_pieces(entry: &EntryInfo, verbose: bool, config: &Config, date: &str) -> (r: Vec<Painted>)
    requires
        flat_drawable(entry@, verbose, config@),
    ensures
        painted_views(r@) == flat_pieces_spec(entry@, verbose, config@, date@),
        !config@.display.colors ==> all_plain_from(r@, 0),
{
    let ghost watch = !config@.display.colors;
    let ghost c = config@;
    let ghost e = entry@;
    let painter = Painter::new(config, config.display.colors);
    let mut out: Vec<Painted> = Vec::new();
    if verbose {
        let perm = entry.perm_str();
        push_piece(&mut out, painter.perm(perm.as_str()), Ghost(0), Ghost(watch));
        push_piece(&mut out, plain_piece(" "), Ghost(0), Ghost(watch));
        let size = entry.size_human();
        let padded = pad_left_text(size.as_str(), 10);
        push_piece(&mut out, painter.size(padded.as_str()), Ghost(0), Ghost(watch));
        push_piece(&mut out, plain_piece(" "), Ghost(0), Ghost(watch));
        push_piece(&mut out, painter.date(date), Ghost(0), Ghost(watch));
        push_piece(&mut out, plain_piece("  "), Ghost(0), Ghost(watch));
    }
    let ghost head = painted_views(out@);
    if config.display.emoji {
        let fname = match path_file_name(entry.path.as_str()) {
            Some(f) => string_of(&f),
            None => String::new(),
        };
        let mut s = owned(get_emoji(fname.as_str(), entry.is_dir, entry.is_link, config));
        push_str(&mut s, " ");
        push_piece(&mut out, plain_piece(s.as_str()), Ghost(0), Ghost(watch));
    }
    let name = entry.path.as_str();
    if entry.is_dir {
        push_piece(&mut out, painter.dir(name), Ghost(0), Ghost(watch));
    } else if entry.is_link {
        push_piece(&mut out, painter.link(name), Ghost(0), Ghost(watch));
    } else {
        push_piece(&mut out, painter.file(name), Ghost(0), Ghost(watch));
    }
    proof {
        let fname = match file_name(e.path) {
            Some(f) => f,
            None => Seq::empty(),
        };
        let emo = if c.display.emoji {
            seq![(emoji_spec(fname, e.is_dir, e.is_link, c) + " "@, plain_style())]
        } else {
            Seq::empty()
        };
        let nm = seq![(e.path, listed_name_style(e, c))];
        assert(painted_views(out@) =~= head + emo + nm);
        if verbose {
            assert(flat_pieces_spec(e, verbose, c, date@) =~= head + emo + nm);
        } else {
            assert(head =~= Seq::<(Seq<char>, Style)>::empty());
            assert(flat_pieces_spec(e, verbose, c, date@) =~= head + emo + nm);
        }
    }
    out
}

/// The date text of an entry's line: its date in the configured format in
/// verbose mode (see [`entry_date_text`]), else unused (`?`).
pub open spec fn listed_date(e: EntryView, verbose: bool, c: ConfigView) -> Seq<char> {
    if verbose {
        entry_date_text(e, c.display.date_format)
    } else {
        "?"@
    }
}

/// An entry's line in the flat listing, or nothing in verbose mode when
/// its date cannot be formatted with the configured format: the pieces of
/// [`flat_pieces`], dated by [`listed_date`], as they print (see
/// [`prints_as`]); with colors off, exactly their text.
pub fn render_flat_line(entry: &EntryInfo, verbose: bool, config: &Config) -> (r: Option<String>)
    requires
        flat_drawable(entry@, verbose, config@),
    ensures
        r is Some <==> (verbose ==> date_formattable(entry@, config@.display.date_format)),
        r matches Some(s) ==> prints_as(
            flat_pieces_spec(entry@, verbose, config@, listed_date(entry@, verbose, config@)),
            s@,
        ),
        r matches Some(s) ==> (!config@.display.colors ==> s@ == texts_of(
            flat_pieces_spec(entry@, verbose, config@, listed_date(entry@, verbose, config@)),
        )),
{
    let date = if verbose {
        match entry.mtime_text(config.display.date_format.as_str()) {
            Some(d) => d,
            None => {
                return None;
            },
        }
    } else {
        owned("?")
    };
    let pieces = flat_pieces(entry, verbose, config, date.as_str());
    let s = join_pieces(&pieces);
    Some(s)
}

// ---------------------------------------------------------------------
// Laws of the tree's order
// ---------------------------------------------------------------------

/// Paths that agree on their first `m` components compare as the rest
/// does.
proof fn lemma_order_after_common(a: Seq<Seq<char>>, b: Seq<Seq<char>>, m: int)
    requires
        0 <= m <= a.len(),
        m <= b.len(),
        a.take(m) == b.take(m),
    ensures
        order_path(a, b) == order_path(a.skip(m), b.skip(m)),
    decreases m,
{
    if m > 0 {
        assert(a[0] == a.take(m)[0]);
        assert(b[0] == b.take(m)[0]);
        lemma_order_text_basics(a[0], b[0]);
        assert(a.drop_first().take(m - 1) =~= a.take(m).drop_first());
        assert(b.drop_first().take(m - 1) =~= b.take(m).drop_first());
        lemma_order_after_common(a.drop_first(), b.drop_first(), m - 1);
        assert(a.drop_first().skip(m - 1) =~= a.skip(m));
        assert(b.drop_first().skip(m - 1) =~= b.skip(m));
    } else {
        assert(a.skip(0) =~= a);
        assert(b.skip(0) =~= b);
    }
}

/// Everything below a node comes right after it: whatever lies between a
/// node and one of its descendants is a descendant too.
pub proof fn law_descendants_follow(ps: Seq<Seq<Seq<char>>>, i: int, j: int, k: int)
    requires
        is_tree(ps),
        0 <= i < j < k < ps.len(),
        path_prefix(ps[i], ps[k]),
    ensures
        path_prefix(ps[i], ps[j]),
{
    assert(ps[i].take(ps[i].len() as int) =~= ps[i]);
    assert(order_path(ps[i], ps[j]) == Order::Less);
    assert(order_path(ps[j], ps[k]) == Order::Less);
    lemma_prefix_between(ps[i], ps[i], ps[j], ps[k]);
}

/// The children of a node come in the order of their names.
pub proof fn law_children_by_name(ps: Seq<Seq<Seq<char>>>, i: int, j: int)
    requires
        is_tree(ps),
        0 <= i < j < ps.len(),
        siblings(ps[i], ps[j]),
    ensures
        order_text(ps[i].last(), ps[j].last()) == Order::Less,
{
    let a = ps[i];
    let b = ps[j];
    let m = a.len() - 1;
    assert(order_path(a, b) == Order::Less);
    lemma_order_after_common(a, b, m);
    assert(a.skip(m) =~= seq![a.last()]);
    assert(b.skip(m) =~= seq![b.last()]);
    let sa = a.skip(m);
    let sb = b.skip(m);
    assert(sa.drop_first() =~= Seq::<Seq<char>>::empty());
    assert(sb.drop_first() =~= Seq::<Seq<char>>::empty());
    assert(order_path(sa.drop_first(), sb.drop_first()) == Order::Equal);
    assert(sa[0] == a.last() && sb[0] == b.last());
}

/// A node with no entry of its own that has a node below it (a directory
/// the archive only holds through its contents) is drawn as a directory:
/// after its branch comes the directory emoji when emoji are on, and its
/// name in the directory style.
pub proof fn law_entryless_parent_drawn_as_dir(
    t: TreeView,
    o: OptionsView,
    c: ConfigView,
    date: Seq<char>,
    i: int,
    k: int,
)
    requires
        0 <= i < t.paths.len(),
        0 <= k < t.paths.len(),
        t.infos.len() == t.paths.len(),
        t.infos[i] is None,
        t.paths[k].len() == t.paths[i].len() + 1,
        path_prefix(t.paths[i], t.paths[k]),
    ensures
        c.display.emoji ==> line_pieces(t, i, o, c, date)[1] == (c.emojis.dir + " "@, plain_style()),
        c.display.emoji ==> line_pieces(t, i, o, c, date)[2] == (
            t.paths[i].last(),
            style_in(c, ColorKey::Dir),
        ),
        !c.display.emoji ==> line_pieces(t, i, o, c, date)[1] == (
            t.paths[i].last(),
            style_in(c, ColorKey::Dir),
        ),
{
    assert(has_children(t.paths, t.paths[i]));
}

} // verus!
