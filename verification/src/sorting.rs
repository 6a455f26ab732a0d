//! Stable ordering of items by a key.  A sort here returns the order of the
//! items' positions: ties keep the order the items came in, as a stable
//! `sort_by` does.
use vstd::prelude::*;

verus! {

/// A key with a strict weak order.
pub trait SortKey: Sized {
    /// `self` orders strictly before `other`.
    spec fn key_lt(&self, other: &Self) -> bool;

    proof fn lemma_irreflexive(a: &Self)
        ensures
            !a.key_lt(a),
    ;

    proof fn lemma_transitive(a: &Self, b: &Self, c: &Self)
        requires
            a.key_lt(b),
            b.key_lt(c),
        ensures
            a.key_lt(c),
    ;

    proof fn lemma_not_lt_transitive(a: &Self, b: &Self, c: &Self)
        requires
            !b.key_lt(a),
            !c.key_lt(b),
        ensures
            !c.key_lt(a),
    ;

    fn less(&self, other: &Self) -> (r: bool)
        ensures
            r == self.key_lt(other),
    ;
}

/// The item with key `ka` at position `ia` comes before the item with key `kb`
/// at position `ib`: ascending (or descending) by key, ties by position.
pub open spec fn comes_before<K: SortKey>(ka: K, ia: int, kb: K, ib: int, descending: bool) -> bool {
    if descending {
        kb.key_lt(&ka) || (!ka.key_lt(&kb) && ia < ib)
    } else {
        ka.key_lt(&kb) || (!kb.key_lt(&ka) && ia < ib)
    }
}

/// `order` lists each position below `n` exactly once.
pub open spec fn is_order_of(order: Seq<usize>, n: nat) -> bool {
    &&& order.len() == n
    &&& forall|a: int| 0 <= a < order.len() ==> #[trigger] order[a] < n
    &&& forall|a: int, b: int|
        0 <= a < order.len() && 0 <= b < order.len() && a != b ==> order[a] != order[b]
    &&& forall|j: int| 0 <= j < n ==> #[trigger] lists(order, j)
}

/// Some item of `order` is `j`.
pub open spec fn lists(order: Seq<usize>, j: int) -> bool {
    exists|p: int| 0 <= p < order.len() && order[p] as int == j
}

/// The positions in `order` follow `comes_before` over `keys`.
pub open spec fn follows_keys<K: SortKey>(order: Seq<usize>, keys: Seq<K>, descending: bool) -> bool {
    forall|a: int, b: int|
        0 <= a < b < order.len() ==> comes_before(
            keys[order[a] as int],
            order[a] as int,
            keys[order[b] as int],
            order[b] as int,
            descending,
        )
}

proof fn lemma_before_transitive<K: SortKey>(
    ka: K,
    ia: int,
    kb: K,
    ib: int,
    kc: K,
    ic: int,
    descending: bool,
)
    requires
        comes_before(ka, ia, kb, ib, descending),
        comes_before(kb, ib, kc, ic, descending),
    ensures
        comes_before(ka, ia, kc, ic, descending),
{
    if descending {
        if kb.key_lt(&ka) && kc.key_lt(&kb) {
            K::lemma_transitive(&kc, &kb, &ka);
        } else if kb.key_lt(&ka) {
            if !kc.key_lt(&ka) {
                K::lemma_not_lt_transitive(&ka, &kc, &kb);
            }
        } else if kc.key_lt(&kb) {
            if !kc.key_lt(&ka) {
                K::lemma_not_lt_transitive(&kb, &ka, &kc);
            }
        } else {
            K::lemma_not_lt_transitive(&kc, &kb, &ka);
        }
    } else {
        if ka.key_lt(&kb) && kb.key_lt(&kc) {
            K::lemma_transitive(&ka, &kb, &kc);
        } else if ka.key_lt(&kb) {
            if !ka.key_lt(&kc) {
                K::lemma_not_lt_transitive(&kb, &kc, &ka);
            }
        } else if kb.key_lt(&kc) {
            if !ka.key_lt(&kc) {
                K::lemma_not_lt_transitive(&kc, &ka, &kb);
            }
        } else {
            K::lemma_not_lt_transitive(&ka, &kb, &kc);
        }
    }
}

/// The positions of `keys`, stably sorted by key (ascending, or descending
/// when `descending`).
pub fn stable_order<K: SortKey>(keys: &Vec<K>, descending: bool) -> (order: Vec<usize>)
    ensures
        is_order_of(order@, keys@.len()),
        follows_keys(order@, keys@, descending),
{
    let n = keys.len();
    let mut order: Vec<usize> = Vec::new();
    let mut i: usize = 0;
    while i < n
        invariant
            n == keys@.len(),
            i <= n,
            is_order_of(order@, i as nat),
            follows_keys(order@, keys@, descending),
        decreases n - i,
    {
        // first position whose item the new item comes before
        let mut p: usize = 0;
        while p < order.len()
            invariant
                n == keys@.len(),
                i < n,
                p <= order@.len(),
                is_order_of(order@, i as nat),
                follows_keys(order@, keys@, descending),
                forall|q: int|
                    0 <= q < p ==> !comes_before(
                        keys@[i as int],
                        i as int,
                        keys@[#[trigger] order@[q] as int],
                        order@[q] as int,
                        descending,
                    ),
            ensures
                p <= order@.len(),
                forall|q: int|
                    0 <= q < p ==> !comes_before(
                        keys@[i as int],
                        i as int,
                        keys@[#[trigger] order@[q] as int],
                        order@[q] as int,
                        descending,
                    ),
                p < order@.len() ==> comes_before(
                    keys@[i as int],
                    i as int,
                    keys@[order@[p as int] as int],
                    order@[p as int] as int,
                    descending,
                ),
            decreases order@.len() - p,
        {
            let j = order[p];
            let goes_first = if descending {
                keys[j].less(&keys[i])
            } else {
                keys[i].less(&keys[j])
            };
            if goes_first {
                break;
            }
            proof {
                assert(j < i);
            }
            p = p + 1;
        }
        let ghost old_order = order@;
        proof {
            // every item before p comes before the new item
            assert forall|q: int| 0 <= q < p implies comes_before(
                keys@[old_order[q] as int],
                old_order[q] as int,
                keys@[i as int],
                i as int,
                descending,
            ) by {
                let j = old_order[q];
                assert(j < i);
                assert(!comes_before(keys@[i as int], i as int, keys@[j as int], j as int, descending));
            }
            // the new item comes before every item from p on
            assert forall|q: int| p <= q < old_order.len() implies comes_before(
                keys@[i as int],
                i as int,
                keys@[old_order[q] as int],
                old_order[q] as int,
                descending,
            ) by {
                let jp = old_order[p as int];
                assert(jp < i);
                let jq = old_order[q];
                assert(comes_before(keys@[i as int], i as int, keys@[jp as int], jp as int, descending));
                if q > p {
                    lemma_before_transitive(
                        keys@[i as int],
                        i as int,
                        keys@[jp as int],
                        jp as int,
                        keys@[jq as int],
                        jq as int,
                        descending,
                    );
                }
            }
        }
        order.insert(p, i);
        proof {
            let no = order@;
            assert(no == old_order.insert(p as int, i));
            assert forall|a: int, b: int| 0 <= a < b < no.len() implies comes_before(
                keys@[no[a] as int],
                no[a] as int,
                keys@[no[b] as int],
                no[b] as int,
                descending,
            ) by {
                if a < p && b < p {
                } else if a < p && b == p {
                } else if a < p && b > p {
                    assert(no[b] == old_order[b - 1]);
                } else if a == p {
                    assert(no[b] == old_order[b - 1]);
                } else {
                    assert(no[a] == old_order[a - 1]);
                    assert(no[b] == old_order[b - 1]);
                }
            }
            assert forall|j: int| 0 <= j < i + 1 implies #[trigger] lists(no, j) by {
                if j == i {
                    assert(no[p as int] == i);
                } else {
                    assert(lists(old_order, j));
                    let q = choose|q: int| 0 <= q < old_order.len() && old_order[q] as int == j;
                    if q < p {
                        assert(no[q] as int == j);
                    } else {
                        assert(no[q + 1] as int == j);
                    }
                }
            }
            assert forall|a: int, b: int|
                0 <= a < no.len() && 0 <= b < no.len() && a != b implies no[a] != no[b] by {
                if a == p {
                    if b < p {
                        assert(no[b] == old_order[b]);
                    } else {
                        assert(no[b] == old_order[b - 1]);
                    }
                } else if b == p {
                    if a < p {
                        assert(no[a] == old_order[a]);
                    } else {
                        assert(no[a] == old_order[a - 1]);
                    }
                } else {
                    let oa = if a < p { a } else { a - 1 };
                    let ob = if b < p { b } else { b - 1 };
                    assert(no[a] == old_order[oa]);
                    assert(no[b] == old_order[ob]);
                }
            }
            assert forall|a: int| 0 <= a < no.len() implies #[trigger] no[a] < i + 1 by {
                if a < p {
                    assert(no[a] == old_order[a]);
                } else if a > p {
                    assert(no[a] == old_order[a - 1]);
                }
            }
        }
        i = i + 1;
    }
    order
}

/// The positions are listed in increasing order.
pub open spec fn increasing(ks: Seq<usize>) -> bool {
    forall|a: int, b: int| 0 <= a < b < ks.len() ==> ks[a] < ks[b]
}

/// The items of `ks` taken in the order `order`.
pub fn pick(ks: &Vec<usize>, order: &Vec<usize>) -> (r: Vec<usize>)
    requires
        forall|a: int| 0 <= a < order@.len() ==> #[trigger] order@[a] < ks@.len(),
    ensures
        r@.len() == order@.len(),
        forall|a: int| 0 <= a < r@.len() ==> #[trigger] r@[a] == ks@[order@[a] as int],
{
    let mut r: Vec<usize> = Vec::new();
    let mut i: usize = 0;
    while i < order.len()
        invariant
            i <= order@.len(),
            forall|a: int| 0 <= a < order@.len() ==> #[trigger] order@[a] < ks@.len(),
            r@.len() == i,
            forall|a: int| 0 <= a < i ==> #[trigger] r@[a] == ks@[order@[a] as int],
        decreases order@.len() - i,
    {
        r.push(ks[order[i]]);
        i = i + 1;
    }
    r
}

/// Positions `ks` (increasing) rearranged by a stable order of their keys
/// `sub` (the key of `ks[p]` is `sub[p]`) list each position of `ks` once,
/// in `comes_before` order with the positions themselves breaking ties.
pub proof fn lemma_arranged<K: SortKey>(
    ks: Seq<usize>,
    sub: Seq<K>,
    order: Seq<usize>,
    r: Seq<usize>,
    descending: bool,
)
    requires
        increasing(ks),
        sub.len() == ks.len(),
        is_order_of(order, ks.len()),
        follows_keys(order, sub, descending),
        r.len() == order.len(),
        forall|a: int| 0 <= a < r.len() ==> #[trigger] r[a] == ks[order[a] as int],
    ensures
        forall|a: int, b: int|
            0 <= a < b < r.len() ==> comes_before(
                sub[order[a] as int],
                r[a] as int,
                sub[order[b] as int],
                r[b] as int,
                descending,
            ),
        forall|a: int| 0 <= a < r.len() ==> ks.contains(#[trigger] r[a]),
        forall|p: int| 0 <= p < ks.len() ==> r.contains(#[trigger] ks[p]),
        forall|a: int, b: int| 0 <= a < r.len() && 0 <= b < r.len() && a != b ==> r[a] != r[b],
{
    assert forall|a: int, b: int| 0 <= a < b < r.len() implies comes_before(
        sub[order[a] as int],
        r[a] as int,
        sub[order[b] as int],
        r[b] as int,
        descending,
    ) by {
        let oa = order[a] as int;
        let ob = order[b] as int;
        assert(comes_before(sub[oa], oa, sub[ob], ob, descending));
        assert(oa != ob);
        if oa < ob {
            assert(ks[oa] < ks[ob]);
        } else {
            assert(ks[ob] < ks[oa]);
        }
    }
    assert forall|a: int| 0 <= a < r.len() implies ks.contains(#[trigger] r[a]) by {
        assert(ks[order[a] as int] == r[a]);
    }
    assert forall|p: int| 0 <= p < ks.len() implies r.contains(#[trigger] ks[p]) by {
        assert(lists(order, p));
        let q = choose|q: int| 0 <= q < order.len() && order[q] as int == p;
        assert(r[q] == ks[p]);
    }
    assert forall|a: int, b: int| 0 <= a < r.len() && 0 <= b < r.len() && a != b implies r[a]
        != r[b] by {
        let oa = order[a] as int;
        let ob = order[b] as int;
        assert(oa != ob);
        if oa < ob {
            assert(ks[oa] < ks[ob]);
        } else {
            assert(ks[ob] < ks[oa]);
        }
    }
}

/// An integer sort key.
#[derive(Debug, Clone, Copy, PartialEq, Eq, Structural)]
pub struct IntKey(pub i128);

impl SortKey for IntKey {
    open spec fn key_lt(&self, other: &Self) -> bool {
        self.0 < other.0
    }

    proof fn lemma_irreflexive(a: &Self) {
    }

    proof fn lemma_transitive(a: &Self, b: &Self, c: &Self) {
    }

    proof fn lemma_not_lt_transitive(a: &Self, b: &Self, c: &Self) {
    }

    fn less(&self, other: &Self) -> (r: bool) {
        self.0 < other.0
    }
}

/// `a` orders before `b` by comparing characters from the left, a proper
/// prefix ordering first: the order of `String`'s `cmp`.
pub open spec fn lex_lt(a: Seq<char>, b: Seq<char>) -> bool
    decreases a.len(),
{
    if b.len() == 0 {
        false
    } else if a.len() == 0 {
        true
    } else if a[0] != b[0] {
        (a[0] as int) < (b[0] as int)
    } else {
        lex_lt(a.drop_first(), b.drop_first())
    }
}

proof fn lemma_lex_irreflexive(a: Seq<char>)
    ensures
        !lex_lt(a, a),
    decreases a.len(),
{
    if a.len() > 0 {
        lemma_lex_irreflexive(a.drop_first());
    }
}

proof fn lemma_lex_transitive(a: Seq<char>, b: Seq<char>, c: Seq<char>)
    requires
        lex_lt(a, b),
        lex_lt(b, c),
    ensures
        lex_lt(a, c),
    decreases a.len(),
{
    if a.len() > 0 && b.len() > 0 && c.len() > 0 && a[0] == b[0] && b[0] == c[0] {
        lemma_lex_transitive(a.drop_first(), b.drop_first(), c.drop_first());
    }
}

proof fn lemma_lex_total(a: Seq<char>, b: Seq<char>)
    ensures
        lex_lt(a, b) || lex_lt(b, a) || a == b,
    decreases a.len(),
{
    if a.len() > 0 && b.len() > 0 {
        if a[0] == b[0] {
            lemma_lex_total(a.drop_first(), b.drop_first());
            if a.drop_first() == b.drop_first() {
                assert(a =~= seq![a[0]] + a.drop_first());
                assert(b =~= seq![b[0]] + b.drop_first());
            }
        } else {
            assert((a[0] as int) != (b[0] as int));
        }
    } else if a.len() == 0 && b.len() == 0 {
        assert(a =~= b);
    }
}

proof fn lemma_lex_drop(a: Seq<char>, b: Seq<char>, i: int)
    requires
        0 <= i < a.len(),
        i < b.len(),
        a[i] == b[i],
    ensures
        lex_lt(a.skip(i), b.skip(i)) == lex_lt(a.skip(i + 1), b.skip(i + 1)),
{
    assert(a.skip(i).drop_first() =~= a.skip(i + 1));
    assert(b.skip(i).drop_first() =~= b.skip(i + 1));
}

/// Whether `a` orders before `b` by `lex_lt`.
pub fn text_less(a: &Vec<char>, b: &Vec<char>) -> (r: bool)
    ensures
        r == lex_lt(a@, b@),
{
    let mut i: usize = 0;
    assert(a@.skip(0) =~= a@);
    assert(b@.skip(0) =~= b@);
    while i < a.len() && i < b.len()
        invariant
            i <= a@.len(),
            i <= b@.len(),
            lex_lt(a@, b@) == lex_lt(a@.skip(i as int), b@.skip(i as int)),
        decreases a@.len() - i,
    {
        let x = a[i];
        let y = b[i];
        if x != y {
            return x < y;
        }
        proof {
            lemma_lex_drop(a@, b@, i as int);
        }
        i = i + 1;
    }
    i < b.len()
}

/// A text sort key, ordered by `lex_lt` on its characters.
#[derive(Debug, Clone)]
pub struct TextKey(pub Vec<char>);

impl SortKey for TextKey {
    open spec fn key_lt(&self, other: &Self) -> bool {
        lex_lt(self.0@, other.0@)
    }

    proof fn lemma_irreflexive(a: &Self) {
        lemma_lex_irreflexive(a.0@);
    }

    proof fn lemma_transitive(a: &Self, b: &Self, c: &Self) {
        lemma_lex_transitive(a.0@, b.0@, c.0@);
    }

    proof fn lemma_not_lt_transitive(a: &Self, b: &Self, c: &Self) {
        lemma_lex_total(a.0@, b.0@);
        lemma_lex_total(b.0@, c.0@);
        if lex_lt(c.0@, a.0@) {
            if a.0@ == b.0@ {
                lemma_lex_total(c.0@, b.0@);
            } else {
                lemma_lex_transitive(a.0@, b.0@, c.0@);
                if b.0@ == c.0@ {
                    lemma_lex_irreflexive(c.0@);
                } else {
                    lemma_lex_transitive(c.0@, a.0@, b.0@);
                }
            }
        }
    }

    fn less(&self, other: &Self) -> (r: bool) {
        text_less(&self.0, &other.0)
    }
}


/// The sum of a sequence of natural numbers.
pub open spec fn nat_sum(v: Seq<nat>) -> nat
    decreases v.len(),
{
    if v.len() == 0 {
        0
    } else {
        nat_sum(v.drop_last()) + v.last()
    }
}

/// Taking one item out of a sequence takes its value out of the sum.
pub proof fn lemma_sum_remove(v: Seq<nat>, q: int)
    requires
        0 <= q < v.len(),
    ensures
        nat_sum(v) == nat_sum(v.remove(q)) + v[q],
    decreases v.len(),
{
    if q == v.len() - 1 {
        assert(v.remove(q) =~= v.drop_last());
    } else {
        lemma_sum_remove(v.drop_last(), q);
        assert(v.remove(q).drop_last() =~= v.drop_last().remove(q));
    }
}

/// Summing values in the order that a permutation lists their positions
/// gives the plain sum.
pub proof fn lemma_permuted_sum(order: Seq<usize>, v: Seq<nat>)
    requires
        is_order_of(order, v.len()),
    ensures
        nat_sum(Seq::new(order.len(), |i: int| v[order[i] as int])) == nat_sum(v),
    decreases v.len(),
{
    let n = v.len();
    let s = Seq::new(order.len(), |i: int| v[order[i] as int]);
    if n == 0 {
        assert(s.len() == 0);
    } else {
        let last = (n - 1) as int;
        assert(lists(order, last));
        let q = choose|p: int| 0 <= p < order.len() && order[p] as int == last;
        let rest = order.remove(q);
        let w = v.drop_last();
        assert forall|a: int| 0 <= a < rest.len() implies #[trigger] rest[a] < w.len() by {
            let a0 = if a < q { a } else { a + 1 };
            assert(rest[a] == order[a0]);
            assert(a0 != q);
        }
        assert forall|j: int| 0 <= j < w.len() implies #[trigger] lists(rest, j) by {
            assert(lists(order, j));
            let p = choose|p: int| 0 <= p < order.len() && order[p] as int == j;
            assert(p != q);
            if p < q {
                assert(rest[p] == order[p]);
            } else {
                assert(rest[p - 1] == order[p]);
            }
        }
        assert forall|a: int, b: int|
            0 <= a < rest.len() && 0 <= b < rest.len() && a != b implies rest[a] != rest[b] by {
            let a0 = if a < q { a } else { a + 1 };
            let b0 = if b < q { b } else { b + 1 };
            assert(rest[a] == order[a0]);
            assert(rest[b] == order[b0]);
        }
        assert(is_order_of(rest, w.len()));
        lemma_permuted_sum(rest, w);
        let sr = Seq::new(rest.len(), |i: int| w[rest[i] as int]);
        lemma_sum_remove(s, q);
        assert(s.remove(q) =~= sr);
        assert(s[q] == v[last]);
        assert(v.drop_last() == w);
    }
}

} // verus!
