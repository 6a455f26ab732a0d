//! Totals by key: each distinct key once, in order of first appearance, with
//! the sum of the sizes that carry it.
use vstd::prelude::*;
use crate::paths::opt_view;

verus! {

/// The views of optional strings.
pub open spec fn opt_views(v: Seq<Option<String>>) -> Seq<Option<Seq<char>>> {
    v.map_values(|o: Option<String>| opt_view(o))
}

/// The sum of the sizes.
pub open spec fn sizes_sum(s: Seq<u64>) -> nat
    decreases s.len(),
{
    if s.len() == 0 {
        0
    } else {
        sizes_sum(s.drop_last()) + s.last() as nat
    }
}

/// The distinct keys among the first `n`, in order of first appearance.
pub open spec fn distinct_keys_upto(ks: Seq<Option<Seq<char>>>, n: nat) -> Seq<Seq<char>>
    decreases n,
{
    if n == 0 {
        seq![]
    } else {
        let p = distinct_keys_upto(ks, (n - 1) as nat);
        match ks[n - 1] {
            Some(k) => if p.contains(k) {
                p
            } else {
                p.push(k)
            },
            None => p,
        }
    }
}

/// The distinct keys, in order of first appearance.
pub open spec fn distinct_keys(ks: Seq<Option<Seq<char>>>) -> Seq<Seq<char>> {
    distinct_keys_upto(ks, ks.len())
}

/// The sum of the sizes among the first `n` whose key is `k`.
pub open spec fn key_total_upto(ks: Seq<Option<Seq<char>>>, sizes: Seq<u64>, k: Seq<char>, n: nat) -> nat
    decreases n,
{
    if n == 0 {
        0
    } else if ks[n - 1] == Some(k) {
        key_total_upto(ks, sizes, k, (n - 1) as nat) + sizes[n - 1] as nat
    } else {
        key_total_upto(ks, sizes, k, (n - 1) as nat)
    }
}

/// The sum of the sizes whose key is `k`.
pub open spec fn key_total(ks: Seq<Option<Seq<char>>>, sizes: Seq<u64>, k: Seq<char>) -> nat {
    key_total_upto(ks, sizes, k, ks.len())
}

proof fn lemma_key_total_bounded(ks: Seq<Option<Seq<char>>>, sizes: Seq<u64>, k: Seq<char>, n: nat)
    requires
        n <= ks.len(),
        ks.len() == sizes.len(),
    ensures
        key_total_upto(ks, sizes, k, n) <= sizes_sum(sizes.take(n as int)),
    decreases n,
{
    if n > 0 {
        lemma_key_total_bounded(ks, sizes, k, (n - 1) as nat);
        assert(sizes.take(n as int).drop_last() =~= sizes.take(n - 1));
    }
}

proof fn lemma_sizes_sum_prefix(s: Seq<u64>, n: nat)
    requires
        n <= s.len(),
    ensures
        sizes_sum(s.take(n as int)) <= sizes_sum(s),
    decreases s.len() - n,
{
    if n < s.len() {
        lemma_sizes_sum_prefix(s, n + 1);
        assert(s.take(n + 1 as int).drop_last() =~= s.take(n as int));
    } else {
        assert(s.take(n as int) =~= s);
    }
}

proof fn lemma_absent_key_total(ks: Seq<Option<Seq<char>>>, sizes: Seq<u64>, k: Seq<char>, n: nat)
    requires
        n <= ks.len(),
        !distinct_keys_upto(ks, n).contains(k),
    ensures
        key_total_upto(ks, sizes, k, n) == 0,
    decreases n,
{
    if n > 0 {
        let p = distinct_keys_upto(ks, (n - 1) as nat);
        if ks[n - 1] == Some(k) {
            if !p.contains(k) {
                assert(distinct_keys_upto(ks, n).last() == k);
                assert(distinct_keys_upto(ks, n).contains(k));
            }
        }
        assert forall|j: int| 0 <= j < p.len() implies p[j] != k by {
            assert(distinct_keys_upto(ks, n)[j] == p[j]);
        }
        lemma_absent_key_total(ks, sizes, k, (n - 1) as nat);
    }
}

proof fn lemma_keys_distinct(ks: Seq<Option<Seq<char>>>, n: nat)
    requires
        n <= ks.len(),
    ensures
        forall|a: int, b: int|
            0 <= a < b < distinct_keys_upto(ks, n).len() ==> distinct_keys_upto(ks, n)[a]
                != distinct_keys_upto(ks, n)[b],
    decreases n,
{
    if n > 0 {
        lemma_keys_distinct(ks, (n - 1) as nat);
        let p = distinct_keys_upto(ks, (n - 1) as nat);
        match ks[n - 1] {
            Some(k) => {
                if !p.contains(k) {
                    assert forall|a: int| 0 <= a < p.len() implies p[a] != k by {
                        if p[a] == k {
                            assert(p.contains(k));
                        }
                    }
                }
            },
            None => {},
        }
    }
}

/// The distinct keys in order of first appearance, with the total size of
/// each.
pub fn rollup(ks: &Vec<Option<String>>, sizes: &Vec<u64>) -> (r: (Vec<String>, Vec<u64>))
    requires
        ks@.len() == sizes@.len(),
        sizes_sum(sizes@) <= u64::MAX,
    ensures
        r.0@.len() == distinct_keys(opt_views(ks@)).len(),
        r.1@.len() == r.0@.len(),
        forall|j: int| 0 <= j < r.0@.len() ==> (#[trigger] r.0@[j])@ == distinct_keys(opt_views(ks@))[j],
        forall|j: int|
            0 <= j < r.1@.len() ==> #[trigger] r.1@[j] == key_total(
                opt_views(ks@),
                sizes@,
                distinct_keys(opt_views(ks@))[j],
            ),
{
    let ghost kv = opt_views(ks@);
    let mut keys: Vec<String> = Vec::new();
    let mut totals: Vec<u64> = Vec::new();
    let mut i: usize = 0;
    while i < ks.len()
        invariant
            kv == opt_views(ks@),
            ks@.len() == sizes@.len(),
            i <= ks@.len(),
            sizes_sum(sizes@) <= u64::MAX,
            keys@.len() == totals@.len(),
            keys@.len() == distinct_keys_upto(kv, i as nat).len(),
            forall|j: int| 0 <= j < keys@.len() ==> (#[trigger] keys@[j])@ == distinct_keys_upto(kv, i as nat)[j],
            forall|j: int|
                0 <= j < totals@.len() ==> #[trigger] totals@[j] == key_total_upto(
                    kv,
                    sizes@,
                    distinct_keys_upto(kv, i as nat)[j],
                    i as nat,
                ),
        decreases ks@.len() - i,
    {
        let ghost before = distinct_keys_upto(kv, i as nat);
        proof {
            lemma_keys_distinct(kv, i as nat);
            lemma_sizes_sum_prefix(sizes@, (i + 1) as nat);
        }
        match &ks[i] {
            Some(k) => {
                assert(kv[i as int] == Some(k@));
                let mut j: usize = 0;
                let mut found = false;
                while j < keys.len()
                    invariant
                        j <= keys@.len(),
                        keys@.len() == before.len(),
                        forall|q: int| 0 <= q < keys@.len() ==> (#[trigger] keys@[q])@ == before[q],
                        forall|q: int| 0 <= q < j ==> before[q] != k@,
                        found ==> j < keys@.len() && before[j as int] == k@,
                    ensures
                        found ==> j < keys@.len() && before[j as int] == k@,
                        !found ==> forall|q: int| 0 <= q < keys@.len() ==> before[q] != k@,
                    decreases keys@.len() - j,
                {
                    if keys[j] == *k {
                        found = true;
                        break;
                    }
                    j = j + 1;
                }
                if found {
                    proof {
                        lemma_key_total_bounded(kv, sizes@, k@, (i + 1) as nat);
                        assert(distinct_keys_upto(kv, (i + 1) as nat) == before);
                    }
                    let t = totals[j] + sizes[i];
                    totals.set(j, t);
                    proof {
                        assert forall|q: int| 0 <= q < totals@.len() implies #[trigger] totals@[q]
                            == key_total_upto(kv, sizes@, distinct_keys_upto(kv, (i + 1) as nat)[q], (i + 1) as nat) by {
                            if q != j {
                                assert(before[q] != before[j as int]);
                            }
                        }
                    }
                } else {
                    proof {
                        assert(!before.contains(k@)) by {
                            if before.contains(k@) {
                                let w = choose|w: int| 0 <= w < before.len() && before[w] == k@;
                                assert(before[w] != k@);
                            }
                        }
                        lemma_absent_key_total(kv, sizes@, k@, i as nat);
                        assert(distinct_keys_upto(kv, (i + 1) as nat) == before.push(k@));
                    }
                    keys.push(k.clone());
                    totals.push(sizes[i]);
                }
            },
            None => {
                assert(kv[i as int] is None);
                assert(distinct_keys_upto(kv, (i + 1) as nat) == before);
            },
        }
        i = i + 1;
    }
    (keys, totals)
}

} // verus!
