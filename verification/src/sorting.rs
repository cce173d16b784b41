//! Stable insertion order under a strict order, and runs of equal keys: the
//! shape shared by the grouped reports.

use vstd::prelude::*;

verus! {

/// `less` is a strict order: asymmetric and transitive.
pub open spec fn strict_order<E>(less: spec_fn(E, E) -> bool) -> bool {
    &&& forall|a: E, b: E| #[trigger] less(a, b) ==> !less(b, a)
    &&& forall|a: E, b: E, c: E| #![trigger less(a, b), less(b, c)] less(a, b) && less(b, c) ==> less(a, c)
}

/// Where a stable insertion puts `x`: before the first element that it precedes.
pub open spec fn insertion_position<E>(sorted: Seq<E>, x: E, less: spec_fn(E, E) -> bool) -> int
    decreases sorted.len(),
{
    if sorted.len() == 0 || less(x, sorted[0]) {
        0
    } else {
        1 + insertion_position(sorted.drop_first(), x, less)
    }
}

/// The elements of `s` inserted one after the other, each at its stable position.
pub open spec fn insertion_sorted<E>(s: Seq<E>, less: spec_fn(E, E) -> bool) -> Seq<E>
    decreases s.len(),
{
    if s.len() == 0 {
        Seq::empty()
    } else {
        let rest = insertion_sorted(s.drop_last(), less);
        rest.insert(insertion_position(rest, s.last(), less), s.last())
    }
}

/// No element precedes an element placed before it.
pub open spec fn sorted_by<E>(s: Seq<E>, less: spec_fn(E, E) -> bool) -> bool {
    forall|i: int, j: int| 0 <= i < j < s.len() ==> !less(#[trigger] s[j], #[trigger] s[i])
}

/// How many elements at the start of `s` have the key `k`.
pub open spec fn run_length<E, K>(s: Seq<E>, key: spec_fn(E) -> K, k: K) -> nat
    decreases s.len(),
{
    if s.len() > 0 && key(s[0]) == k {
        1 + run_length(s.drop_first(), key, k)
    } else {
        0
    }
}

pub proof fn lemma_insertion_position<E>(sorted: Seq<E>, x: E, less: spec_fn(E, E) -> bool)
    ensures
        0 <= insertion_position(sorted, x, less) <= sorted.len(),
        insertion_position(sorted, x, less) < sorted.len() ==> less(x, sorted[insertion_position(sorted, x, less)]),
        forall|j: int| 0 <= j < insertion_position(sorted, x, less) ==> !less(x, #[trigger] sorted[j]),
    decreases sorted.len(),
{
    if sorted.len() > 0 && !less(x, sorted[0]) {
        lemma_insertion_position(sorted.drop_first(), x, less);
        assert forall|j: int| 0 <= j < insertion_position(sorted, x, less) implies !less(x, #[trigger] sorted[j]) by {
            if j > 0 {
                assert(sorted.drop_first()[j - 1] == sorted[j]);
            }
        }
    }
}

/// Insertion under a strict order keeps every element exactly once and
/// leaves them sorted.
pub proof fn lemma_insertion_sorted<E>(s: Seq<E>, less: spec_fn(E, E) -> bool)
    requires
        strict_order(less),
    ensures
        insertion_sorted(s, less).to_multiset() == s.to_multiset(),
        sorted_by(insertion_sorted(s, less), less),
    decreases s.len(),
{
    broadcast use vstd::seq_lib::group_to_multiset_ensures;
    if s.len() > 0 {
        let rest = insertion_sorted(s.drop_last(), less);
        let x = s.last();
        lemma_insertion_sorted(s.drop_last(), less);
        lemma_insertion_position(rest, x, less);
        let p = insertion_position(rest, x, less);
        let r = rest.insert(p, x);
        vstd::seq_lib::to_multiset_insert(rest, p, x);
        assert(s =~= s.drop_last().push(x));
        vstd::seq_lib::to_multiset_build(s.drop_last(), x);
        assert forall|i: int, j: int| 0 <= i < j < r.len() implies !less(#[trigger] r[j], #[trigger] r[i]) by {
            if j < p {
                assert(r[i] == rest[i] && r[j] == rest[j]);
            } else if j == p {
                assert(r[j] == x && r[i] == rest[i]);
            } else if i == p {
                assert(r[i] == x && r[j] == rest[j - 1]);
                if p < rest.len() && less(rest[j - 1], x) {
                    assert(less(rest[j - 1], rest[p]));
                    if j - 1 > p {
                        assert(!less(rest[j - 1], rest[p]));
                    }
                }
            } else if i < p {
                assert(r[i] == rest[i] && r[j] == rest[j - 1]);
            } else {
                assert(r[i] == rest[i - 1] && r[j] == rest[j - 1]);
            }
        }
    }
}

pub proof fn lemma_run_length<E, K>(s: Seq<E>, key: spec_fn(E) -> K, k: K)
    ensures
        run_length(s, key, k) <= s.len(),
        forall|j: int| 0 <= j < run_length(s, key, k) ==> key(#[trigger] s[j]) == k,
        run_length(s, key, k) < s.len() ==> key(s[run_length(s, key, k) as int]) != k,
    decreases s.len(),
{
    if s.len() > 0 && key(s[0]) == k {
        lemma_run_length(s.drop_first(), key, k);
        assert forall|j: int| 0 <= j < run_length(s, key, k) implies key(#[trigger] s[j]) == k by {
            if j > 0 {
                assert(s.drop_first()[j - 1] == s[j]);
            }
        }
    }
}

/// `less` orders any two different elements one way or the other.
pub open spec fn total_order<E>(less: spec_fn(E, E) -> bool) -> bool {
    forall|a: E, b: E| a != b ==> #[trigger] less(a, b) || less(b, a)
}

/// The distinct elements of `s` in order, as an ordered set of them holds them.
pub open spec fn insertion_unique<E>(s: Seq<E>, less: spec_fn(E, E) -> bool) -> Seq<E>
    decreases s.len(),
{
    if s.len() == 0 {
        Seq::empty()
    } else {
        let rest = insertion_unique(s.drop_last(), less);
        if rest.contains(s.last()) {
            rest
        } else {
            rest.insert(insertion_position(rest, s.last(), less), s.last())
        }
    }
}

/// Each element precedes every element placed after it.
pub open spec fn strictly_sorted_by<E>(s: Seq<E>, less: spec_fn(E, E) -> bool) -> bool {
    forall|i: int, j: int| 0 <= i < j < s.len() ==> less(#[trigger] s[i], #[trigger] s[j])
}

/// Ordered insertion without repeats, under a strict total order, keeps
/// exactly the elements given, each once, in strictly increasing order.
pub proof fn lemma_insertion_unique<E>(s: Seq<E>, less: spec_fn(E, E) -> bool)
    requires
        strict_order(less),
        total_order(less),
    ensures
        insertion_unique(s, less).to_set() == s.to_set(),
        strictly_sorted_by(insertion_unique(s, less), less),
    decreases s.len(),
{
    if s.len() > 0 {
        let rest = insertion_unique(s.drop_last(), less);
        let x = s.last();
        lemma_insertion_unique(s.drop_last(), less);
        assert(s =~= s.drop_last().push(x));
        if rest.contains(x) {
            assert(s.to_set() =~= rest.to_set()) by {
                assert forall|e: E| s.to_set().contains(e) implies rest.to_set().contains(e) by {
                    if e != x {
                        let k = choose|k: int| 0 <= k < s.len() && s[k] == e;
                        assert(s.drop_last()[k] == e);
                        assert(s.drop_last().to_set().contains(e));
                    }
                }
                assert forall|e: E| rest.to_set().contains(e) implies s.to_set().contains(e) by {
                    assert(s.drop_last().to_set().contains(e));
                    let k = choose|k: int| 0 <= k < s.drop_last().len() && s.drop_last()[k] == e;
                    assert(s[k] == e);
                }
            }
        } else {
            lemma_insertion_position(rest, x, less);
            let p = insertion_position(rest, x, less);
            let r = rest.insert(p, x);
            assert(r.to_set() =~= s.to_set()) by {
                assert forall|e: E| r.to_set().contains(e) implies s.to_set().contains(e) by {
                    let k = choose|k: int| 0 <= k < r.len() && r[k] == e;
                    if k == p {
                        assert(s[s.len() - 1] == e);
                    } else {
                        let m = if k < p { k } else { k - 1 };
                        assert(rest[m] == e);
                        assert(rest.to_set().contains(e));
                        assert(s.drop_last().to_set().contains(e));
                        let q = choose|q: int| 0 <= q < s.drop_last().len() && s.drop_last()[q] == e;
                        assert(s[q] == e);
                    }
                }
                assert forall|e: E| s.to_set().contains(e) implies r.to_set().contains(e) by {
                    let k = choose|k: int| 0 <= k < s.len() && s[k] == e;
                    if k == s.len() - 1 {
                        assert(r[p] == e);
                    } else {
                        assert(s.drop_last()[k] == e);
                        assert(s.drop_last().to_set().contains(e));
                        assert(rest.to_set().contains(e));
                        let m = choose|m: int| 0 <= m < rest.len() && rest[m] == e;
                        if m < p {
                            assert(r[m] == e);
                        } else {
                            assert(r[m + 1] == e);
                        }
                    }
                }
            }
            assert forall|i: int, j: int| 0 <= i < j < r.len() implies less(#[trigger] r[i], #[trigger] r[j]) by {
                if j < p {
                    assert(r[i] == rest[i] && r[j] == rest[j]);
                } else if j == p {
                    assert(r[j] == x && r[i] == rest[i]);
                    assert(!less(x, rest[i]));
                    assert(rest[i] != x);
                } else if i == p {
                    assert(r[i] == x && r[j] == rest[j - 1]);
                    assert(less(x, rest[p]));
                    if j - 1 > p {
                        assert(less(rest[p], rest[j - 1]));
                    }
                } else if i < p {
                    assert(r[i] == rest[i] && r[j] == rest[j - 1]);
                } else {
                    assert(r[i] == rest[i - 1] && r[j] == rest[j - 1]);
                }
            }
        }
    }
}

/// Under a strict order there is only one strictly sorted arrangement of a
/// set of elements.
pub proof fn lemma_strictly_sorted_unique<E>(a: Seq<E>, b: Seq<E>, less: spec_fn(E, E) -> bool)
    requires
        strict_order(less),
        strictly_sorted_by(a, less),
        strictly_sorted_by(b, less),
        a.to_set() == b.to_set(),
    ensures
        a == b,
    decreases a.len(),
{
    if a.len() == 0 {
        if b.len() > 0 {
            assert(b.to_set().contains(b[0]));
            assert(!a.to_set().contains(b[0]));
        }
        assert(a =~= b);
    } else if b.len() == 0 {
        assert(a.to_set().contains(a[0]));
        assert(!b.to_set().contains(a[0]));
    } else {
        assert(a.to_set().contains(a[0]));
        assert(b.to_set().contains(b[0]));
        let m = choose|m: int| 0 <= m < a.len() && a[m] == b[0];
        let k = choose|k: int| 0 <= k < b.len() && b[k] == a[0];
        if a[0] != b[0] {
            assert(m > 0 && k > 0);
            assert(less(a[0], a[m]));
            assert(less(b[0], b[k]));
            assert(false);
        }
        let a1 = a.drop_first();
        let b1 = b.drop_first();
        assert(strictly_sorted_by(a1, less)) by {
            assert forall|i: int, j: int| 0 <= i < j < a1.len() implies less(#[trigger] a1[i], #[trigger] a1[j]) by {
                assert(a1[i] == a[i + 1] && a1[j] == a[j + 1]);
            }
        }
        assert(strictly_sorted_by(b1, less)) by {
            assert forall|i: int, j: int| 0 <= i < j < b1.len() implies less(#[trigger] b1[i], #[trigger] b1[j]) by {
                assert(b1[i] == b[i + 1] && b1[j] == b[j + 1]);
            }
        }
        assert(a1.to_set() =~= b1.to_set()) by {
            assert forall|e: E| a1.to_set().contains(e) implies b1.to_set().contains(e) by {
                let i = choose|i: int| 0 <= i < a1.len() && a1[i] == e;
                assert(a[i + 1] == e);
                assert(less(a[0], a[i + 1]));
                assert(b.to_set().contains(e));
                let j = choose|j: int| 0 <= j < b.len() && b[j] == e;
                if j == 0 {
                    assert(!less(e, e));
                }
                assert(b1[j - 1] == e);
            }
            assert forall|e: E| b1.to_set().contains(e) implies a1.to_set().contains(e) by {
                let i = choose|i: int| 0 <= i < b1.len() && b1[i] == e;
                assert(b[i + 1] == e);
                assert(less(b[0], b[i + 1]));
                assert(a.to_set().contains(e));
                let j = choose|j: int| 0 <= j < a.len() && a[j] == e;
                if j == 0 {
                    assert(!less(e, e));
                }
                assert(a1[j - 1] == e);
            }
        }
        lemma_strictly_sorted_unique(a1, b1, less);
        assert(a =~= b) by {
            assert forall|i: int| 0 <= i < a.len() implies a[i] == b[i] by {
                if i > 0 {
                    assert(a[i] == a1[i - 1] && b[i] == b1[i - 1]);
                }
            }
        }
    }
}

} // verus!
