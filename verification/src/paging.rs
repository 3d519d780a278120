//! Pages of a listing: the first `limit` items past a bound, in key order,
//! as the storage maps of the contracts hand them out.
use vstd::prelude::*;
use crate::ordering::{keys_sorted, keys_unique, lemma_lex_order, lex_lt, sort_by_key};

verus! {

broadcast use vstd::seq_lib::group_seq_properties;

/// Whether key `a` comes before key `b`, ascending or (with `desc`) descending.
pub open spec fn before(a: Seq<u128>, b: Seq<u128>, desc: bool) -> bool {
    if desc { lex_lt(b, a) } else { lex_lt(a, b) }
}

/// Whether key `k` lies past the (exclusive) bound, if there is one.
pub open spec fn past(k: Seq<u128>, bound: Option<Seq<u128>>, desc: bool) -> bool {
    match bound {
        Some(b) => before(b, k, desc),
        None => true,
    }
}

/// `r` is the page of `cands` past `bound`: at most `limit` of them, in key
/// order, and any candidate past the bound that is left out comes after all
/// of the page, which is then full.
pub open spec fn is_page<T>(r: Seq<T>, cands: Seq<T>, key: spec_fn(T) -> Seq<u128>, bound: Option<Seq<u128>>,
    limit: nat, desc: bool) -> bool {
    &&& r.len() <= limit
    &&& forall|i: int, j: int| 0 <= i < j < r.len() ==> before(key(r[i]), key(r[j]), desc)
    &&& forall|x: T| #[trigger] r.contains(x) ==> cands.contains(x) && past(key(x), bound, desc)
    &&& forall|x: T| #[trigger] cands.contains(x) && past(key(x), bound, desc) && !r.contains(x)
        ==> r.len() == limit && (r.len() > 0 ==> before(key(r.last()), key(x), desc))
}

/// The view of an optional key.
pub open spec fn opt_key(k: Option<Vec<u128>>) -> Option<Seq<u128>> {
    match k {
        Some(v) => Some(v@),
        None => None,
    }
}

/// The items of keyed entries.
pub open spec fn items_of<T>(e: Seq<(Vec<u128>, T)>) -> Seq<T> {
    Seq::new(e.len(), |i: int| e[i].1)
}

/// Reverses a list.
fn reversed<T>(v: Vec<T>) -> (r: Vec<T>)
    ensures
        r@.len() == v@.len(),
        forall|i: int| 0 <= i < v@.len() ==> r@[i] == v@[v@.len() - 1 - i],
{
    let mut v = v;
    let ghost orig = v@;
    let mut r: Vec<T> = Vec::new();
    while v.len() > 0
        invariant
            v@ == orig.take(v@.len() as int),
            r@.len() + v@.len() == orig.len(),
            forall|i: int| 0 <= i < r@.len() ==> r@[i] == orig[orig.len() - 1 - i],
        decreases v@.len(),
    {
        let ghost before_v = v@;
        let x = v.pop().unwrap();
        proof {
            assert(v@ =~= orig.take(v@.len() as int));
        }
        r.push(x);
    }
    r
}

/// The page of `items` past `bound`, in key order (descending with `desc`),
/// at most `limit` long. Each item's key is given with it.
pub fn take_page<T>(items: Vec<(Vec<u128>, T)>, Ghost(key): Ghost<spec_fn(T) -> Seq<u128>>, bound: &Option<Vec<u128>>,
    limit: usize, desc: bool) -> (r: Vec<T>)
    requires
        keys_unique(items@),
        forall|i: int| 0 <= i < items@.len() ==> key(#[trigger] items@[i].1) == items@[i].0@,
    ensures
        is_page(r@, items_of(items@), key, opt_key(*bound), limit as nat, desc),
{
    let ghost orig = items@;
    let sorted = sort_by_key(items);
    let ghost s = sorted@;
    let n = sorted.len();
    // `stack` is popped from the back: the last entry comes first.
    let mut stack = if desc { sorted } else { reversed(sorted) };
    let ghost st = stack@;
    // the order in which entries are taken
    let ghost t: Seq<(Vec<u128>, T)> = Seq::new(n as nat, |j: int| st[n - 1 - j]);
    proof {
        assert forall|a: int, b: int| 0 <= a < b < n implies before(#[trigger] t[a].0@, #[trigger] t[b].0@, desc) by {
            if desc {
                assert(t[a] == s[n - 1 - a]);
                assert(t[b] == s[n - 1 - b]);
            } else {
                assert(t[a] == s[a]);
                assert(t[b] == s[b]);
            }
        }
        assert forall|x: (Vec<u128>, T)| orig.contains(x) <==> t.contains(x) by {
            if orig.contains(x) {
                assert(s.contains(x));
                let q = choose|q: int| 0 <= q < s.len() && s[q] == x;
                if desc {
                    assert(t[n - 1 - q] == x);
                } else {
                    assert(t[q] == x);
                }
            }
            if t.contains(x) {
                let q = choose|q: int| 0 <= q < t.len() && t[q] == x;
                if desc {
                    assert(s[n - 1 - q] == x);
                } else {
                    assert(s[q] == x);
                }
                assert(s.contains(x));
            }
        }
        assert forall|j: int| 0 <= j < n implies key(#[trigger] t[j].1) == t[j].0@ by {
            assert(orig.contains(t[j]));
            let q = choose|q: int| 0 <= q < orig.len() && orig[q] == t[j];
        }
    }
    let mut out: Vec<T> = Vec::new();
    let mut i: usize = 0;
    while i < n && out.len() < limit
        invariant
            i <= n,
            n == t.len(),
            stack@ == st.take(n - i),
            st.len() == n,
            forall|j: int| 0 <= j < n ==> t[j] == st[n - 1 - j],
            forall|a: int, b: int| 0 <= a < b < n ==> before(#[trigger] t[a].0@, #[trigger] t[b].0@, desc),
            forall|j: int| 0 <= j < n ==> key(#[trigger] t[j].1) == t[j].0@,
            out@.len() <= limit,
            forall|a: int, b: int| 0 <= a < b < out@.len() ==> before(key(out@[a]), key(out@[b]), desc),
            forall|x: T| #[trigger] out@.contains(x) ==> exists|j: int| 0 <= j < i && t[j].1 == x && past(t[j].0@, opt_key(*bound), desc),
            forall|j: int| 0 <= j < i && past(#[trigger] t[j].0@, opt_key(*bound), desc) ==> out@.contains(t[j].1),
            forall|a: int, j: int| 0 <= a < out@.len() && i <= j < n ==> before(key(#[trigger] out@[a]), #[trigger] t[j].0@, desc),
        decreases n - i,
    {
        let e = stack.pop().unwrap();
        proof {
            assert(e == t[i as int]);
            assert(stack@ =~= st.take(n - i - 1));
        }
        let keep = match bound {
            Some(b) => if desc { crate::ordering::key_lt(&e.0, b) } else { crate::ordering::key_lt(b, &e.0) },
            None => true,
        };
        let ghost prev = out@;
        if keep {
            out.push(e.1);
            proof {
                assert forall|a: int, b: int| 0 <= a < b < out@.len() implies before(key(out@[a]), key(out@[b]), desc) by {
                    if b == prev.len() {
                        assert(out@[a] == prev[a]);
                        assert(before(key(prev[a]), t[i as int].0@, desc));
                    } else {
                        assert(out@[a] == prev[a]);
                        assert(out@[b] == prev[b]);
                    }
                }
                assert forall|x: T| #[trigger] out@.contains(x) implies exists|j: int| 0 <= j < i + 1 && t[j].1 == x && past(t[j].0@, opt_key(*bound), desc) by {
                    if prev.contains(x) {
                        let j = choose|j: int| 0 <= j < i && t[j].1 == x && past(t[j].0@, opt_key(*bound), desc);
                    } else {
                        assert(x == t[i as int].1);
                    }
                }
                assert forall|j: int| 0 <= j < i + 1 && past(#[trigger] t[j].0@, opt_key(*bound), desc) implies out@.contains(t[j].1) by {
                    if j < i {
                        assert(prev.contains(t[j].1));
                        let q = choose|q: int| 0 <= q < prev.len() && prev[q] == t[j].1;
                        assert(out@[q] == t[j].1);
                    } else {
                        assert(out@[prev.len() as int] == t[j].1);
                    }
                }
                assert forall|a: int, j: int| 0 <= a < out@.len() && i + 1 <= j < n implies before(key(#[trigger] out@[a]), #[trigger] t[j].0@, desc) by {
                    if a < prev.len() {
                        assert(out@[a] == prev[a]);
                    } else {
                        assert(before(t[i as int].0@, t[j].0@, desc));
                    }
                }
            }
        } else {
            proof {
                assert(!past(t[i as int].0@, opt_key(*bound), desc));
            }
        }
        i = i + 1;
    }
    proof {
        let cands = items_of(orig);
        assert forall|x: T| #[trigger] out@.contains(x) implies cands.contains(x) && past(key(x), opt_key(*bound), desc) by {
            let j = choose|j: int| 0 <= j < i && t[j].1 == x && past(t[j].0@, opt_key(*bound), desc);
            assert(t.contains(t[j]));
            assert(orig.contains(t[j]));
            let q = choose|q: int| 0 <= q < orig.len() && orig[q] == t[j];
            assert(cands[q] == x);
        }
        assert forall|x: T| #[trigger] cands.contains(x) && past(key(x), opt_key(*bound), desc) && !out@.contains(x)
            implies out@.len() == limit && (out@.len() > 0 ==> before(key(out@.last()), key(x), desc)) by {
            let q = choose|q: int| 0 <= q < cands.len() && cands[q] == x;
            assert(orig[q].1 == x);
            assert(orig.contains(orig[q]));
            assert(t.contains(orig[q]));
            let j = choose|j: int| 0 <= j < t.len() && t[j] == orig[q];
            assert(key(t[j].1) == t[j].0@);
            if j < i {
                assert(out@.contains(t[j].1));
            } else {
                if out@.len() > 0 {
                    assert(before(key(out@[out@.len() - 1]), t[j].0@, desc));
                }
            }
        }
    }
    out
}

/// A page depends only on which candidates there are.
pub proof fn lemma_page_same_cands<T>(r: Seq<T>, c1: Seq<T>, c2: Seq<T>, key: spec_fn(T) -> Seq<u128>,
    bound: Option<Seq<u128>>, limit: nat, desc: bool)
    requires
        is_page(r, c1, key, bound, limit, desc),
        forall|x: T| c1.contains(x) <==> c2.contains(x),
    ensures
        is_page(r, c2, key, bound, limit, desc),
{
    assert forall|x: T| #[trigger] r.contains(x) implies c2.contains(x) && past(key(x), bound, desc) by {
        assert(c1.contains(x));
    }
    assert forall|x: T| #[trigger] c2.contains(x) && past(key(x), bound, desc) && !r.contains(x)
        implies r.len() == limit && (r.len() > 0 ==> before(key(r.last()), key(x), desc)) by {
        assert(c1.contains(x));
    }
}

/// Each entry of a descending page from the top matches the entry at the same
/// position of `s`, the candidates in strictly descending key order.
proof fn lemma_desc_prefix<T>(s: Seq<T>, down: Seq<T>, cands: Seq<T>, key: spec_fn(T) -> Seq<u128>, limit: nat, k: int)
    requires
        0 <= k < down.len(),
        forall|i: int, j: int| 0 <= i < j < s.len() ==> lex_lt(key(#[trigger] s[j]), key(#[trigger] s[i])),
        forall|x: T| #[trigger] cands.contains(x) <==> s.contains(x),
        forall|x: T, y: T| #[trigger] cands.contains(x) && #[trigger] cands.contains(y) && key(x) == key(y) ==> x == y,
        is_page(down, cands, key, None, limit, true),
    ensures
        forall|j: int| 0 <= j <= k ==> j < s.len() && #[trigger] down[j] == s[j],
    decreases k,
{
    if k > 0 {
        lemma_desc_prefix(s, down, cands, key, limit, k - 1);
    }
    let d = down[k];
    assert(down.contains(d));
    assert(cands.contains(d));
    let q = choose|q: int| 0 <= q < s.len() && s[q] == d;
    lemma_lex_order(key(d), key(d), key(d));
    if q < k {
        assert(down[q] == s[q]);
        assert(before(key(down[q]), key(down[k]), true));
        assert(false);
    }
    let e = s[k];
    assert(s.contains(e));
    assert(cands.contains(e));
    if d != e {
        lemma_lex_order(key(d), key(e), key(d));
        if lex_lt(key(e), key(d)) {
            assert(q > k);
            assert(lex_lt(key(s[q]), key(s[k])));
            assert(false);
        } else {
            assert(lex_lt(key(d), key(e)));
            if down.contains(e) {
                let p = choose|p: int| 0 <= p < down.len() && down[p] == e;
                if p < k {
                    assert(down[p] == s[p]);
                    assert(lex_lt(key(s[k]), key(s[p])));
                    lemma_lex_order(key(e), key(e), key(e));
                    assert(false);
                } else {
                    assert(p != k);
                    assert(before(key(down[k]), key(down[p]), true));
                    assert(false);
                }
            } else {
                let last = down.len() - 1;
                assert(before(key(down[last]), key(e), true));
                if last != k {
                    assert(before(key(down[k]), key(down[last]), true));
                    lemma_lex_order(key(e), key(down[last]), key(d));
                }
                assert(false);
            }
        }
    }
}

/// An ascending page from the start leaves no candidate out when it is not
/// full, or when its limit is at least the number of candidates.
pub proof fn lemma_page_complete<T>(up: Seq<T>, cands: Seq<T>, key: spec_fn(T) -> Seq<u128>, l1: nat)
    requires
        is_page(up, cands, key, None, l1, false),
        up.len() < l1 || cands.len() <= l1,
    ensures
        forall|x: T| #[trigger] cands.contains(x) ==> up.contains(x),
{
    assert forall|x: T| #[trigger] cands.contains(x) implies up.contains(x) by {
        if !up.contains(x) {
            assert(up.len() == l1);
            assert forall|i: int, j: int| 0 <= i < up.len() && 0 <= j < up.len() && i != j
                implies up[i] != up[j] by {
                if i < j {
                    assert(before(key(up[i]), key(up[j]), false));
                } else {
                    assert(before(key(up[j]), key(up[i]), false));
                }
                lemma_lex_order(key(up[i]), key(up[i]), key(up[i]));
            }
            assert(up.no_duplicates());
            up.unique_seq_to_set();
            cands.lemma_cardinality_of_set();
            assert(up.to_set().subset_of(cands.to_set().remove(x))) by {
                assert forall|y: T| up.to_set().contains(y) implies cands.to_set().remove(x).contains(y) by {
                    assert(up.contains(y));
                    assert(cands.contains(y));
                }
            }
            assert(cands.to_set().contains(x));
            vstd::set_lib::lemma_len_subset(up.to_set(), cands.to_set().remove(x));
            assert(false);
        }
    }
}

/// A descending page from the top lists the candidates in the reverse of the
/// order of a complete ascending listing `up` (one that left nothing out),
/// cut to its own length; it is shorter than `up` only when it is full.
pub proof fn lemma_desc_page_reverses<T>(up: Seq<T>, down: Seq<T>, cands: Seq<T>, key: spec_fn(T) -> Seq<u128>,
    l1: nat, l2: nat)
    requires
        is_page(up, cands, key, None, l1, false),
        forall|x: T| #[trigger] cands.contains(x) ==> up.contains(x),
        is_page(down, cands, key, None, l2, true),
        forall|x: T, y: T| #[trigger] cands.contains(x) && #[trigger] cands.contains(y) && key(x) == key(y) ==> x == y,
    ensures
        down.len() <= up.len(),
        down == up.reverse().take(down.len() as int),
        down.len() == l2 || down.len() == up.len(),
{
    let n = up.len();
    let s = up.reverse();
    assert forall|i: int, j: int| 0 <= i < j < s.len() implies lex_lt(key(#[trigger] s[j]), key(#[trigger] s[i])) by {
        assert(s[i] == up[n - 1 - i]);
        assert(s[j] == up[n - 1 - j]);
        assert(before(key(up[n - 1 - j]), key(up[n - 1 - i]), false));
    }
    assert forall|x: T| #[trigger] cands.contains(x) <==> s.contains(x) by {
        if cands.contains(x) {
            assert(up.contains(x));
            let q = choose|q: int| 0 <= q < up.len() && up[q] == x;
            assert(s[n - 1 - q] == x);
        }
        if s.contains(x) {
            let q = choose|q: int| 0 <= q < s.len() && s[q] == x;
            assert(up[n - 1 - q] == x);
            assert(up.contains(x));
        }
    }
    let m = down.len();
    if m > 0 {
        lemma_desc_prefix(s, down, cands, key, l2, m - 1);
        assert(down[m - 1] == s[m - 1]);
        assert(m - 1 < s.len());
    }
    assert(down =~= s.take(m as int));
    if m < n {
        let e = s[m as int];
        assert(s.contains(e));
        assert(cands.contains(e));
        if down.contains(e) {
            let p = choose|p: int| 0 <= p < down.len() && down[p] == e;
            assert(down[p] == s[p]);
            assert(lex_lt(key(s[m as int]), key(s[p])));
            lemma_lex_order(key(e), key(e), key(e));
            assert(false);
        }
    }
}

} // verus!
