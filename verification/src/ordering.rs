//! The order in which stored entries are listed. Entries are ordered by a key,
//! a sequence of numbers compared lexicographically, as the store compares the
//! bytes of its keys: a byte string is the sequence of its bytes, an amount is
//! one number, and a string that is followed by more key is preceded by its
//! length.
use vstd::prelude::*;
use vstd::utf8::encode_utf8;

verus! {

broadcast use vstd::seq_lib::group_seq_properties;

/// `a` comes before `b`, comparing from position `i` on.
pub open spec fn lex_lt_from(a: Seq<u128>, b: Seq<u128>, i: int) -> bool
    decreases a.len() - i,
{
    if i < 0 || i >= a.len() {
        0 <= i < b.len()
    } else if i >= b.len() {
        false
    } else if a[i] < b[i] {
        true
    } else if a[i] > b[i] {
        false
    } else {
        lex_lt_from(a, b, i + 1)
    }
}

/// `a` comes strictly before `b` in lexicographic order.
pub open spec fn lex_lt(a: Seq<u128>, b: Seq<u128>) -> bool {
    lex_lt_from(a, b, 0)
}

proof fn lemma_lex_from_irreflexive(a: Seq<u128>, i: int)
    requires
        0 <= i,
    ensures
        !lex_lt_from(a, a, i),
    decreases a.len() - i,
{
    if i < a.len() {
        lemma_lex_from_irreflexive(a, i + 1);
    }
}

proof fn lemma_lex_from_transitive(a: Seq<u128>, b: Seq<u128>, c: Seq<u128>, i: int)
    requires
        0 <= i,
        lex_lt_from(a, b, i),
        lex_lt_from(b, c, i),
    ensures
        lex_lt_from(a, c, i),
    decreases a.len() - i,
{
    if i < a.len() && i < b.len() && i < c.len() && a[i] == b[i] && b[i] == c[i] {
        lemma_lex_from_transitive(a, b, c, i + 1);
    }
}

proof fn lemma_lex_from_total(a: Seq<u128>, b: Seq<u128>, i: int)
    requires
        0 <= i <= a.len(),
        i <= b.len(),
        !lex_lt_from(a, b, i),
        !lex_lt_from(b, a, i),
    ensures
        a.len() == b.len(),
        forall|k: int| i <= k < a.len() ==> a[k] == b[k],
    decreases a.len() - i,
{
    if i < a.len() && i < b.len() {
        lemma_lex_from_total(a, b, i + 1);
    }
}

/// The lexicographic order is a strict total order.
pub proof fn lemma_lex_order(a: Seq<u128>, b: Seq<u128>, c: Seq<u128>)
    ensures
        !lex_lt(a, a),
        lex_lt(a, b) && lex_lt(b, c) ==> lex_lt(a, c),
        lex_lt(a, b) ==> !lex_lt(b, a),
        a != b ==> lex_lt(a, b) || lex_lt(b, a),
{
    lemma_lex_from_irreflexive(a, 0);
    if lex_lt(a, b) && lex_lt(b, c) {
        lemma_lex_from_transitive(a, b, c, 0);
    }
    if lex_lt(a, b) && lex_lt(b, a) {
        lemma_lex_from_transitive(a, b, a, 0);
    }
    if !lex_lt(a, b) && !lex_lt(b, a) {
        lemma_lex_from_total(a, b, 0);
        assert(a =~= b);
    }
}

/// Whether key `a` comes strictly before key `b`.
pub fn key_lt(a: &Vec<u128>, b: &Vec<u128>) -> (r: bool)
    ensures
        r == lex_lt(a@, b@),
{
    let mut i: usize = 0;
    while i < a.len() && i < b.len()
        invariant
            i <= a@.len(),
            i <= b@.len(),
            lex_lt(a@, b@) == lex_lt_from(a@, b@, i as int),
        decreases a@.len() - i,
    {
        if a[i] < b[i] {
            return true;
        }
        if a[i] > b[i] {
            return false;
        }
        i = i + 1;
    }
    i < b.len()
}

/// The key of a byte string: its bytes.
pub open spec fn bytes_key(bytes: Seq<u8>) -> Seq<u128> {
    Seq::new(bytes.len(), |k: int| bytes[k] as u128)
}

/// The key of a string: the bytes of its UTF-8 encoding.
pub open spec fn str_key(s: Seq<char>) -> Seq<u128> {
    bytes_key(encode_utf8(s))
}

/// Distinct strings have distinct keys.
pub proof fn lemma_str_key_injective(s: Seq<char>, t: Seq<char>)
    requires
        str_key(s) == str_key(t),
    ensures
        s == t,
{
    let es = encode_utf8(s);
    let et = encode_utf8(t);
    assert(bytes_key(es).len() == bytes_key(et).len());
    assert forall|k: int| 0 <= k < es.len() implies es[k] == et[k] by {
        assert(bytes_key(es)[k] == bytes_key(et)[k]);
    }
    assert(es =~= et);
    vstd::utf8::encode_utf8_decode_utf8(s);
    vstd::utf8::encode_utf8_decode_utf8(t);
}

/// Appends the key of `s` to `key`.
pub fn push_str_key(key: &mut Vec<u128>, s: &str)
    ensures
        final(key)@ == old(key)@ + str_key(s@),
{
    let bytes = s.as_bytes();
    let n = bytes.len();
    for i in 0..n
        invariant
            n == bytes@.len(),
            bytes@ == encode_utf8(s@),
            key@ == old(key)@ + bytes_key(bytes@.take(i as int)),
    {
        key.push(bytes[i] as u128);
        proof {
            assert(bytes_key(bytes@.take(i + 1)) =~= bytes_key(bytes@.take(i as int)).push(bytes@[i as int] as u128));
        }
    }
    proof {
        assert(bytes@.take(n as int) =~= bytes@);
    }
}

/// Keys strictly increase along `s`.
pub open spec fn keys_sorted<T>(s: Seq<(Vec<u128>, T)>) -> bool {
    forall|i: int, j: int| 0 <= i < j < s.len() ==> lex_lt(s[i].0@, s[j].0@)
}

/// No two entries of `s` share a key.
pub open spec fn keys_unique<T>(s: Seq<(Vec<u128>, T)>) -> bool {
    forall|i: int, j: int| 0 <= i < s.len() && 0 <= j < s.len() && i != j ==> s[i].0@ != s[j].0@
}

/// Sorts entries by key. The entries are those given, each once, now in
/// strictly increasing order of key.
pub fn sort_by_key<T>(items: Vec<(Vec<u128>, T)>) -> (r: Vec<(Vec<u128>, T)>)
    requires
        keys_unique(items@),
    ensures
        r@.len() == items@.len(),
        keys_sorted(r@),
        forall|x: (Vec<u128>, T)| r@.contains(x) <==> items@.contains(x),
{
    let mut rest = items;
    let mut out: Vec<(Vec<u128>, T)> = Vec::new();
    while rest.len() > 0
        invariant
            keys_unique(items@),
            out@.len() + rest@.len() == items@.len(),
            keys_sorted(out@),
            forall|x: (Vec<u128>, T)| items@.contains(x) <==> (out@.contains(x) || rest@.contains(x)),
            forall|i: int, j: int| 0 <= i < out@.len() && 0 <= j < rest@.len() ==> out@[i].0@ != rest@[j].0@,
            forall|i: int, j: int| 0 <= i < rest@.len() && 0 <= j < rest@.len() && i != j ==> rest@[i].0@ != rest@[j].0@,
        decreases rest@.len(),
    {
        let ghost old_rest = rest@;
        let ghost old_out = out@;
        let e = rest.pop().unwrap();
        proof {
            assert(rest@ =~= old_rest.drop_last());
            assert(e == old_rest.last());
        }
        let mut p: usize = 0;
        while p < out.len() && key_lt(&out[p].0, &e.0)
            invariant
                p <= out@.len(),
                out@ == old_out,
                forall|i: int| 0 <= i < p ==> lex_lt(out@[i].0@, e.0@),
            decreases out@.len() - p,
        {
            p = p + 1;
        }
        proof {
            if p < out@.len() {
                assert(!lex_lt(out@[p as int].0@, e.0@));
                assert(out@[p as int].0@ != e.0@) by {
                    assert(old_rest[old_rest.len() - 1] == e);
                }
                lemma_lex_order(out@[p as int].0@, e.0@, e.0@);
                assert forall|j: int| p <= j < out@.len() implies lex_lt(e.0@, out@[j].0@) by {
                    if j > p {
                        lemma_lex_order(e.0@, out@[p as int].0@, out@[j].0@);
                    }
                }
            }
        }
        out.insert(p, e);
        proof {
            old_out.insert_ensures(p as int, e);
            assert forall|i: int, j: int| 0 <= i < j < out@.len() implies lex_lt(out@[i].0@, out@[j].0@) by {
                if i < p && j == p {
                } else if i < p && j > p {
                    assert(out@[j] == old_out[j - 1]);
                    if j - 1 < p {
                    } else {
                        lemma_lex_order(old_out[i].0@, e.0@, old_out[j - 1].0@);
                        if j - 1 == p as int {
                        } else {
                        }
                    }
                } else if i == p {
                    assert(out@[j] == old_out[j - 1]);
                } else if i < p {
                } else {
                    assert(out@[i] == old_out[i - 1]);
                    assert(out@[j] == old_out[j - 1]);
                }
            }
            assert forall|x: (Vec<u128>, T)| items@.contains(x) <==> (out@.contains(x) || rest@.contains(x)) by {
                if out@.contains(x) {
                    let k = choose|k: int| 0 <= k < out@.len() && out@[k] == x;
                    if k < p {
                        assert(old_out[k] == x);
                    } else if k > p {
                        assert(old_out[k - 1] == x);
                    }
                }
                if old_out.contains(x) {
                    let k = choose|k: int| 0 <= k < old_out.len() && old_out[k] == x;
                    if k < p {
                        assert(out@[k] == x);
                    } else {
                        assert(out@[k + 1] == x);
                    }
                }
                if old_rest.contains(x) {
                    let k = choose|k: int| 0 <= k < old_rest.len() && old_rest[k] == x;
                    if k < old_rest.len() - 1 {
                        assert(rest@[k] == x);
                    } else {
                        assert(out@[p as int] == x);
                    }
                }
                if rest@.contains(x) {
                    let k = choose|k: int| 0 <= k < rest@.len() && rest@[k] == x;
                    assert(old_rest[k] == x);
                }
            }
            assert forall|i: int, j: int| 0 <= i < out@.len() && 0 <= j < rest@.len() implies out@[i].0@ != rest@[j].0@ by {
                assert(rest@[j] == old_rest[j]);
                if i < p {
                    assert(out@[i] == old_out[i]);
                } else if i > p {
                    assert(out@[i] == old_out[i - 1]);
                } else {
                    assert(e == old_rest[old_rest.len() - 1]);
                }
            }
        }
    }
    out
}

/// The key of a string that other key parts follow: its length in bytes,
/// then its bytes.
pub open spec fn prefixed_key(s: Seq<char>) -> Seq<u128> {
    seq![crate::types::byte_len(s) as u128] + str_key(s)
}

/// Appends the length-prefixed key of `s` to `key`.
pub fn push_prefixed_str_key(key: &mut Vec<u128>, s: &str)
    ensures
        final(key)@ == old(key)@ + prefixed_key(s@),
        crate::types::byte_len(s@) <= usize::MAX,
{
    let n = crate::types::str_byte_len(s);
    key.push(n as u128);
    let ghost mid = key@;
    push_str_key(key, s);
    proof {
        assert(key@ =~= old(key)@ + prefixed_key(s@));
    }
}

/// Two keys that start with parts of the same length agree on both parts.
pub proof fn lemma_key_parts(p1: Seq<u128>, s1: Seq<u128>, p2: Seq<u128>, s2: Seq<u128>)
    requires
        p1.len() == p2.len(),
        p1 + s1 == p2 + s2,
    ensures
        p1 == p2,
        s1 == s2,
{
    let c = p1 + s1;
    let d = p2 + s2;
    assert(c.len() == d.len());
    assert(s1.len() == s2.len());
    assert forall|k: int| 0 <= k < p1.len() implies p1[k] == p2[k] by {
        assert(c[k] == p1[k]);
        assert(d[k] == p2[k]);
    }
    assert(p1 =~= p2);
    assert forall|k: int| 0 <= k < s1.len() implies s1[k] == s2[k] by {
        assert(c[p1.len() + k] == s1[k]);
        assert(d[p2.len() + k] == s2[k]);
    }
    assert(s1 =~= s2);
}

/// Length-prefixed keys followed by more determine the string and the rest.
pub proof fn lemma_prefixed_injective(a: Seq<char>, x: Seq<u128>, b: Seq<char>, y: Seq<u128>)
    requires
        prefixed_key(a) + x == prefixed_key(b) + y,
        crate::types::byte_len(a) <= usize::MAX,
        crate::types::byte_len(b) <= usize::MAX,
    ensures
        a == b,
        x == y,
{
    let ka = prefixed_key(a);
    let kb = prefixed_key(b);
    assert((ka + x)[0] == (kb + y)[0]);
    assert(ka[0] == kb[0]);
    assert(crate::types::byte_len(a) == crate::types::byte_len(b));
    assert(ka.len() == kb.len());
    lemma_key_parts(ka, x, kb, y);
    lemma_key_parts(seq![ka[0]], str_key(a), seq![kb[0]], str_key(b));
    lemma_str_key_injective(a, b);
}

} // verus!
