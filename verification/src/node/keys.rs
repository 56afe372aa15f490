use vstd::prelude::*;
use crate::types::Hash32;

verus! {

/// Lexicographic "less than" on integer sequences.
pub open spec fn lex_lt(a: Seq<int>, b: Seq<int>) -> bool
    decreases a.len(),
{
    if a.len() == 0 || b.len() == 0 {
        false
    } else if a[0] != b[0] {
        a[0] < b[0]
    } else {
        lex_lt(a.drop_first(), b.drop_first())
    }
}

pub proof fn lemma_lex_irreflexive(a: Seq<int>)
    ensures
        !lex_lt(a, a),
    decreases a.len(),
{
    if a.len() > 0 {
        lemma_lex_irreflexive(a.drop_first());
    }
}

pub proof fn lemma_lex_transitive(a: Seq<int>, b: Seq<int>, c: Seq<int>)
    requires
        lex_lt(a, b),
        lex_lt(b, c),
    ensures
        lex_lt(a, c),
    decreases a.len(),
{
    if a[0] == b[0] && b[0] == c[0] {
        lemma_lex_transitive(a.drop_first(), b.drop_first(), c.drop_first());
    }
}

pub proof fn lemma_lex_total(a: Seq<int>, b: Seq<int>)
    requires
        a.len() == b.len(),
    ensures
        a == b || lex_lt(a, b) || lex_lt(b, a),
    decreases a.len(),
{
    if a.len() == 0 {
        assert(a =~= b);
    } else if a[0] == b[0] {
        lemma_lex_total(a.drop_first(), b.drop_first());
        if a.drop_first() == b.drop_first() {
            assert forall|i: int| 0 <= i < a.len() implies a[i] == b[i] by {
                if i > 0 {
                    assert(a[i] == a.drop_first()[i - 1]);
                    assert(b[i] == b.drop_first()[i - 1]);
                }
            }
            assert(a =~= b);
        }
    }
}

pub proof fn lemma_lex_concat(a1: Seq<int>, a2: Seq<int>, b1: Seq<int>, b2: Seq<int>)
    requires
        a1.len() == b1.len(),
    ensures
        lex_lt(a1 + a2, b1 + b2) == (lex_lt(a1, b1) || (a1 == b1 && lex_lt(a2, b2))),
    decreases a1.len(),
{
    if a1.len() == 0 {
        assert(a1 + a2 =~= a2);
        assert(b1 + b2 =~= b2);
        assert(a1 =~= b1);
    } else {
        assert((a1 + a2).drop_first() =~= a1.drop_first() + a2);
        assert((b1 + b2).drop_first() =~= b1.drop_first() + b2);
        lemma_lex_concat(a1.drop_first(), a2, b1.drop_first(), b2);
        if a1[0] == b1[0] && a1.drop_first() == b1.drop_first() {
            assert forall|i: int| 0 <= i < a1.len() implies a1[i] == b1[i] by {
                if i > 0 {
                    assert(a1[i] == a1.drop_first()[i - 1]);
                    assert(b1[i] == b1.drop_first()[i - 1]);
                }
            }
            assert(a1 =~= b1);
        }
    }
}

/// The bytes of a digest, read as integers for ordering.
pub open spec fn hash_key(h: Hash32) -> Seq<int> {
    h@.map_values(|b: u8| b as int)
}

pub proof fn lemma_hash_key(a: Hash32, b: Hash32)
    ensures
        hash_key(a).len() == 32,
        hash_key(a) == hash_key(b) ==> a == b,
{
    if hash_key(a) == hash_key(b) {
        assert forall|i: int| 0 <= i < 32 implies a[i] == b[i] by {
            assert(hash_key(a)[i] == hash_key(b)[i]);
        }
        assert(a =~= b);
    }
}

/// Whether digest `a` sorts before digest `b` byte by byte.
fn hash_precedes(a: &Hash32, b: &Hash32) -> (out: bool)
    ensures
        out == lex_lt(hash_key(*a), hash_key(*b)),
{
    let ghost ka = hash_key(*a);
    let ghost kb = hash_key(*b);
    let mut i: usize = 0;
    while i < 32
        invariant
            i <= 32,
            ka == hash_key(*a),
            kb == hash_key(*b),
            ka.len() == 32,
            kb.len() == 32,
            ka.take(i as int) == kb.take(i as int),
        decreases 32 - i,
    {
        if a[i] != b[i] {
            proof {
                assert(ka =~= ka.take(i as int) + ka.skip(i as int));
                assert(kb =~= kb.take(i as int) + kb.skip(i as int));
                lemma_lex_concat(ka.take(i as int), ka.skip(i as int), kb.take(i as int), kb.skip(i as int));
                lemma_lex_irreflexive(ka.take(i as int));
                assert(ka.skip(i as int)[0] == a[i as int] as int);
                assert(kb.skip(i as int)[0] == b[i as int] as int);
            }
            return a[i] < b[i];
        }
        assert(ka.take(i + 1) =~= ka.take(i as int).push(ka[i as int]));
        assert(kb.take(i + 1) =~= kb.take(i as int).push(kb[i as int]));
        i += 1;
    }
    proof {
        assert(ka.take(32) =~= ka);
        assert(kb.take(32) =~= kb);
        lemma_lex_irreflexive(ka);
    }
    false
}

/// A key of a pending-payload queue: it has a total order given by
/// lexicographic comparison of its integer sequence.
pub trait QueueKey: Sized {
    spec fn order_key(self) -> Seq<int>;

    proof fn lemma_order_key(a: Self, b: Self)
        ensures
            a.order_key().len() == b.order_key().len(),
            a.order_key() == b.order_key() ==> a == b,
    ;

    fn precedes(&self, other: &Self) -> (out: bool)
        ensures
            out == lex_lt(self.order_key(), other.order_key()),
    ;

    fn duplicate(&self) -> (out: Self)
        ensures
            out == *self,
    ;
}

impl QueueKey for [u8; 32] {
    open spec fn order_key(self) -> Seq<int> {
        hash_key(self)
    }

    proof fn lemma_order_key(a: Self, b: Self) {
        lemma_hash_key(a, b);
        lemma_hash_key(b, a);
    }

    fn precedes(&self, other: &Self) -> (out: bool) {
        hash_precedes(self, other)
    }

    fn duplicate(&self) -> (out: Self) {
        *self
    }
}

impl QueueKey for (u64, [u8; 32]) {
    open spec fn order_key(self) -> Seq<int> {
        seq![self.0 as int] + hash_key(self.1)
    }

    proof fn lemma_order_key(a: Self, b: Self) {
        lemma_hash_key(a.1, b.1);
        lemma_hash_key(b.1, a.1);
        if a.order_key() == b.order_key() {
            assert(a.order_key()[0] == b.order_key()[0]);
            assert(hash_key(a.1) =~= a.order_key().drop_first());
            assert(hash_key(b.1) =~= b.order_key().drop_first());
        }
    }

    fn precedes(&self, other: &Self) -> (out: bool) {
        proof {
            lemma_lex_concat(seq![self.0 as int], hash_key(self.1), seq![other.0 as int], hash_key(other.1));
        }
        if self.0 != other.0 {
            assert(seq![self.0 as int][0] == self.0 as int);
            assert(seq![other.0 as int][0] == other.0 as int);
            assert(seq![self.0 as int] != seq![other.0 as int]);
            self.0 < other.0
        } else {
            assert(seq![self.0 as int] =~= seq![other.0 as int]);
            proof {
                lemma_lex_irreflexive(seq![self.0 as int]);
            }
            hash_precedes(&self.1, &other.1)
        }
    }

    fn duplicate(&self) -> (out: Self) {
        (self.0, self.1)
    }
}

impl QueueKey for ([u8; 32], [u8; 32]) {
    open spec fn order_key(self) -> Seq<int> {
        hash_key(self.0) + hash_key(self.1)
    }

    proof fn lemma_order_key(a: Self, b: Self) {
        lemma_hash_key(a.0, b.0);
        lemma_hash_key(a.1, b.1);
        lemma_hash_key(b.0, a.0);
        lemma_hash_key(b.1, a.1);
        if a.order_key() == b.order_key() {
            assert(hash_key(a.0) =~= a.order_key().take(32));
            assert(hash_key(b.0) =~= b.order_key().take(32));
            assert(hash_key(a.1) =~= a.order_key().skip(32));
            assert(hash_key(b.1) =~= b.order_key().skip(32));
        }
    }

    fn precedes(&self, other: &Self) -> (out: bool) {
        proof {
            lemma_hash_key(self.0, other.0);
            lemma_lex_concat(hash_key(self.0), hash_key(self.1), hash_key(other.0), hash_key(other.1));
            lemma_lex_irreflexive(hash_key(self.0));
        }
        if hash_precedes(&self.0, &other.0) {
            true
        } else if hash_precedes(&other.0, &self.0) {
            proof {
                lemma_lex_total(hash_key(self.0), hash_key(other.0));
                if hash_key(self.0) == hash_key(other.0) {
                    lemma_lex_irreflexive(hash_key(self.0));
                }
            }
            false
        } else {
            proof {
                lemma_hash_key(other.0, self.0);
                lemma_lex_total(hash_key(self.0), hash_key(other.0));
            }
            hash_precedes(&self.1, &other.1)
        }
    }

    fn duplicate(&self) -> (out: Self) {
        (self.0, self.1)
    }
}

/// Whether keys are in strictly increasing order: a sorted set.
pub open spec fn strictly_sorted<K: QueueKey>(s: Seq<K>) -> bool {
    forall|i: int, j: int| 0 <= i < j < s.len() ==> lex_lt((#[trigger] s[i]).order_key(), (#[trigger] s[j]).order_key())
}

/// Two keys are equal exactly when neither precedes the other.
pub proof fn lemma_key_trichotomy<K: QueueKey>(a: K, b: K)
    ensures
        a == b <==> (!lex_lt(a.order_key(), b.order_key()) && !lex_lt(b.order_key(), a.order_key())),
{
    K::lemma_order_key(a, b);
    lemma_lex_total(a.order_key(), b.order_key());
    lemma_lex_irreflexive(a.order_key());
}

/// A sorted set has no repeated key.
pub proof fn lemma_sorted_no_duplicates<K: QueueKey>(s: Seq<K>)
    requires
        strictly_sorted(s),
    ensures
        s.no_duplicates(),
{
    assert forall|i: int, j: int| 0 <= i < s.len() && 0 <= j < s.len() && i != j implies s[i] != s[j] by {
        if i < j {
            lemma_lex_irreflexive(s[i].order_key());
        } else {
            lemma_lex_irreflexive(s[j].order_key());
        }
    }
}

/// Whether a sorted set holds `k`.
pub fn set_contains<K: QueueKey>(v: &Vec<K>, k: &K) -> (out: bool)
    ensures
        out == v@.contains(*k),
{
    let mut i: usize = 0;
    while i < v.len()
        invariant
            i <= v@.len(),
            forall|j: int| 0 <= j < i ==> v@[j] != *k,
        decreases v@.len() - i,
    {
        proof {
            lemma_key_trichotomy(v@[i as int], *k);
        }
        if !v[i].precedes(k) && !k.precedes(&v[i]) {
            return true;
        }
        i += 1;
    }
    false
}

/// Adds `k` to a sorted set, keeping it sorted.
pub fn set_insert<K: QueueKey>(v: &mut Vec<K>, k: K)
    requires
        strictly_sorted(old(v)@),
    ensures
        strictly_sorted(final(v)@),
        final(v)@.to_set() == old(v)@.to_set().insert(k),
{
    let ghost s = v@;
    let mut p: usize = 0;
    while p < v.len() && v[p].precedes(&k)
        invariant
            v@ == s,
            strictly_sorted(s),
            p <= s.len(),
            forall|j: int| 0 <= j < p ==> lex_lt((#[trigger] s[j]).order_key(), k.order_key()),
        decreases s.len() - p,
    {
        p += 1;
    }
    if p < v.len() && !k.precedes(&v[p]) {
        proof {
            lemma_key_trichotomy(s[p as int], k);
            assert(s.to_set().insert(k) =~= s.to_set());
        }
        return;
    }
    proof {
        assert forall|j: int| p <= j < s.len() implies lex_lt(k.order_key(), (#[trigger] s[j]).order_key()) by {
            if j > p {
                K::lemma_order_key(k, s[p as int]);
                K::lemma_order_key(s[p as int], s[j]);
                lemma_lex_transitive(k.order_key(), s[p as int].order_key(), s[j].order_key());
            }
        }
    }
    v.insert(p, k);
    proof {
        let t = v@;
        assert(t == s.insert(p as int, k));
        assert forall|i: int, j: int| 0 <= i < j < t.len() implies lex_lt((#[trigger] t[i]).order_key(), (#[trigger] t[j]).order_key()) by {
            if j < p {
                assert(t[i] == s[i] && t[j] == s[j]);
            } else if j == p {
                assert(t[i] == s[i]);
            } else if i < p {
                assert(t[i] == s[i] && t[j] == s[j - 1]);
                K::lemma_order_key(s[i], k);
                K::lemma_order_key(k, s[j - 1]);
                lemma_lex_transitive(s[i].order_key(), k.order_key(), s[j - 1].order_key());
            } else if i == p {
                assert(t[j] == s[j - 1]);
            } else {
                assert(t[i] == s[i - 1] && t[j] == s[j - 1]);
            }
        }
        assert forall|x: K| t.to_set().contains(x) == s.to_set().insert(k).contains(x) by {
            if t.contains(x) {
                let w = choose|w: int| 0 <= w < t.len() && t[w] == x;
                if w < p {
                    assert(s[w] == x);
                } else if w > p {
                    assert(s[w - 1] == x);
                }
            }
            if s.contains(x) {
                let w = choose|w: int| 0 <= w < s.len() && s[w] == x;
                if w < p {
                    assert(t[w] == x);
                } else {
                    assert(t[w + 1] == x);
                }
            }
            if x == k {
                assert(t[p as int] == k);
            }
        }
        assert(t.to_set() =~= s.to_set().insert(k));
    }
}

} // verus!
