use vstd::prelude::*;
use vstd::string::StringSliceAdditionalSpecFns;
use crate::types::{Address, Hash32, hash_eq, hash_bytes, spec_hash_bytes, slices_view};
use crate::node::keys::{QueueKey, lex_lt, hash_key, lemma_hash_key, strictly_sorted, set_insert, set_contains, lemma_key_trichotomy,
    lemma_sorted_no_duplicates, lemma_lex_concat, lemma_lex_irreflexive, lemma_lex_total, lemma_lex_transitive};
use crate::testnet::config::{PublicTestnetRunEvidence, PublicTestnetCriteria};
use crate::testnet::public_node_evidence::{PublicNodeEvidence, PublicNodeRole, spec_live_for_run, spec_role_tag};

verus! {

/// The candidate addresses of operators: each entry is an operator and the
/// addresses it may be matched to, in the order they are tried.
pub type AddressesByOperator = Vec<(Hash32, Vec<Address>)>;

/// The addresses listed for `op` from entry `i` on: those of the first
/// entry for `op`, or none.
pub open spec fn candidates_from(c: Seq<(Hash32, Vec<Address>)>, i: int, op: Hash32) -> Seq<Address>
    decreases c.len() - i,
{
    if i < 0 || i >= c.len() {
        Seq::empty()
    } else if c[i].0 == op {
        c[i].1@
    } else {
        candidates_from(c, i + 1, op)
    }
}

/// The addresses listed for operator `op`.
pub open spec fn candidates_of(c: Seq<(Hash32, Vec<Address>)>, op: Hash32) -> Seq<Address> {
    candidates_from(c, 0, op)
}

/// Every address listed for any operator.
pub open spec fn all_addresses(c: Seq<(Hash32, Vec<Address>)>) -> Seq<Address>
    decreases c.len(),
{
    if c.len() == 0 {
        Seq::empty()
    } else {
        all_addresses(c.drop_last()) + c.last().1@
    }
}

/// The operator an address is matched to.
pub open spec fn owner_of(m: Seq<(Address, Hash32)>, a: Address) -> Option<Hash32>
    decreases m.len(),
{
    if m.len() == 0 {
        None
    } else if m.last().0 == a {
        Some(m.last().1)
    } else {
        owner_of(m.drop_last(), a)
    }
}

/// How many addresses are matched to operator `p`.
pub open spec fn owned_count(m: Seq<(Address, Hash32)>, p: Hash32) -> nat
    decreases m.len(),
{
    if m.len() == 0 {
        0
    } else {
        owned_count(m.drop_last(), p) + if m.last().1 == p { 1nat } else { 0nat }
    }
}

/// Whether no address is matched twice.
pub open spec fn keys_unique(m: Seq<(Address, Hash32)>) -> bool {
    forall|i: int, j: int| 0 <= i < j < m.len() ==> (#[trigger] m[i]).0 != (#[trigger] m[j]).0
}

/// Whether every matched address is a candidate of its operator.
pub open spec fn edges_valid(m: Seq<(Address, Hash32)>, c: Seq<(Hash32, Vec<Address>)>) -> bool {
    forall|i: int| 0 <= i < m.len() ==> candidates_of(c, (#[trigger] m[i]).1).contains(m[i].0)
}

/// Whether no operator holds two addresses.
pub open spec fn one_address_each(m: Seq<(Address, Hash32)>) -> bool {
    forall|p: Hash32| #[trigger] owned_count(m, p) <= 1
}

/// A matching of addresses to operators: each address once, each operator
/// at most once, along candidate edges only.
pub open spec fn is_matching(m: Seq<(Address, Hash32)>, c: Seq<(Hash32, Vec<Address>)>) -> bool {
    keys_unique(m) && edges_valid(m, c) && one_address_each(m)
}

proof fn lemma_candidates_from_entry(c: Seq<(Hash32, Vec<Address>)>, i: int, op: Hash32)
    requires
        0 <= i <= c.len(),
    ensures
        candidates_from(c, i, op).len() == 0 || exists|k: int| i <= k < c.len() && c[k].0 == op
            && candidates_from(c, i, op) == (#[trigger] c[k]).1@,
    decreases c.len() - i,
{
    if i < c.len() && c[i].0 != op {
        lemma_candidates_from_entry(c, i + 1, op);
    }
}

proof fn lemma_all_addresses_entry(c: Seq<(Hash32, Vec<Address>)>, k: int, a: Address)
    requires
        0 <= k < c.len(),
        c[k].1@.contains(a),
    ensures
        all_addresses(c).contains(a),
    decreases c.len(),
{
    let t = all_addresses(c.drop_last());
    let l = c.last().1@;
    if k == c.len() - 1 {
        let j = choose|j: int| 0 <= j < l.len() && l[j] == a;
        assert((t + l)[t.len() + j] == a);
    } else {
        lemma_all_addresses_entry(c.drop_last(), k, a);
        let j = choose|j: int| 0 <= j < t.len() && t[j] == a;
        assert((t + l)[j] == a);
    }
}

proof fn lemma_candidate_listed(c: Seq<(Hash32, Vec<Address>)>, op: Hash32, a: Address)
    requires
        candidates_of(c, op).contains(a),
    ensures
        all_addresses(c).contains(a),
{
    lemma_candidates_from_entry(c, 0, op);
    let k = choose|k: int| 0 <= k < c.len() && c[k].0 == op && candidates_of(c, op) == (#[trigger] c[k]).1@;
    lemma_all_addresses_entry(c, k, a);
}

proof fn lemma_owner_index(m: Seq<(Address, Hash32)>, i: int)
    requires
        keys_unique(m),
        0 <= i < m.len(),
    ensures
        owner_of(m, m[i].0) == Some(m[i].1),
    decreases m.len(),
{
    if i < m.len() - 1 {
        assert(m[i].0 != m[m.len() - 1].0);
        assert(m.drop_last()[i] == m[i]);
        lemma_owner_index(m.drop_last(), i);
    }
}

proof fn lemma_owner_absent(m: Seq<(Address, Hash32)>, a: Address)
    ensures
        owner_of(m, a) is None <==> forall|i: int| 0 <= i < m.len() ==> (#[trigger] m[i]).0 != a,
    decreases m.len(),
{
    if m.len() > 0 {
        lemma_owner_absent(m.drop_last(), a);
        if owner_of(m, a) is None {
            assert forall|i: int| 0 <= i < m.len() implies (#[trigger] m[i]).0 != a by {
                if i < m.len() - 1 {
                    assert(m.drop_last()[i] == m[i]);
                }
            }
        } else if m.last().0 != a {
            let j = choose|j: int| 0 <= j < m.drop_last().len() && (#[trigger] m.drop_last()[j]).0 == a;
            assert(m[j] == m.drop_last()[j]);
        }
    }
}

proof fn lemma_owner_push(m: Seq<(Address, Hash32)>, e: (Address, Hash32), a: Address)
    ensures
        owner_of(m.push(e), a) == if e.0 == a { Some(e.1) } else { owner_of(m, a) },
{
    assert(m.push(e).drop_last() =~= m);
}

proof fn lemma_owner_update(m: Seq<(Address, Hash32)>, k: int, e: (Address, Hash32), a: Address)
    requires
        keys_unique(m),
        0 <= k < m.len(),
        e.0 == m[k].0,
    ensures
        owner_of(m.update(k, e), a) == if e.0 == a { Some(e.1) } else { owner_of(m, a) },
    decreases m.len(),
{
    let n = m.update(k, e);
    if k == m.len() - 1 {
        assert(n.drop_last() =~= m.drop_last());
        if e.0 != a {
            assert(m.last().0 == e.0);
        }
    } else {
        assert(n.drop_last() =~= m.drop_last().update(k, e));
        assert(m.drop_last()[k] == m[k]);
        lemma_owner_update(m.drop_last(), k, e, a);
        if m.last().0 == a {
            assert(m[k].0 != m[m.len() - 1].0);
        }
    }
}

proof fn lemma_count_push(m: Seq<(Address, Hash32)>, e: (Address, Hash32), p: Hash32)
    ensures
        owned_count(m.push(e), p) == owned_count(m, p) + if e.1 == p { 1nat } else { 0nat },
{
    assert(m.push(e).drop_last() =~= m);
}

proof fn lemma_count_update(m: Seq<(Address, Hash32)>, k: int, e: (Address, Hash32), p: Hash32)
    requires
        0 <= k < m.len(),
    ensures
        owned_count(m.update(k, e), p) + (if m[k].1 == p { 1nat } else { 0nat })
            == owned_count(m, p) + (if e.1 == p { 1nat } else { 0nat }),
    decreases m.len(),
{
    let n = m.update(k, e);
    if k == m.len() - 1 {
        assert(n.drop_last() =~= m.drop_last());
    } else {
        assert(n.drop_last() =~= m.drop_last().update(k, e));
        assert(m.drop_last()[k] == m[k]);
        lemma_count_update(m.drop_last(), k, e, p);
    }
}

proof fn lemma_count_two(m: Seq<(Address, Hash32)>, p: Hash32, i: int, j: int)
    requires
        0 <= i < m.len(),
        0 <= j < m.len(),
        m[i].1 == p,
        m[j].1 == p,
    ensures
        owned_count(m, p) >= 1,
        i != j ==> owned_count(m, p) >= 2,
    decreases m.len(),
{
    let l = m.len() - 1;
    if i == l && j == l {
    } else if i == l {
        assert(m.drop_last()[j] == m[j]);
        lemma_count_two(m.drop_last(), p, j, j);
    } else if j == l {
        assert(m.drop_last()[i] == m[i]);
        lemma_count_two(m.drop_last(), p, i, i);
    } else {
        assert(m.drop_last()[i] == m[i]);
        assert(m.drop_last()[j] == m[j]);
        lemma_count_two(m.drop_last(), p, i, j);
    }
}

proof fn lemma_push_contains(s: Seq<Address>, x: Address)
    ensures
        s.push(x).contains(x),
        forall|a: Address| s.contains(a) ==> #[trigger] s.push(x).contains(a),
{
    assert(s.push(x)[s.len() as int] == x);
    assert forall|a: Address| s.contains(a) implies #[trigger] s.push(x).contains(a) by {
        let w = choose|w: int| 0 <= w < s.len() && s[w] == a;
        assert(s.push(x)[w] == a);
    }
}

/// The position of the first entry for `op`.
fn find_operator(c: &AddressesByOperator, op: &Hash32) -> (out: Option<usize>)
    ensures
        match out {
            Some(i) => i < c@.len() && c@[i as int].0 == *op && candidates_of(c@, *op) == c@[i as int].1@,
            None => candidates_of(c@, *op) == Seq::<Address>::empty(),
        },
{
    let mut i: usize = 0;
    while i < c.len()
        invariant
            i <= c@.len(),
            candidates_of(c@, *op) == candidates_from(c@, i as int, *op),
        decreases c@.len() - i,
    {
        if hash_eq(&c[i].0, op) {
            assert(c@[i as int].0@ == op@);
            assert(c@[i as int].0 =~= *op);
            return Some(i);
        }
        proof {
            if c@[i as int].0 == *op {
                assert(c@[i as int].0@ == op@);
            }
        }
        i += 1;
    }
    None
}

fn seen_contains(seen: &Vec<Address>, a: &Address) -> (out: bool)
    ensures
        out == seen@.contains(*a),
{
    let mut i: usize = 0;
    while i < seen.len()
        invariant
            i <= seen@.len(),
            forall|j: int| 0 <= j < i ==> seen@[j] != *a,
        decreases seen@.len() - i,
    {
        if hash_eq(&seen[i], a) {
            assert(seen@[i as int] =~= *a);
            return true;
        }
        i += 1;
    }
    false
}

/// The position of the entry that matches address `a`.
fn find_owner(m: &Vec<(Address, Hash32)>, a: &Address) -> (out: Option<usize>)
    ensures
        match out {
            Some(k) => k < m@.len() && m@[k as int].0 == *a,
            None => owner_of(m@, *a) is None,
        },
{
    let mut k: usize = 0;
    while k < m.len()
        invariant
            k <= m@.len(),
            forall|j: int| 0 <= j < k ==> (#[trigger] m@[j]).0 != *a,
        decreases m@.len() - k,
    {
        if hash_eq(&m[k].0, a) {
            assert(m@[k as int].0 =~= *a);
            return Some(k);
        }
        k += 1;
    }
    proof {
        lemma_owner_absent(m@, *a);
    }
    None
}

/// Tries to match `operator_id` to one of its candidate addresses not yet
/// seen in this search, moving the operator of a taken address to another
/// of its addresses where it can (an augmenting path). On success the
/// operator holds one more address and every other operator as many as
/// before; on failure nothing is matched anew, and every candidate of the
/// operator has been seen, each new one taken already.
pub fn match_public_operator_address(
    operator_id: Hash32,
    candidate_addresses_by_operator: &AddressesByOperator,
    address_to_operator: &mut Vec<(Address, Hash32)>,
    seen_addresses: &mut Vec<Address>,
) -> (out: bool)
    requires
        is_matching(old(address_to_operator)@, candidate_addresses_by_operator@),
        forall|i: int| 0 <= i < old(address_to_operator)@.len() && (#[trigger] old(address_to_operator)@[i]).1 == operator_id
            ==> old(seen_addresses)@.contains(old(address_to_operator)@[i].0),
        old(seen_addresses)@.no_duplicates(),
        forall|a: Address| old(seen_addresses)@.contains(a) ==> all_addresses(candidate_addresses_by_operator@).contains(a),
    ensures
        keys_unique(final(address_to_operator)@),
        edges_valid(final(address_to_operator)@, candidate_addresses_by_operator@),
        final(seen_addresses)@.no_duplicates(),
        forall|a: Address| final(seen_addresses)@.contains(a) ==> all_addresses(candidate_addresses_by_operator@).contains(a),
        forall|a: Address| old(seen_addresses)@.contains(a) ==> final(seen_addresses)@.contains(a),
        final(seen_addresses)@.len() >= old(seen_addresses)@.len(),
        forall|a: Address| old(seen_addresses)@.contains(a)
            ==> owner_of(final(address_to_operator)@, a) == owner_of(old(address_to_operator)@, a),
        forall|a: Address| owner_of(old(address_to_operator)@, a) is Some
            ==> (#[trigger] owner_of(final(address_to_operator)@, a)) is Some,
        out ==> forall|p: Hash32| #[trigger] owned_count(final(address_to_operator)@, p)
            == owned_count(old(address_to_operator)@, p) + if p == operator_id { 1nat } else { 0nat },
        !out ==> final(address_to_operator)@ == old(address_to_operator)@,
        !out ==> forall|a: Address| candidates_of(candidate_addresses_by_operator@, operator_id).contains(a)
            ==> final(seen_addresses)@.contains(a),
        !out ==> forall|a: Address| final(seen_addresses)@.contains(a) && !old(seen_addresses)@.contains(a)
            ==> owner_of(old(address_to_operator)@, a) is Some,
    decreases all_addresses(candidate_addresses_by_operator@).len() - old(seen_addresses)@.len(),
{
    let ghost c = candidate_addresses_by_operator@;
    let ghost m0 = address_to_operator@;
    let ghost s0 = seen_addresses@;
    let idx = match find_operator(candidate_addresses_by_operator, &operator_id) {
        Some(i) => i,
        None => return false,
    };
    let candidate_addresses = &candidate_addresses_by_operator[idx].1;
    assert(candidate_addresses@ == candidates_of(c, operator_id));
    let mut j: usize = 0;
    while j < candidate_addresses.len()
        invariant
            c == candidate_addresses_by_operator@,
            s0 == old(seen_addresses)@,
            m0 == old(address_to_operator)@,
            candidate_addresses@ == candidates_of(c, operator_id),
            j <= candidate_addresses@.len(),
            address_to_operator@ == m0,
            is_matching(m0, c),
            forall|i: int| 0 <= i < m0.len() && (#[trigger] m0[i]).1 == operator_id ==> s0.contains(m0[i].0),
            seen_addresses@.no_duplicates(),
            forall|a: Address| seen_addresses@.contains(a) ==> all_addresses(c).contains(a),
            forall|a: Address| s0.contains(a) ==> seen_addresses@.contains(a),
            seen_addresses@.len() >= s0.len(),
            forall|t: int| 0 <= t < j ==> seen_addresses@.contains(#[trigger] candidate_addresses@[t]),
            forall|a: Address| seen_addresses@.contains(a) && !s0.contains(a) ==> owner_of(m0, a) is Some,
        decreases candidate_addresses@.len() - j,
    {
        let address = candidate_addresses[j];
        if seen_contains(seen_addresses, &address) {
            j += 1;
            continue;
        }
        proof {
            assert(candidates_of(c, operator_id).contains(address)) by {
                assert(candidate_addresses@[j as int] == address);
            }
            lemma_candidate_listed(c, operator_id, address);
        }
        let ghost s1 = seen_addresses@;
        seen_addresses.push(address);
        proof {
            lemma_push_contains(s1, address);
            assert forall|t: int| 0 <= t < j implies seen_addresses@.contains(#[trigger] candidate_addresses@[t]) by {
                assert(s1.contains(candidate_addresses@[t]));
            }
            s1.unique_seq_to_set();
            seen_addresses@.unique_seq_to_set();
            broadcast use vstd::seq_lib::seq_to_set_is_finite;
            assert(seen_addresses@.to_set().subset_of(all_addresses(c).to_set()));
            vstd::set_lib::lemma_len_subset(seen_addresses@.to_set(), all_addresses(c).to_set());
            all_addresses(c).lemma_cardinality_of_set();
            assert(seen_addresses@.len() == s1.len() + 1);
        }
        match find_owner(address_to_operator, &address) {
            None => {
                proof {
                    lemma_owner_absent(m0, address);
                    assert forall|p: Hash32| #[trigger] owned_count(m0.push((address, operator_id)), p)
                        == owned_count(m0, p) + if p == operator_id { 1nat } else { 0nat } by {
                        lemma_count_push(m0, (address, operator_id), p);
                    }
                    assert forall|a: Address| s0.contains(a)
                        implies owner_of(m0.push((address, operator_id)), a) == owner_of(m0, a) by {
                        lemma_owner_push(m0, (address, operator_id), a);
                    }
                    assert forall|a: Address| owner_of(m0, a) is Some
                        implies (#[trigger] owner_of(m0.push((address, operator_id)), a)) is Some by {
                        lemma_owner_push(m0, (address, operator_id), a);
                    }
                    let n = m0.push((address, operator_id));
                    assert forall|i: int| 0 <= i < n.len() implies candidates_of(c, (#[trigger] n[i]).1).contains(n[i].0) by {
                        if i < m0.len() {
                            assert(n[i] == m0[i]);
                        }
                    }
                }
                address_to_operator.push((address, operator_id));
                return true;
            },
            Some(k) => {
                let existing_operator_id = address_to_operator[k].1;
                proof {
                    lemma_owner_index(m0, k as int);
                    assert(existing_operator_id != operator_id);
                    assert forall|i: int| 0 <= i < m0.len() && (#[trigger] m0[i]).1 == existing_operator_id
                        implies seen_addresses@.contains(m0[i].0) by {
                        if i != k {
                            lemma_count_two(m0, existing_operator_id, i, k as int);
                            assert(owned_count(m0, existing_operator_id) <= 1);
                        }
                        assert(seen_addresses@[s1.len() as int] == address);
                    }
                }
                let ghost s2 = seen_addresses@;
                if match_public_operator_address(
                    existing_operator_id,
                    candidate_addresses_by_operator,
                    address_to_operator,
                    seen_addresses,
                ) {
                    let ghost m1 = address_to_operator@;
                    proof {
                        assert(s2.contains(address)) by {
                            assert(s2[s1.len() as int] == address);
                        }
                        assert(owner_of(m1, address) == Some(existing_operator_id));
                    }
                    let k1 = match find_owner(address_to_operator, &address) {
                        Some(k1) => k1,
                        None => {
                            proof {
                                assert(false);
                            }
                            return false;
                        },
                    };
                    proof {
                        lemma_owner_index(m1, k1 as int);
                        assert(m1[k1 as int].1 == existing_operator_id);
                    }
                    address_to_operator[k1] = (address, operator_id);
                    proof {
                        let n = address_to_operator@;
                        assert(n == m1.update(k1 as int, (address, operator_id)));
                        assert forall|p: Hash32| #[trigger] owned_count(n, p)
                            == owned_count(m0, p) + if p == operator_id { 1nat } else { 0nat } by {
                            lemma_count_update(m1, k1 as int, (address, operator_id), p);
                            assert(owned_count(m1, p) == owned_count(m0, p) + if p == existing_operator_id { 1nat } else { 0nat });
                        }
                        assert forall|a: Address| owner_of(m0, a) is Some implies (#[trigger] owner_of(n, a)) is Some by {
                            lemma_owner_update(m1, k1 as int, (address, operator_id), a);
                        }
                        assert forall|a: Address| s0.contains(a) implies owner_of(n, a) == owner_of(m0, a) by {
                            lemma_owner_update(m1, k1 as int, (address, operator_id), a);
                            assert(s2.contains(a));
                        }
                        assert forall|i: int, jj: int| 0 <= i < jj < n.len() implies (#[trigger] n[i]).0 != (#[trigger] n[jj]).0 by {
                            assert(m1[i].0 == n[i].0 && m1[jj].0 == n[jj].0);
                        }
                        assert forall|i: int| 0 <= i < n.len() implies candidates_of(c, (#[trigger] n[i]).1).contains(n[i].0) by {
                            if i != k1 {
                                assert(n[i] == m1[i]);
                            }
                        }
                    }
                    return true;
                }
                proof {
                    assert forall|a: Address| seen_addresses@.contains(a) && !s0.contains(a)
                        implies owner_of(m0, a) is Some by {
                        if !s2.contains(a) {
                        } else if !s1.contains(a) {
                            assert(a == address) by {
                                let w = choose|w: int| 0 <= w < s2.len() && s2[w] == a;
                                assert(w == s1.len());
                            }
                        }
                    }
                    assert(s2.contains(address)) by {
                        assert(s2[s1.len() as int] == address);
                    }
                }
            },
        }
        j += 1;
    }
    false
}

/// Whether a node may be matched for `role`: it plays that role, is live
/// through the run, and neither its operator nor its address is taken.
pub open spec fn eligible(
    n: PublicNodeEvidence,
    role: PublicNodeRole,
    observed_blocks: u64,
    taken_operators: Seq<Hash32>,
    taken_addresses: Seq<Address>,
) -> bool {
    &&& n.role == role
    &&& spec_live_for_run(n, observed_blocks)
    &&& !taken_operators.contains(n.operator_id)
    &&& !taken_addresses.contains(n.address)
}

/// Whether some eligible node has operator `op` and address `a`.
pub open spec fn eligible_edge(
    nodes: Seq<PublicNodeEvidence>,
    role: PublicNodeRole,
    observed_blocks: u64,
    taken_operators: Seq<Hash32>,
    taken_addresses: Seq<Address>,
    op: Hash32,
    a: Address,
) -> bool {
    exists|i: int| 0 <= i < nodes.len() && eligible(#[trigger] nodes[i], role, observed_blocks, taken_operators, taken_addresses)
        && nodes[i].operator_id == op && nodes[i].address == a
}

/// Whether entries are in strictly increasing address order.
pub open spec fn sorted_by_address(m: Seq<(Address, Hash32)>) -> bool {
    forall|i: int, j: int| 0 <= i < j < m.len() ==> lex_lt(hash_key((#[trigger] m[i]).0), hash_key((#[trigger] m[j]).0))
}

proof fn lemma_sorted_by_address_unique(m: Seq<(Address, Hash32)>)
    requires
        sorted_by_address(m),
    ensures
        keys_unique(m),
{
    assert forall|i: int, j: int| 0 <= i < j < m.len() implies (#[trigger] m[i]).0 != (#[trigger] m[j]).0 by {
        lemma_lex_irreflexive(hash_key(m[i].0));
    }
}

/// Sets `a` to `o` in an address-sorted map, as `BTreeMap::insert` does.
fn map_insert(m: &mut Vec<(Address, Hash32)>, a: Address, o: Hash32)
    requires
        sorted_by_address(old(m)@),
    ensures
        sorted_by_address(final(m)@),
        forall|x: Address| #[trigger] owner_of(final(m)@, x) == if x == a { Some(o) } else { owner_of(old(m)@, x) },
{
    let ghost s = m@;
    proof {
        lemma_sorted_by_address_unique(s);
    }
    let mut p: usize = 0;
    while p < m.len() && m[p].0.precedes(&a)
        invariant
            m@ == s,
            sorted_by_address(s),
            p <= s.len(),
            forall|j: int| 0 <= j < p ==> lex_lt(hash_key((#[trigger] s[j]).0), hash_key(a)),
        decreases s.len() - p,
    {
        p += 1;
    }
    if p < m.len() && !a.precedes(&m[p].0) {
        proof {
            lemma_key_trichotomy(s[p as int].0, a);
        }
        m[p] = (a, o);
        proof {
            assert(m@ == s.update(p as int, (a, o)));
            assert forall|x: Address| #[trigger] owner_of(m@, x) == if x == a { Some(o) } else { owner_of(s, x) } by {
                lemma_owner_update(s, p as int, (a, o), x);
            }
            assert forall|i: int, j: int| 0 <= i < j < m@.len() implies lex_lt(hash_key((#[trigger] m@[i]).0), hash_key((#[trigger] m@[j]).0)) by {
                assert(m@[i].0 == s[i].0 && m@[j].0 == s[j].0);
            }
        }
        return;
    }
    proof {
        assert forall|j: int| p <= j < s.len() implies lex_lt(hash_key(a), hash_key((#[trigger] s[j]).0)) by {
            lemma_key_trichotomy(a, s[p as int].0);
            if j > p {
                lemma_lex_transitive(hash_key(a), hash_key(s[p as int].0), hash_key(s[j].0));
            }
        }
        assert forall|j: int| 0 <= j < s.len() implies (#[trigger] s[j]).0 != a by {
            lemma_lex_irreflexive(hash_key(a));
        }
        lemma_owner_absent(s, a);
    }
    m.insert(p, (a, o));
    proof {
        let t = m@;
        assert(t == s.insert(p as int, (a, o)));
        assert forall|i: int, j: int| 0 <= i < j < t.len() implies lex_lt(hash_key((#[trigger] t[i]).0), hash_key((#[trigger] t[j]).0)) by {
            if j < p {
                assert(t[i] == s[i] && t[j] == s[j]);
            } else if j == p {
                assert(t[i] == s[i]);
            } else if i < p {
                assert(t[i] == s[i] && t[j] == s[j - 1]);
                lemma_lex_transitive(hash_key(s[i].0), hash_key(a), hash_key(s[j - 1].0));
            } else if i == p {
                assert(t[j] == s[j - 1]);
            } else {
                assert(t[i] == s[i - 1] && t[j] == s[j - 1]);
            }
        }
        lemma_sorted_by_address_unique(t);
        assert forall|x: Address| #[trigger] owner_of(t, x) == if x == a { Some(o) } else { owner_of(s, x) } by {
            if x == a {
                lemma_owner_index(t, p as int);
            } else {
                lemma_owner_absent(s, x);
                lemma_owner_absent(t, x);
                if owner_of(s, x) is Some {
                    let w = choose|w: int| 0 <= w < s.len() && (#[trigger] s[w]).0 == x;
                    lemma_owner_index(s, w);
                    if w < p {
                        assert(t[w] == s[w]);
                        lemma_owner_index(t, w);
                    } else {
                        assert(t[w + 1] == s[w]);
                        lemma_owner_index(t, w + 1);
                    }
                }
            }
        }
    }
}

proof fn lemma_owner_witness(m: Seq<(Address, Hash32)>, a: Address)
    requires
        owner_of(m, a) is Some,
    ensures
        exists|t: int| 0 <= t < m.len() && (#[trigger] m[t]).0 == a && m[t].1 == owner_of(m, a)->0,
    decreases m.len(),
{
    if m.last().0 != a {
        lemma_owner_witness(m.drop_last(), a);
        let t = choose|t: int| 0 <= t < m.drop_last().len() && (#[trigger] m.drop_last()[t]).0 == a
            && m.drop_last()[t].1 == owner_of(m.drop_last(), a)->0;
        assert(m[t] == m.drop_last()[t]);
    } else {
        assert(m[m.len() - 1] == m.last());
    }
}

/// The operators and addresses matched for one role, and which address
/// went to which operator.
#[derive(Clone, Debug, PartialEq, Eq)]
pub struct MatchedPublicOperators {
    pub operator_ids: Vec<Hash32>,
    pub addresses: Vec<Address>,
    pub address_to_operator: Vec<(Address, Hash32)>,
}

impl MatchedPublicOperators {
    /// The address map is sorted by address; the operator and address sets
    /// are sorted and hold exactly the map's values and keys.
    pub open spec fn wf(&self) -> bool {
        &&& sorted_by_address(self.address_to_operator@)
        &&& strictly_sorted(self.operator_ids@)
        &&& strictly_sorted(self.addresses@)
        &&& forall|o: Hash32| self.operator_ids@.contains(o)
            <==> exists|a: Address| #[trigger] owner_of(self.address_to_operator@, a) == Some(o)
        &&& forall|a: Address| self.addresses@.contains(a) <==> (#[trigger] owner_of(self.address_to_operator@, a)) is Some
    }

    /// The matched sets of an address map, as a `BTreeMap` collects it: a
    /// later entry for an address replaces an earlier one.
    pub fn from_address_matching(address_to_operator: &Vec<(Address, Hash32)>) -> (out: Self)
        ensures
            out.wf(),
            forall|a: Address| #[trigger] owner_of(out.address_to_operator@, a) == owner_of(address_to_operator@, a),
    {
        let ghost src = address_to_operator@;
        let mut map: Vec<(Address, Hash32)> = Vec::new();
        let mut i: usize = 0;
        while i < address_to_operator.len()
            invariant
                src == address_to_operator@,
                i <= src.len(),
                sorted_by_address(map@),
                forall|a: Address| #[trigger] owner_of(map@, a) == owner_of(src.take(i as int), a),
            decreases src.len() - i,
        {
            let (a, o) = address_to_operator[i];
            map_insert(&mut map, a, o);
            proof {
                assert(src.take(i + 1).drop_last() =~= src.take(i as int));
                assert(src.take(i + 1).last() == (a, o));
            }
            i += 1;
        }
        assert(src.take(src.len() as int) =~= src);
        let ghost mm = map@;
        proof {
            lemma_sorted_by_address_unique(mm);
        }
        let mut operator_ids: Vec<Hash32> = Vec::new();
        let mut addresses: Vec<Address> = Vec::new();
        let mut k: usize = 0;
        while k < map.len()
            invariant
                mm == map@,
                keys_unique(mm),
                k <= mm.len(),
                strictly_sorted(operator_ids@),
                strictly_sorted(addresses@),
                operator_ids@.to_set() == Set::new(|o: Hash32| exists|t: int| 0 <= t < k && (#[trigger] mm[t]).1 == o),
                addresses@.to_set() == Set::new(|a: Address| exists|t: int| 0 <= t < k && (#[trigger] mm[t]).0 == a),
            decreases mm.len() - k,
        {
            let (a, o) = map[k];
            set_insert(&mut operator_ids, o);
            set_insert(&mut addresses, a);
            proof {
                assert(operator_ids@.to_set() =~= Set::new(|o: Hash32| exists|t: int| 0 <= t < k + 1 && (#[trigger] mm[t]).1 == o)) by {
                    assert(mm[k as int] == (a, o));
                }
                assert(addresses@.to_set() =~= Set::new(|a: Address| exists|t: int| 0 <= t < k + 1 && (#[trigger] mm[t]).0 == a)) by {
                    assert(mm[k as int] == (a, o));
                }
            }
            k += 1;
        }
        let out = MatchedPublicOperators { operator_ids, addresses, address_to_operator: map };
        proof {
            assert forall|o: Hash32| out.operator_ids@.contains(o)
                <==> exists|a: Address| #[trigger] owner_of(out.address_to_operator@, a) == Some(o) by {
                if out.operator_ids@.contains(o) {
                    assert(out.operator_ids@.to_set().contains(o));
                    let t = choose|t: int| 0 <= t < mm.len() && (#[trigger] mm[t]).1 == o;
                    lemma_owner_index(mm, t);
                    assert(owner_of(mm, mm[t].0) == Some(o));
                }
                if exists|a: Address| #[trigger] owner_of(out.address_to_operator@, a) == Some(o) {
                    let a = choose|a: Address| #[trigger] owner_of(out.address_to_operator@, a) == Some(o);
                    lemma_owner_witness(mm, a);
                    let t = choose|t: int| 0 <= t < mm.len() && (#[trigger] mm[t]).0 == a && mm[t].1 == owner_of(mm, a)->0;
                    assert(operator_ids@.to_set().contains(o));
                }
            }
            assert forall|a: Address| out.addresses@.contains(a) <==> (#[trigger] owner_of(out.address_to_operator@, a)) is Some by {
                if out.addresses@.contains(a) {
                    assert(out.addresses@.to_set().contains(a));
                    let t = choose|t: int| 0 <= t < mm.len() && (#[trigger] mm[t]).0 == a;
                    lemma_owner_index(mm, t);
                }
                if owner_of(mm, a) is Some {
                    lemma_owner_witness(mm, a);
                    let t = choose|t: int| 0 <= t < mm.len() && (#[trigger] mm[t]).0 == a && mm[t].1 == owner_of(mm, a)->0;
                    assert(addresses@.to_set().contains(a));
                }
            }
        }
        out
    }
}

/// A live public node as operator matching sees it.
#[derive(Clone, Copy, Debug, PartialEq, Eq)]
pub struct PublicOperatorCandidate {
    pub role: PublicNodeRole,
    pub operator_id: Hash32,
    pub address: Address,
}

/// The rank of a role in candidate order: miners first.
pub open spec fn role_rank(role: PublicNodeRole) -> int {
    match role {
        PublicNodeRole::Miner => 0,
        PublicNodeRole::Validator => 1,
    }
}

fn role_rank_of(role: PublicNodeRole) -> (out: u8)
    ensures
        out as int == role_rank(role),
{
    match role {
        PublicNodeRole::Miner => 0,
        PublicNodeRole::Validator => 1,
    }
}

impl QueueKey for PublicOperatorCandidate {
    /// Candidates are ordered by role, then operator, then address.
    open spec fn order_key(self) -> Seq<int> {
        seq![role_rank(self.role)] + hash_key(self.operator_id) + hash_key(self.address)
    }

    proof fn lemma_order_key(a: Self, b: Self) {
        lemma_hash_key(a.operator_id, b.operator_id);
        lemma_hash_key(a.address, b.address);
        lemma_hash_key(b.operator_id, a.operator_id);
        lemma_hash_key(b.address, a.address);
        if a.order_key() == b.order_key() {
            assert(a.order_key()[0] == b.order_key()[0]);
            assert(hash_key(a.operator_id) =~= a.order_key().subrange(1, 33));
            assert(hash_key(b.operator_id) =~= b.order_key().subrange(1, 33));
            assert(hash_key(a.address) =~= a.order_key().subrange(33, 65));
            assert(hash_key(b.address) =~= b.order_key().subrange(33, 65));
            assert(a.role == b.role) by {
                assert(role_rank(a.role) == role_rank(b.role));
            }
        }
    }

    fn precedes(&self, other: &Self) -> (out: bool) {
        let ghost ha = seq![role_rank(self.role)] + hash_key(self.operator_id);
        let ghost hb = seq![role_rank(other.role)] + hash_key(other.operator_id);
        proof {
            lemma_hash_key(self.operator_id, other.operator_id);
            lemma_hash_key(self.address, other.address);
            lemma_lex_concat(ha, hash_key(self.address), hb, hash_key(other.address));
            lemma_lex_concat(seq![role_rank(self.role)], hash_key(self.operator_id), seq![role_rank(other.role)], hash_key(other.operator_id));
            lemma_lex_irreflexive(ha);
            lemma_lex_irreflexive(seq![role_rank(self.role)]);
            assert(seq![role_rank(self.role)][0] == role_rank(self.role));
            assert(seq![role_rank(other.role)][0] == role_rank(other.role));
        }
        let ra = role_rank_of(self.role);
        let rb = role_rank_of(other.role);
        if ra != rb {
            assert(seq![role_rank(self.role)] != seq![role_rank(other.role)]);
            assert(ha != hb) by {
                assert(ha[0] != hb[0]);
            }
            return ra < rb;
        }
        assert(seq![role_rank(self.role)] =~= seq![role_rank(other.role)]);
        if self.operator_id.precedes(&other.operator_id) {
            return true;
        }
        if other.operator_id.precedes(&self.operator_id) {
            proof {
                lemma_lex_total(hash_key(self.operator_id), hash_key(other.operator_id));
                if hash_key(self.operator_id) == hash_key(other.operator_id) {
                    lemma_lex_irreflexive(hash_key(self.operator_id));
                }
                assert(hash_key(self.operator_id) =~= ha.subrange(1, 33));
                assert(hash_key(other.operator_id) =~= hb.subrange(1, 33));
                lemma_lex_irreflexive(hash_key(other.operator_id));
                assert(ha != hb);
            }
            return false;
        }
        proof {
            lemma_hash_key(other.operator_id, self.operator_id);
            lemma_lex_total(hash_key(self.operator_id), hash_key(other.operator_id));
            assert(ha =~= hb);
        }
        self.address.precedes(&other.address)
    }

    fn duplicate(&self) -> (out: Self) {
        *self
    }
}

/// The key an operator's identity attestation for a node is filed under.
pub open spec fn spec_attestation_key(role: PublicNodeRole, address: Address, operator_id: Hash32) -> Seq<u8> {
    spec_hash_bytes(
        "tensor-vm-public-operator-attestation-key-v1".spec_bytes(),
        seq![spec_role_tag(role), address@, operator_id@],
    )
}

/// The key an operator's identity attestation for a node is filed under.
pub fn public_operator_attestation_key(role: PublicNodeRole, address: &Address, operator_id: &Hash32) -> (out: Hash32)
    ensures
        out@ == spec_attestation_key(role, *address, *operator_id),
{
    let tag = role.tag();
    let parts: Vec<&[u8]> = vec![tag, address.as_slice(), operator_id.as_slice()];
    assert(slices_view(parts@) =~= seq![spec_role_tag(role), address@, operator_id@]);
    hash_bytes("tensor-vm-public-operator-attestation-key-v1".as_bytes(), parts.as_slice())
}

/// The pairs of candidates of one role, as address and operator.
pub open spec fn role_pairs(candidates: Seq<PublicOperatorCandidate>, role: PublicNodeRole) -> Seq<(Address, Hash32)>
    decreases candidates.len(),
{
    if candidates.len() == 0 {
        Seq::empty()
    } else {
        let rest = role_pairs(candidates.drop_last(), role);
        let c = candidates.last();
        if c.role == role { rest.push((c.address, c.operator_id)) } else { rest }
    }
}

impl MatchedPublicOperators {
    /// The matched sets of the candidates of one role.
    pub fn from_candidates(role: PublicNodeRole, candidates: &[PublicOperatorCandidate]) -> (out: Self)
        ensures
            out.wf(),
            forall|a: Address| #[trigger] owner_of(out.address_to_operator@, a) == owner_of(role_pairs(candidates@, role), a),
    {
        let mut pairs: Vec<(Address, Hash32)> = Vec::new();
        let mut i: usize = 0;
        while i < candidates.len()
            invariant
                i <= candidates@.len(),
                pairs@ == role_pairs(candidates@.take(i as int), role),
            decreases candidates@.len() - i,
        {
            let c = candidates[i];
            proof {
                assert(candidates@.take(i + 1).drop_last() =~= candidates@.take(i as int));
                assert(candidates@.take(i + 1).last() == c);
            }
            if c.role == role {
                pairs.push((c.address, c.operator_id));
            }
            i += 1;
        }
        assert(candidates@.take(candidates@.len() as int) =~= candidates@);
        Self::from_address_matching(&pairs)
    }

    /// The attestation keys of the matched nodes of a role, as a sorted set.
    pub fn attestation_keys_for_role(&self, role: PublicNodeRole) -> (out: Vec<Hash32>)
        ensures
            strictly_sorted(out@),
            forall|h: Hash32| out@.contains(h) <==> exists|t: int| 0 <= t < self.address_to_operator@.len()
                && h@ == spec_attestation_key(role, (#[trigger] self.address_to_operator@[t]).0, self.address_to_operator@[t].1),
    {
        let ghost m = self.address_to_operator@;
        let mut keys: Vec<Hash32> = Vec::new();
        let mut k: usize = 0;
        while k < self.address_to_operator.len()
            invariant
                m == self.address_to_operator@,
                k <= m.len(),
                strictly_sorted(keys@),
                forall|h: Hash32| keys@.contains(h) <==> exists|t: int| 0 <= t < k
                    && h@ == spec_attestation_key(role, (#[trigger] m[t]).0, m[t].1),
            decreases m.len() - k,
        {
            let (a, o) = self.address_to_operator[k];
            let key = public_operator_attestation_key(role, &a, &o);
            let ghost before = keys@;
            set_insert(&mut keys, key);
            proof {
                assert forall|h: Hash32| keys@.contains(h) <==> exists|t: int| 0 <= t < k + 1
                    && h@ == spec_attestation_key(role, (#[trigger] m[t]).0, m[t].1) by {
                    assert(keys@.to_set().contains(h) == before.to_set().insert(key).contains(h));
                    if h == key {
                        assert(m[k as int] == (a, o));
                    }
                    if exists|t: int| 0 <= t < k + 1 && h@ == spec_attestation_key(role, (#[trigger] m[t]).0, m[t].1) {
                        let t = choose|t: int| 0 <= t < k + 1 && h@ == spec_attestation_key(role, (#[trigger] m[t]).0, m[t].1);
                        if t == k {
                            assert(m[t] == (a, o));
                            assert(h@ == key@);
                            assert(h =~= key);
                        }
                    }
                }
            }
            k += 1;
        }
        keys
    }
}

proof fn lemma_count_zero(m: Seq<(Address, Hash32)>, p: Hash32)
    ensures
        owned_count(m, p) == 0 <==> forall|t: int| 0 <= t < m.len() ==> (#[trigger] m[t]).1 != p,
    decreases m.len(),
{
    if m.len() > 0 {
        lemma_count_zero(m.drop_last(), p);
        if owned_count(m, p) == 0 {
            assert forall|t: int| 0 <= t < m.len() implies (#[trigger] m[t]).1 != p by {
                if t < m.len() - 1 {
                    assert(m.drop_last()[t] == m[t]);
                }
            }
        } else {
            if m.last().1 != p {
                let t = choose|t: int| 0 <= t < m.drop_last().len() && (#[trigger] m.drop_last()[t]).1 == p;
                assert(m[t] == m.drop_last()[t]);
            } else {
                assert(m[m.len() - 1].1 == p);
            }
        }
    }
}

proof fn lemma_candidates_at_key(c: Seq<(Hash32, Vec<Address>)>, i: int)
    requires
        0 <= i < c.len(),
        forall|x: int, y: int| 0 <= x < y < c.len() ==> (#[trigger] c[x]).0 != (#[trigger] c[y]).0,
    ensures
        candidates_of(c, c[i].0) == c[i].1@,
{
    assert forall|j: int| 0 <= j <= i implies candidates_from(c, j, c[i].0) == c[i].1@ by {
        lemma_candidates_from_suffix(c, j, i);
    }
}

proof fn lemma_candidates_from_suffix(c: Seq<(Hash32, Vec<Address>)>, j: int, i: int)
    requires
        0 <= j <= i < c.len(),
        forall|x: int, y: int| 0 <= x < y < c.len() ==> (#[trigger] c[x]).0 != (#[trigger] c[y]).0,
    ensures
        candidates_from(c, j, c[i].0) == c[i].1@,
    decreases i - j,
{
    if j < i {
        lemma_candidates_from_suffix(c, j + 1, i);
    }
}

/// Whether `m` matches operators of `role` to the addresses of their
/// eligible nodes: each address to at most one operator, each operator to
/// at most one address, and no eligible node left with both its operator
/// and its address unmatched.
pub open spec fn role_matching(
    run: PublicTestnetRunEvidence,
    role: PublicNodeRole,
    taken_operators: Seq<Hash32>,
    taken_addresses: Seq<Address>,
    m: MatchedPublicOperators,
) -> bool {
    &&& m.wf()
    &&& forall|a: Address| #[trigger] owner_of(m.address_to_operator@, a) is Some ==> eligible_edge(
        run.nodes@, role, run.observed_blocks, taken_operators, taken_addresses, owner_of(m.address_to_operator@, a)->0, a)
    &&& forall|a: Address, b: Address| #[trigger] owner_of(m.address_to_operator@, a) is Some
        && #[trigger] owner_of(m.address_to_operator@, b) == owner_of(m.address_to_operator@, a) ==> a == b
    &&& forall|i: int| 0 <= i < run.nodes@.len()
        && eligible(#[trigger] run.nodes@[i], role, run.observed_blocks, taken_operators, taken_addresses)
        ==> m.operator_ids@.contains(run.nodes@[i].operator_id) || m.addresses@.contains(run.nodes@[i].address)
}

/// The candidate of a node.
pub open spec fn node_candidate(n: PublicNodeEvidence) -> PublicOperatorCandidate {
    PublicOperatorCandidate { role: n.role, operator_id: n.operator_id, address: n.address }
}

fn is_eligible(
    n: &PublicNodeEvidence,
    role: PublicNodeRole,
    observed_blocks: u64,
    taken_operators: &Vec<Hash32>,
    taken_addresses: &Vec<Address>,
) -> (out: bool)
    ensures
        out == eligible(*n, role, observed_blocks, taken_operators@, taken_addresses@),
{
    n.role == role && n.is_live_for_run(observed_blocks) && !set_contains(taken_operators, &n.operator_id)
        && !set_contains(taken_addresses, &n.address)
}

/// The candidate addresses of each operator among the eligible nodes: the
/// operators in sorted order, each with its addresses as a sorted set.
fn candidate_map(
    nodes: &Vec<PublicNodeEvidence>,
    role: PublicNodeRole,
    observed_blocks: u64,
    taken_operators: &Vec<Hash32>,
    taken_addresses: &Vec<Address>,
) -> (out: AddressesByOperator)
    ensures
        forall|x: int, y: int| 0 <= x < y < out@.len() ==> (#[trigger] out@[x]).0 != (#[trigger] out@[y]).0,
        forall|x: int| 0 <= x < out@.len() ==> strictly_sorted((#[trigger] out@[x]).1@),
        forall|x: int, a: Address| 0 <= x < out@.len() ==> (#[trigger] out@[x].1@.contains(a)
            <==> eligible_edge(nodes@, role, observed_blocks, taken_operators@, taken_addresses@, out@[x].0, a)),
        forall|i: int| 0 <= i < nodes@.len() && eligible(#[trigger] nodes@[i], role, observed_blocks, taken_operators@, taken_addresses@)
            ==> exists|x: int| 0 <= x < out@.len() && (#[trigger] out@[x]).0 == nodes@[i].operator_id,
{
    let ghost ns = nodes@;
    let mut keys: Vec<Hash32> = Vec::new();
    let mut i: usize = 0;
    while i < nodes.len()
        invariant
            ns == nodes@,
            i <= ns.len(),
            strictly_sorted(keys@),
            forall|o: Hash32| keys@.contains(o) <==> exists|t: int| 0 <= t < i
                && eligible(#[trigger] ns[t], role, observed_blocks, taken_operators@, taken_addresses@) && ns[t].operator_id == o,
        decreases ns.len() - i,
    {
        if is_eligible(&nodes[i], role, observed_blocks, taken_operators, taken_addresses) {
            let ghost before = keys@;
            set_insert(&mut keys, nodes[i].operator_id);
            proof {
                assert forall|o: Hash32| keys@.contains(o) <==> exists|t: int| 0 <= t < i + 1
                    && eligible(#[trigger] ns[t], role, observed_blocks, taken_operators@, taken_addresses@) && ns[t].operator_id == o by {
                    assert(keys@.to_set().contains(o) == before.to_set().insert(ns[i as int].operator_id).contains(o));
                }
            }
        }
        i += 1;
    }
    proof {
        lemma_sorted_no_duplicates(keys@);
    }
    let mut out: AddressesByOperator = Vec::new();
    let mut k: usize = 0;
    while k < keys.len()
        invariant
            ns == nodes@,
            k <= keys@.len(),
            keys@.no_duplicates(),
            forall|o: Hash32| keys@.contains(o) <==> exists|t: int| 0 <= t < ns.len()
                && eligible(#[trigger] ns[t], role, observed_blocks, taken_operators@, taken_addresses@) && ns[t].operator_id == o,
            out@.len() == k,
            forall|x: int| 0 <= x < k ==> (#[trigger] out@[x]).0 == keys@[x],
            forall|x: int| 0 <= x < k ==> strictly_sorted((#[trigger] out@[x]).1@),
            forall|x: int, a: Address| 0 <= x < k ==> (#[trigger] out@[x].1@.contains(a)
                <==> eligible_edge(ns, role, observed_blocks, taken_operators@, taken_addresses@, out@[x].0, a)),
        decreases keys@.len() - k,
    {
        let op = keys[k];
        let mut addrs: Vec<Address> = Vec::new();
        let mut j: usize = 0;
        while j < nodes.len()
            invariant
                ns == nodes@,
                j <= ns.len(),
                strictly_sorted(addrs@),
                forall|a: Address| addrs@.contains(a) <==> exists|t: int| 0 <= t < j
                    && eligible(#[trigger] ns[t], role, observed_blocks, taken_operators@, taken_addresses@)
                    && ns[t].operator_id == op && ns[t].address == a,
            decreases ns.len() - j,
        {
            if is_eligible(&nodes[j], role, observed_blocks, taken_operators, taken_addresses)
                && hash_eq(&nodes[j].operator_id, &op) {
                let ghost before = addrs@;
                proof {
                    assert(ns[j as int].operator_id =~= op);
                }
                set_insert(&mut addrs, nodes[j].address);
                proof {
                    assert forall|a: Address| addrs@.contains(a) <==> exists|t: int| 0 <= t < j + 1
                        && eligible(#[trigger] ns[t], role, observed_blocks, taken_operators@, taken_addresses@)
                        && ns[t].operator_id == op && ns[t].address == a by {
                        assert(addrs@.to_set().contains(a) == before.to_set().insert(ns[j as int].address).contains(a));
                    }
                }
            } else {
                proof {
                    if eligible(ns[j as int], role, observed_blocks, taken_operators@, taken_addresses@) && ns[j as int].operator_id == op {
                        assert(ns[j as int].operator_id@ == op@);
                    }
                }
            }
            j += 1;
        }
        out.push((op, addrs));
        k += 1;
    }
    proof {
        assert forall|x: int, y: int| 0 <= x < y < out@.len() implies (#[trigger] out@[x]).0 != (#[trigger] out@[y]).0 by {
            assert(keys@[x] != keys@[y]);
        }
        assert forall|i: int| 0 <= i < ns.len() && eligible(#[trigger] ns[i], role, observed_blocks, taken_operators@, taken_addresses@)
            implies exists|x: int| 0 <= x < out@.len() && (#[trigger] out@[x]).0 == ns[i].operator_id by {
            assert(keys@.contains(ns[i].operator_id));
            let x = choose|x: int| 0 <= x < keys@.len() && keys@[x] == ns[i].operator_id;
            assert(out@[x].0 == ns[i].operator_id);
        }
    }
    out
}

impl PublicTestnetRunEvidence {
    /// The live nodes as candidates, a sorted set.
    pub fn public_operator_candidates(&self) -> (out: Vec<PublicOperatorCandidate>)
        ensures
            strictly_sorted(out@),
            forall|c: PublicOperatorCandidate| out@.contains(c) <==> exists|i: int| 0 <= i < self.nodes@.len()
                && spec_live_for_run(#[trigger] self.nodes@[i], self.observed_blocks) && node_candidate(self.nodes@[i]) == c,
    {
        let ghost ns = self.nodes@;
        let mut out: Vec<PublicOperatorCandidate> = Vec::new();
        let mut i: usize = 0;
        while i < self.nodes.len()
            invariant
                ns == self.nodes@,
                i <= ns.len(),
                strictly_sorted(out@),
                forall|c: PublicOperatorCandidate| out@.contains(c) <==> exists|t: int| 0 <= t < i
                    && spec_live_for_run(#[trigger] ns[t], self.observed_blocks) && node_candidate(ns[t]) == c,
            decreases ns.len() - i,
        {
            let node = &self.nodes[i];
            if node.is_live_for_run(self.observed_blocks) {
                let c = PublicOperatorCandidate { role: node.role, operator_id: node.operator_id, address: node.address };
                let ghost before = out@;
                set_insert(&mut out, c);
                proof {
                    assert forall|x: PublicOperatorCandidate| out@.contains(x) <==> exists|t: int| 0 <= t < i + 1
                        && spec_live_for_run(#[trigger] ns[t], self.observed_blocks) && node_candidate(ns[t]) == x by {
                        assert(out@.to_set().contains(x) == before.to_set().insert(c).contains(x));
                        assert(node_candidate(ns[i as int]) == c);
                    }
                }
            }
            i += 1;
        }
        out
    }

    /// The operators of one role matched to distinct addresses of their
    /// live nodes, leaving out taken operators and addresses. Each address
    /// goes to at most one operator and each operator to at most one
    /// address; no eligible node has both its operator and its address
    /// left unmatched.
    pub fn matched_public_operators_for_role(
        &self,
        role: PublicNodeRole,
        forbidden_operator_ids: &Vec<Hash32>,
        forbidden_addresses: &Vec<Address>,
    ) -> (out: MatchedPublicOperators)
        ensures
            role_matching(*self, role, forbidden_operator_ids@, forbidden_addresses@, out),
    {
        let c = candidate_map(&self.nodes, role, self.observed_blocks, forbidden_operator_ids, forbidden_addresses);
        let ghost cv = c@;
        let mut m: Vec<(Address, Hash32)> = Vec::new();
        let mut i: usize = 0;
        while i < c.len()
            invariant
                cv == c@,
                i <= cv.len(),
                forall|x: int, y: int| 0 <= x < y < cv.len() ==> (#[trigger] cv[x]).0 != (#[trigger] cv[y]).0,
                is_matching(m@, cv),
                forall|t: int| 0 <= t < m@.len() ==> exists|u: int| 0 <= u < i && (#[trigger] cv[u]).0 == (#[trigger] m@[t]).1,
                forall|u: int, a: Address| 0 <= u < i && owned_count(m@, (#[trigger] cv[u]).0) == 0 && cv[u].1@.contains(a)
                    ==> (#[trigger] owner_of(m@, a)) is Some,
            decreases cv.len() - i,
        {
            let op = c[i].0;
            let ghost m0 = m@;
            proof {
                assert forall|t: int| 0 <= t < m0.len() && (#[trigger] m0[t]).1 == op implies Seq::<Address>::empty().contains(m0[t].0) by {
                    let u = choose|u: int| 0 <= u < i && (#[trigger] cv[u]).0 == m0[t].1;
                    assert(cv[u].0 != cv[i as int].0);
                }
                lemma_count_zero(m0, op);
                lemma_candidates_at_key(cv, i as int);
            }
            let mut seen: Vec<Address> = Vec::new();
            assert(seen@ =~= Seq::<Address>::empty());
            let matched = match_public_operator_address(op, &c, &mut m, &mut seen);
            proof {
                let m1 = m@;
                if matched {
                    assert forall|p: Hash32| #[trigger] owned_count(m1, p) <= 1 by {
                        assert(owned_count(m0, p) <= 1);
                    }
                    assert forall|t: int| 0 <= t < m1.len() implies exists|u: int| 0 <= u < i + 1 && (#[trigger] cv[u]).0 == (#[trigger] m1[t]).1 by {
                        let p = m1[t].1;
                        if p != op {
                            lemma_count_two(m1, p, t, t);
                            assert(owned_count(m0, p) >= 1);
                            lemma_count_zero(m0, p);
                            let w = choose|w: int| 0 <= w < m0.len() && (#[trigger] m0[w]).1 == p;
                            let u = choose|u: int| 0 <= u < i && (#[trigger] cv[u]).0 == (#[trigger] m0[w]).1;
                            assert(cv[u].0 == m1[t].1);
                        } else {
                            assert(cv[i as int].0 == m1[t].1);
                        }
                    }
                }
                assert forall|u: int, a: Address| 0 <= u < i + 1 && owned_count(m1, (#[trigger] cv[u]).0) == 0 && cv[u].1@.contains(a)
                    implies (#[trigger] owner_of(m1, a)) is Some by {
                    if u < i {
                        if matched {
                            assert(owned_count(m1, cv[u].0) == owned_count(m0, cv[u].0) + if cv[u].0 == op { 1nat } else { 0nat });
                        }
                        assert(owner_of(m0, a) is Some);
                    } else if !matched {
                        assert(seen@.contains(a));
                    } else {
                        assert(owned_count(m1, op) == owned_count(m0, op) + 1);
                    }
                }
            }
            i += 1;
        }
        let ghost mv = m@;
        let out = MatchedPublicOperators::from_address_matching(&m);
        proof {
            assert forall|a: Address| #[trigger] owner_of(out.address_to_operator@, a) is Some implies eligible_edge(
                self.nodes@, role, self.observed_blocks, forbidden_operator_ids@, forbidden_addresses@,
                owner_of(out.address_to_operator@, a)->0, a) by {
                lemma_owner_witness(mv, a);
                let t = choose|t: int| 0 <= t < mv.len() && (#[trigger] mv[t]).0 == a && mv[t].1 == owner_of(mv, a)->0;
                let o = mv[t].1;
                assert(candidates_of(cv, o).contains(a));
                lemma_candidates_from_entry(cv, 0, o);
                let x = choose|x: int| 0 <= x < cv.len() && cv[x].0 == o && candidates_of(cv, o) == (#[trigger] cv[x]).1@;
                assert(cv[x].1@.contains(a));
            }
            assert forall|a: Address, b: Address| #[trigger] owner_of(out.address_to_operator@, a) is Some
                && #[trigger] owner_of(out.address_to_operator@, b) == owner_of(out.address_to_operator@, a) implies a == b by {
                lemma_owner_witness(mv, a);
                lemma_owner_witness(mv, b);
                let t = choose|t: int| 0 <= t < mv.len() && (#[trigger] mv[t]).0 == a && mv[t].1 == owner_of(mv, a)->0;
                let w = choose|w: int| 0 <= w < mv.len() && (#[trigger] mv[w]).0 == b && mv[w].1 == owner_of(mv, b)->0;
                lemma_count_two(mv, mv[t].1, t, w);
                assert(owned_count(mv, mv[t].1) <= 1);
            }
            assert forall|i: int| 0 <= i < self.nodes@.len()
                && eligible(#[trigger] self.nodes@[i], role, self.observed_blocks, forbidden_operator_ids@, forbidden_addresses@)
                implies out.operator_ids@.contains(self.nodes@[i].operator_id) || out.addresses@.contains(self.nodes@[i].address) by {
                let n = self.nodes@[i];
                let x = choose|x: int| 0 <= x < cv.len() && (#[trigger] cv[x]).0 == n.operator_id;
                assert(eligible_edge(self.nodes@, role, self.observed_blocks, forbidden_operator_ids@, forbidden_addresses@, n.operator_id, n.address));
                assert(cv[x].1@.contains(n.address));
                if owned_count(mv, n.operator_id) == 0 {
                    assert(owner_of(mv, n.address) is Some);
                    assert(owner_of(out.address_to_operator@, n.address) is Some);
                    assert(out.addresses@.contains(n.address));
                } else {
                    lemma_count_zero(mv, n.operator_id);
                    let t = choose|t: int| 0 <= t < mv.len() && (#[trigger] mv[t]).1 == n.operator_id;
                    lemma_owner_index(mv, t);
                    assert(owner_of(out.address_to_operator@, mv[t].0) == Some(n.operator_id));
                    assert(out.operator_ids@.contains(n.operator_id));
                }
            }
        }
        out
    }
}

/// How many candidates of a list play `role`.
pub open spec fn count_role(s: Seq<PublicOperatorCandidate>, role: PublicNodeRole) -> nat
    decreases s.len(),
{
    if s.len() == 0 {
        0
    } else {
        (if s[0].role == role { 1nat } else { 0nat }) + count_role(s.drop_first(), role)
    }
}

/// Whether `x` is a candidate at position `index` or later.
pub open spec fn listed_from(cands: Seq<PublicOperatorCandidate>, index: int, x: PublicOperatorCandidate) -> bool {
    exists|j: int| index <= j < cands.len() && #[trigger] cands[j] == x
}

/// Whether `sel` meets quotas of `miners` miners and `validators`
/// validators from the candidates at `index` on: candidates taken in
/// order, with pairwise distinct operators and addresses, none of them
/// used already.
pub open spec fn quota_selection(
    sel: Seq<PublicOperatorCandidate>,
    cands: Seq<PublicOperatorCandidate>,
    index: int,
    miners: nat,
    validators: nat,
    used_operators: Seq<Hash32>,
    used_addresses: Seq<Address>,
) -> bool {
    &&& strictly_sorted(sel)
    &&& forall|k: int| 0 <= k < sel.len() ==> listed_from(cands, index, #[trigger] sel[k])
    &&& count_role(sel, PublicNodeRole::Miner) == miners
    &&& count_role(sel, PublicNodeRole::Validator) == validators
    &&& forall|k: int, l: int| 0 <= k < l < sel.len() ==> (#[trigger] sel[k]).operator_id != (#[trigger] sel[l]).operator_id
        && sel[k].address != sel[l].address
    &&& forall|k: int| 0 <= k < sel.len() ==> !used_operators.contains((#[trigger] sel[k]).operator_id)
        && !used_addresses.contains(sel[k].address)
}

proof fn lemma_sorted_position(cands: Seq<PublicOperatorCandidate>, p: int, q: int)
    requires
        strictly_sorted(cands),
        0 <= p < cands.len(),
        0 <= q < cands.len(),
        lex_lt(cands[p].order_key(), cands[q].order_key()),
    ensures
        p < q,
{
    if p == q {
        lemma_lex_irreflexive(cands[p].order_key());
    } else if q < p {
        lemma_lex_transitive(cands[p].order_key(), cands[q].order_key(), cands[p].order_key());
        lemma_lex_irreflexive(cands[p].order_key());
    }
}

/// The tail of a sorted selection that starts with the candidate at
/// `index` is listed from `index + 1`; a selection that does not start
/// there is listed from `index + 1` as a whole.
proof fn lemma_selection_shift(sel: Seq<PublicOperatorCandidate>, cands: Seq<PublicOperatorCandidate>, index: int)
    requires
        strictly_sorted(cands),
        strictly_sorted(sel),
        0 <= index < cands.len(),
        sel.len() > 0,
        forall|k: int| 0 <= k < sel.len() ==> listed_from(cands, index, #[trigger] sel[k]),
    ensures
        sel[0] == cands[index] ==> forall|k: int| 1 <= k < sel.len() ==> listed_from(cands, index + 1, #[trigger] sel[k]),
        sel[0] != cands[index] ==> forall|k: int| 0 <= k < sel.len() ==> listed_from(cands, index + 1, #[trigger] sel[k]),
{
    let j0 = choose|j: int| index <= j < cands.len() && #[trigger] cands[j] == sel[0];
    assert forall|k: int| 0 <= k < sel.len() && (k >= 1 || sel[0] != cands[index]) implies listed_from(cands, index + 1, #[trigger] sel[k]) by {
        assert(listed_from(cands, index, sel[k]));
        let j = choose|j: int| index <= j < cands.len() && #[trigger] cands[j] == sel[k];
        if j == index {
            if k == 0 {
                assert(false);
            } else {
                assert(lex_lt(sel[0].order_key(), sel[k].order_key()));
                lemma_sorted_position(cands, j0, j);
                assert(false);
            }
        }
        assert(cands[j] == sel[k]);
    }
}

proof fn lemma_count_role_bound(
    sel: Seq<PublicOperatorCandidate>,
    cands: Seq<PublicOperatorCandidate>,
    index: int,
    role: PublicNodeRole,
)
    requires
        strictly_sorted(cands),
        strictly_sorted(sel),
        0 <= index <= cands.len(),
        forall|k: int| 0 <= k < sel.len() ==> listed_from(cands, index, #[trigger] sel[k]),
    ensures
        count_role(sel, role) <= count_role(cands.skip(index), role),
    decreases cands.len() - index,
{
    if sel.len() == 0 {
        return;
    }
    if index == cands.len() {
        assert(listed_from(cands, index, sel[0]));
        return;
    }
    lemma_selection_shift(sel, cands, index);
    assert(cands.skip(index).drop_first() =~= cands.skip(index + 1));
    assert(cands.skip(index)[0] == cands[index]);
    if sel[0] == cands[index] {
        let t = sel.drop_first();
        assert forall|i: int, j: int| 0 <= i < j < t.len() implies lex_lt((#[trigger] t[i]).order_key(), (#[trigger] t[j]).order_key()) by {
            assert(t[i] == sel[i + 1] && t[j] == sel[j + 1]);
        }
        assert forall|k: int| 0 <= k < t.len() implies listed_from(cands, index + 1, #[trigger] t[k]) by {
            assert(t[k] == sel[k + 1]);
        }
        lemma_count_role_bound(t, cands, index + 1, role);
    } else {
        lemma_count_role_bound(sel, cands, index + 1, role);
    }
}

/// Whether a candidate of `role` still counts toward the quotas.
pub open spec fn role_needed(role: PublicNodeRole, miners: nat, validators: nat) -> bool {
    match role {
        PublicNodeRole::Miner => miners > 0,
        PublicNodeRole::Validator => validators > 0,
    }
}

/// The quotas left once a candidate of `role` is taken.
pub open spec fn next_needs(role: PublicNodeRole, miners: nat, validators: nat) -> (nat, nat) {
    match role {
        PublicNodeRole::Miner => (if miners > 0 { (miners - 1) as nat } else { 0 }, validators),
        PublicNodeRole::Validator => (miners, if validators > 0 { (validators - 1) as nat } else { 0 }),
    }
}

proof fn lemma_quota_pruned(
    cands: Seq<PublicOperatorCandidate>,
    index: int,
    miners: nat,
    validators: nat,
    uo: Seq<Hash32>,
    ua: Seq<Address>,
)
    requires
        strictly_sorted(cands),
        0 <= index,
        !(miners == 0 && validators == 0),
        index >= cands.len() || count_role(cands.skip(index), PublicNodeRole::Miner) < miners
            || count_role(cands.skip(index), PublicNodeRole::Validator) < validators,
    ensures
        !exists|sel: Seq<PublicOperatorCandidate>| quota_selection(sel, cands, index, miners, validators, uo, ua),
{
    assert forall|sel: Seq<PublicOperatorCandidate>| !quota_selection(sel, cands, index, miners, validators, uo, ua) by {
        if quota_selection(sel, cands, index, miners, validators, uo, ua) {
            if index >= cands.len() {
                if sel.len() == 0 {
                    assert(count_role(sel, PublicNodeRole::Miner) == 0);
                    assert(count_role(sel, PublicNodeRole::Validator) == 0);
                } else {
                    assert(listed_from(cands, index, sel[0]));
                }
            } else {
                lemma_count_role_bound(sel, cands, index, PublicNodeRole::Miner);
                lemma_count_role_bound(sel, cands, index, PublicNodeRole::Validator);
            }
        }
    }
}

proof fn lemma_prepend_selection(
    cands: Seq<PublicOperatorCandidate>,
    index: int,
    t: Seq<PublicOperatorCandidate>,
    miners: nat,
    validators: nat,
    uo: Seq<Hash32>,
    ua: Seq<Address>,
)
    requires
        strictly_sorted(cands),
        0 <= index < cands.len(),
        role_needed(cands[index].role, miners, validators),
        !uo.contains(cands[index].operator_id),
        !ua.contains(cands[index].address),
        quota_selection(t, cands, index + 1, next_needs(cands[index].role, miners, validators).0,
            next_needs(cands[index].role, miners, validators).1,
            uo.push(cands[index].operator_id), ua.push(cands[index].address)),
    ensures
        quota_selection(seq![cands[index]] + t, cands, index, miners, validators, uo, ua),
{
    let c = cands[index];
    let e = seq![c] + t;
    assert(e.drop_first() =~= t);
    assert(e[0] == c);
    assert forall|i: int, j: int| 0 <= i < j < e.len() implies lex_lt((#[trigger] e[i]).order_key(), (#[trigger] e[j]).order_key()) by {
        if i == 0 {
            assert(e[j] == t[j - 1]);
            assert(listed_from(cands, index + 1, t[j - 1]));
            let q = choose|q: int| index + 1 <= q < cands.len() && #[trigger] cands[q] == t[j - 1];
        } else {
            assert(e[i] == t[i - 1] && e[j] == t[j - 1]);
        }
    }
    assert forall|k: int| 0 <= k < e.len() implies listed_from(cands, index, #[trigger] e[k]) by {
        if k == 0 {
            assert(cands[index] == e[0]);
        } else {
            assert(e[k] == t[k - 1]);
            assert(listed_from(cands, index + 1, t[k - 1]));
            let q = choose|q: int| index + 1 <= q < cands.len() && #[trigger] cands[q] == t[k - 1];
            assert(cands[q] == e[k]);
        }
    }
    let uo1 = uo.push(c.operator_id);
    let ua1 = ua.push(c.address);
    assert forall|k: int, l: int| 0 <= k < l < e.len() implies (#[trigger] e[k]).operator_id != (#[trigger] e[l]).operator_id
        && e[k].address != e[l].address by {
        if k == 0 {
            assert(e[l] == t[l - 1]);
            assert(uo1[uo.len() as int] == c.operator_id);
            assert(ua1[ua.len() as int] == c.address);
        } else {
            assert(e[k] == t[k - 1] && e[l] == t[l - 1]);
        }
    }
    assert forall|k: int| 0 <= k < e.len() implies !uo.contains((#[trigger] e[k]).operator_id)
        && !ua.contains(e[k].address) by {
        if k > 0 {
            assert(e[k] == t[k - 1]);
            if uo.contains(e[k].operator_id) {
                let w = choose|w: int| 0 <= w < uo.len() && uo[w] == e[k].operator_id;
                assert(uo1[w] == uo[w]);
            }
            if ua.contains(e[k].address) {
                let w = choose|w: int| 0 <= w < ua.len() && ua[w] == e[k].address;
                assert(ua1[w] == ua[w]);
            }
        }
    }
    assert(count_role(e, PublicNodeRole::Miner) == (if c.role == PublicNodeRole::Miner { 1nat } else { 0nat })
        + count_role(t, PublicNodeRole::Miner));
    assert(count_role(e, PublicNodeRole::Validator) == (if c.role == PublicNodeRole::Validator { 1nat } else { 0nat })
        + count_role(t, PublicNodeRole::Validator));
}

proof fn lemma_widen_selection(
    cands: Seq<PublicOperatorCandidate>,
    index: int,
    e: Seq<PublicOperatorCandidate>,
    miners: nat,
    validators: nat,
    uo: Seq<Hash32>,
    ua: Seq<Address>,
)
    requires
        0 <= index,
        quota_selection(e, cands, index + 1, miners, validators, uo, ua),
    ensures
        quota_selection(e, cands, index, miners, validators, uo, ua),
{
    assert forall|k: int| 0 <= k < e.len() implies listed_from(cands, index, #[trigger] e[k]) by {
        assert(listed_from(cands, index + 1, e[k]));
        let q = choose|q: int| index + 1 <= q < cands.len() && #[trigger] cands[q] == e[k];
        assert(cands[q] == e[k]);
    }
}

proof fn lemma_no_selection(
    cands: Seq<PublicOperatorCandidate>,
    index: int,
    miners: nat,
    validators: nat,
    uo: Seq<Hash32>,
    ua: Seq<Address>,
)
    requires
        strictly_sorted(cands),
        0 <= index < cands.len(),
        !(miners == 0 && validators == 0),
        role_needed(cands[index].role, miners, validators) && !uo.contains(cands[index].operator_id)
            && !ua.contains(cands[index].address) ==> !exists|t: Seq<PublicOperatorCandidate>| #[trigger] quota_selection(
                t, cands, index + 1, next_needs(cands[index].role, miners, validators).0,
                next_needs(cands[index].role, miners, validators).1,
                uo.push(cands[index].operator_id), ua.push(cands[index].address)),
        !exists|t: Seq<PublicOperatorCandidate>| #[trigger] quota_selection(t, cands, index + 1, miners, validators, uo, ua),
    ensures
        !exists|sel: Seq<PublicOperatorCandidate>| quota_selection(sel, cands, index, miners, validators, uo, ua),
{
    let c = cands[index];
    let nn = next_needs(c.role, miners, validators);
    assert forall|sel: Seq<PublicOperatorCandidate>| !quota_selection(sel, cands, index, miners, validators, uo, ua) by {
        if quota_selection(sel, cands, index, miners, validators, uo, ua) {
            assert(sel.len() > 0) by {
                if sel.len() == 0 {
                    assert(count_role(sel, PublicNodeRole::Miner) == 0);
                    assert(count_role(sel, PublicNodeRole::Validator) == 0);
                }
            }
            lemma_selection_shift(sel, cands, index);
            if sel[0] == c {
                let t = sel.drop_first();
                assert(count_role(sel, PublicNodeRole::Miner) == (if c.role == PublicNodeRole::Miner { 1nat } else { 0nat })
                    + count_role(t, PublicNodeRole::Miner));
                assert(count_role(sel, PublicNodeRole::Validator) == (if c.role == PublicNodeRole::Validator { 1nat } else { 0nat })
                    + count_role(t, PublicNodeRole::Validator));
                assert(role_needed(c.role, miners, validators));
                assert(!uo.contains(sel[0].operator_id) && !ua.contains(sel[0].address));
                assert(quota_selection(t, cands, index + 1, nn.0, nn.1, uo.push(c.operator_id), ua.push(c.address))) by {
                    assert forall|i: int, j: int| 0 <= i < j < t.len() implies lex_lt((#[trigger] t[i]).order_key(), (#[trigger] t[j]).order_key()) by {
                        assert(t[i] == sel[i + 1] && t[j] == sel[j + 1]);
                    }
                    assert forall|k: int| 0 <= k < t.len() implies listed_from(cands, index + 1, #[trigger] t[k]) by {
                        assert(t[k] == sel[k + 1]);
                    }
                    assert forall|k: int, l: int| 0 <= k < l < t.len() implies (#[trigger] t[k]).operator_id != (#[trigger] t[l]).operator_id
                        && t[k].address != t[l].address by {
                        assert(t[k] == sel[k + 1] && t[l] == sel[l + 1]);
                    }
                    assert forall|k: int| 0 <= k < t.len() implies !uo.push(c.operator_id).contains((#[trigger] t[k]).operator_id)
                        && !ua.push(c.address).contains(t[k].address) by {
                        assert(t[k] == sel[k + 1]);
                        assert(sel[0].operator_id != sel[k + 1].operator_id);
                        assert(sel[0].address != sel[k + 1].address);
                        if uo.push(c.operator_id).contains(t[k].operator_id) {
                            let w = choose|w: int| 0 <= w < uo.len() + 1 && uo.push(c.operator_id)[w] == t[k].operator_id;
                            if w < uo.len() {
                                assert(uo[w] == t[k].operator_id);
                            }
                        }
                        if ua.push(c.address).contains(t[k].address) {
                            let w = choose|w: int| 0 <= w < ua.len() + 1 && ua.push(c.address)[w] == t[k].address;
                            if w < ua.len() {
                                assert(ua[w] == t[k].address);
                            }
                        }
                    }
                }
            } else {
                assert(quota_selection(sel, cands, index + 1, miners, validators, uo, ua));
            }
        }
    }
}

/// A search for candidates that meet role quotas with distinct operators
/// and addresses, trying each candidate before skipping it.
pub struct PublicOperatorQuotaSearch<'a> {
    pub candidates: &'a [PublicOperatorCandidate],
    pub suffix_miners: &'a [usize],
    pub suffix_validators: &'a [usize],
    pub used_operator_ids: Vec<Hash32>,
    pub used_addresses: Vec<Address>,
    pub selected: Vec<PublicOperatorCandidate>,
}

impl<'a> PublicOperatorQuotaSearch<'a> {
    /// The candidates are sorted, the suffix tables count each role from
    /// every position on, and the used sets are those of the selection.
    pub open spec fn wf(&self) -> bool {
        &&& strictly_sorted(self.candidates@)
        &&& self.suffix_miners@.len() == self.candidates@.len()
        &&& self.suffix_validators@.len() == self.candidates@.len()
        &&& forall|i: int| 0 <= i < self.candidates@.len()
            ==> #[trigger] self.suffix_miners@[i] == count_role(self.candidates@.skip(i), PublicNodeRole::Miner)
        &&& forall|i: int| 0 <= i < self.candidates@.len()
            ==> #[trigger] self.suffix_validators@[i] == count_role(self.candidates@.skip(i), PublicNodeRole::Validator)
        &&& self.used_operator_ids@ == self.selected@.map_values(|c: PublicOperatorCandidate| c.operator_id)
        &&& self.used_addresses@ == self.selected@.map_values(|c: PublicOperatorCandidate| c.address)
    }

    /// Extends the selection with candidates from `index` on until the
    /// quotas are met. `None` comes back exactly when no such extension
    /// exists, and then the search is as it was.
    #[verifier::spinoff_prover]
    pub fn find(&mut self, index: usize, miners_needed: usize, validators_needed: usize) -> (out: Option<Vec<PublicOperatorCandidate>>)
        requires
            old(self).wf(),
            index <= old(self).candidates@.len(),
        ensures
            final(self).candidates == old(self).candidates,
            final(self).suffix_miners == old(self).suffix_miners,
            final(self).suffix_validators == old(self).suffix_validators,
            out is None ==> final(self).selected@ == old(self).selected@
                && final(self).used_operator_ids@ == old(self).used_operator_ids@
                && final(self).used_addresses@ == old(self).used_addresses@,
            out is None <==> !exists|sel: Seq<PublicOperatorCandidate>| quota_selection(
                sel, old(self).candidates@, index as int, miners_needed as nat, validators_needed as nat,
                old(self).used_operator_ids@, old(self).used_addresses@),
            out matches Some(v) ==> v@.len() >= old(self).selected@.len()
                && v@.take(old(self).selected@.len() as int) == old(self).selected@
                && quota_selection(v@.skip(old(self).selected@.len() as int), old(self).candidates@, index as int,
                    miners_needed as nat, validators_needed as nat, old(self).used_operator_ids@, old(self).used_addresses@),
        decreases old(self).candidates@.len() - index,
    {
        let ghost cands = self.candidates@;
        let ghost s0 = self.selected@;
        let ghost uo = self.used_operator_ids@;
        let ghost ua = self.used_addresses@;
        if miners_needed == 0 && validators_needed == 0 {
            let v = vstd::slice::slice_to_vec(self.selected.as_slice());
            proof {
                let e = v@.skip(s0.len() as int);
                assert(e =~= Seq::<PublicOperatorCandidate>::empty());
                assert(v@.take(s0.len() as int) =~= s0);
                assert(quota_selection(e, cands, index as int, 0, 0, uo, ua));
            }
            return Some(v);
        }
        if index >= self.candidates.len() || self.suffix_miners[index] < miners_needed
            || self.suffix_validators[index] < validators_needed {
            proof {
                lemma_quota_pruned(cands, index as int, miners_needed as nat, validators_needed as nat, uo, ua);
            }
            return None;
        }
        let candidate = self.candidates[index];
        let candidate_needed = match candidate.role {
            PublicNodeRole::Miner => miners_needed > 0,
            PublicNodeRole::Validator => validators_needed > 0,
        };
        let unused = !set_contains(&self.used_operator_ids, &candidate.operator_id)
            && !set_contains(&self.used_addresses, &candidate.address);
        let (next_miners_needed, next_validators_needed) = match candidate.role {
            PublicNodeRole::Miner => (miners_needed.saturating_sub(1), validators_needed),
            PublicNodeRole::Validator => (miners_needed, validators_needed.saturating_sub(1)),
        };
        assert(candidate_needed == role_needed(candidate.role, miners_needed as nat, validators_needed as nat));
        assert((next_miners_needed as nat, next_validators_needed as nat)
            == next_needs(candidate.role, miners_needed as nat, validators_needed as nat));
        if candidate_needed && unused {
            self.used_operator_ids.push(candidate.operator_id);
            self.used_addresses.push(candidate.address);
            self.selected.push(candidate);
            proof {
                assert(self.used_operator_ids@ =~= self.selected@.map_values(|c: PublicOperatorCandidate| c.operator_id));
                assert(self.used_addresses@ =~= self.selected@.map_values(|c: PublicOperatorCandidate| c.address));
            }
            let ghost s1 = self.selected@;
            let found = self.find(index + 1, next_miners_needed, next_validators_needed);
            match found {
                Some(selection) => {
                    proof {
                        let v = selection@;
                        let t = v.skip(s1.len() as int);
                        let e = v.skip(s0.len() as int);
                        assert(v.take(s0.len() as int) =~= s1.take(s0.len() as int));
                        assert(s1.take(s0.len() as int) =~= s0);
                        assert(e =~= seq![candidate] + t) by {
                            assert(v[s0.len() as int] == s1[s0.len() as int]);
                        }
                        lemma_prepend_selection(cands, index as int, t, miners_needed as nat, validators_needed as nat, uo, ua);
                    }
                    return Some(selection);
                },
                None => {},
            }
            self.selected.pop();
            self.used_addresses.pop();
            self.used_operator_ids.pop();
            proof {
                assert(self.selected@ =~= s0);
                assert(self.used_addresses@ =~= ua);
                assert(self.used_operator_ids@ =~= uo);
            }
        }
        let rest = self.find(index + 1, miners_needed, validators_needed);
        proof {
            if rest is Some {
                let e = rest->0@.skip(s0.len() as int);
                lemma_widen_selection(cands, index as int, e, miners_needed as nat, validators_needed as nat, uo, ua);
            } else {
                lemma_no_selection(cands, index as int, miners_needed as nat, validators_needed as nat, uo, ua);
            }
        }
        rest
    }
}

/// Whether a candidate is that of a live node of the run.
pub open spec fn is_live_candidate(run: PublicTestnetRunEvidence, c: PublicOperatorCandidate) -> bool {
    exists|i: int| 0 <= i < run.nodes@.len() && spec_live_for_run(#[trigger] run.nodes@[i], run.observed_blocks)
        && node_candidate(run.nodes@[i]) == c
}

/// Whether `sel` is a set of live nodes of the run, listed in candidate
/// order, with `miners` miners and `validators` validators, no two with
/// one operator or one address.
pub open spec fn independent_selection(run: PublicTestnetRunEvidence, sel: Seq<PublicOperatorCandidate>, miners: nat, validators: nat) -> bool {
    &&& strictly_sorted(sel)
    &&& forall|k: int| 0 <= k < sel.len() ==> is_live_candidate(run, #[trigger] sel[k])
    &&& count_role(sel, PublicNodeRole::Miner) == miners
    &&& count_role(sel, PublicNodeRole::Validator) == validators
    &&& forall|k: int, l: int| 0 <= k < l < sel.len() ==> (#[trigger] sel[k]).operator_id != (#[trigger] sel[l]).operator_id
        && sel[k].address != sel[l].address
}

proof fn lemma_count_role_len(s: Seq<PublicOperatorCandidate>, role: PublicNodeRole)
    ensures
        count_role(s, role) <= s.len(),
    decreases s.len(),
{
    if s.len() > 0 {
        lemma_count_role_len(s.drop_first(), role);
    }
}

proof fn lemma_count_role_last(s: Seq<PublicOperatorCandidate>, role: PublicNodeRole)
    requires
        s.len() > 0,
    ensures
        count_role(s, role) == count_role(s.drop_last(), role) + if s.last().role == role { 1nat } else { 0nat },
    decreases s.len(),
{
    if s.len() > 1 {
        lemma_count_role_last(s.drop_first(), role);
        assert(s.drop_first().drop_last() =~= s.drop_last().drop_first());
        assert(s.drop_last()[0] == s[0]);
    } else {
        assert(s.drop_last() =~= Seq::<PublicOperatorCandidate>::empty());
        assert(s.drop_first() =~= Seq::<PublicOperatorCandidate>::empty());
    }
}

/// The operators of the candidates of one role, in order.
pub open spec fn role_operators(s: Seq<PublicOperatorCandidate>, role: PublicNodeRole) -> Seq<Hash32> {
    role_pairs(s, role).map_values(|p: (Address, Hash32)| p.1)
}

proof fn lemma_role_pairs_from(s: Seq<PublicOperatorCandidate>, role: PublicNodeRole)
    ensures
        role_pairs(s, role).len() == count_role(s, role),
        forall|t: int| 0 <= t < role_pairs(s, role).len() ==> exists|k: int| 0 <= k < s.len()
            && (#[trigger] role_pairs(s, role)[t]) == (s[k].address, s[k].operator_id) && s[k].role == role,
        forall|t: int, u: int| 0 <= t < u < role_pairs(s, role).len() ==> exists|k: int, l: int| 0 <= k < l < s.len()
            && (#[trigger] role_pairs(s, role)[t]) == (s[k].address, s[k].operator_id)
            && (#[trigger] role_pairs(s, role)[u]) == (s[l].address, s[l].operator_id),
    decreases s.len(),
{
    if s.len() > 0 {
        let d = s.drop_last();
        lemma_role_pairs_from(d, role);
        lemma_count_role_last(s, role);
        let r = role_pairs(s, role);
        let rd = role_pairs(d, role);
        assert forall|t: int| 0 <= t < r.len() implies exists|k: int| 0 <= k < s.len()
            && (#[trigger] r[t]) == (s[k].address, s[k].operator_id) && s[k].role == role by {
            if t < rd.len() {
                assert(r[t] == rd[t]);
                let k = choose|k: int| 0 <= k < d.len() && (#[trigger] rd[t]) == (d[k].address, d[k].operator_id) && d[k].role == role;
                assert(s[k] == d[k]);
            } else {
                assert(s[s.len() - 1] == s.last());
            }
        }
        assert forall|t: int, u: int| 0 <= t < u < r.len() implies exists|k: int, l: int| 0 <= k < l < s.len()
            && (#[trigger] r[t]) == (s[k].address, s[k].operator_id)
            && (#[trigger] r[u]) == (s[l].address, s[l].operator_id) by {
            if u < rd.len() {
                assert(r[t] == rd[t] && r[u] == rd[u]);
                let (k, l) = choose|k: int, l: int| 0 <= k < l < d.len()
                    && (#[trigger] rd[t]) == (d[k].address, d[k].operator_id)
                    && (#[trigger] rd[u]) == (d[l].address, d[l].operator_id);
                assert(s[k] == d[k] && s[l] == d[l]);
            } else {
                assert(r[t] == rd[t]);
                let k = choose|k: int| 0 <= k < d.len() && (#[trigger] rd[t]) == (d[k].address, d[k].operator_id) && d[k].role == role;
                assert(s[k] == d[k]);
                assert(s[s.len() - 1] == s.last());
                assert(r[u] == (s[s.len() - 1].address, s[s.len() - 1].operator_id));
            }
        }
    }
}

/// The matched operators of a selection's role number its quota.
proof fn lemma_selection_operator_count(sel: Seq<PublicOperatorCandidate>, role: PublicNodeRole, m: MatchedPublicOperators)
    requires
        m.wf(),
        forall|k: int, l: int| 0 <= k < l < sel.len() ==> (#[trigger] sel[k]).operator_id != (#[trigger] sel[l]).operator_id
            && sel[k].address != sel[l].address,
        forall|a: Address| #[trigger] owner_of(m.address_to_operator@, a) == owner_of(role_pairs(sel, role), a),
    ensures
        m.operator_ids@.len() == count_role(sel, role),
{
    let r = role_pairs(sel, role);
    lemma_role_pairs_from(sel, role);
    let ops = role_operators(sel, role);
    assert(ops.no_duplicates()) by {
        assert forall|t: int, u: int| 0 <= t < ops.len() && 0 <= u < ops.len() && t != u implies ops[t] != ops[u] by {
            if t < u {
                let (k, l) = choose|k: int, l: int| 0 <= k < l < sel.len()
                    && (#[trigger] r[t]) == (sel[k].address, sel[k].operator_id)
                    && (#[trigger] r[u]) == (sel[l].address, sel[l].operator_id);
            } else {
                let (k, l) = choose|k: int, l: int| 0 <= k < l < sel.len()
                    && (#[trigger] r[u]) == (sel[k].address, sel[k].operator_id)
                    && (#[trigger] r[t]) == (sel[l].address, sel[l].operator_id);
            }
        }
    }
    assert(keys_unique(r)) by {
        assert forall|t: int, u: int| 0 <= t < u < r.len() implies (#[trigger] r[t]).0 != (#[trigger] r[u]).0 by {
            let (k, l) = choose|k: int, l: int| 0 <= k < l < sel.len()
                && (#[trigger] r[t]) == (sel[k].address, sel[k].operator_id)
                && (#[trigger] r[u]) == (sel[l].address, sel[l].operator_id);
        }
    }
    assert(m.operator_ids@.to_set() =~= ops.to_set()) by {
        assert forall|o: Hash32| m.operator_ids@.contains(o) <==> ops.contains(o) by {
            if m.operator_ids@.contains(o) {
                let a = choose|a: Address| #[trigger] owner_of(m.address_to_operator@, a) == Some(o);
                lemma_owner_witness(r, a);
                let t = choose|t: int| 0 <= t < r.len() && (#[trigger] r[t]).0 == a && r[t].1 == owner_of(r, a)->0;
                assert(ops[t] == o);
            }
            if ops.contains(o) {
                let t = choose|t: int| 0 <= t < ops.len() && ops[t] == o;
                lemma_owner_index(r, t);
                assert(owner_of(m.address_to_operator@, r[t].0) == Some(o));
            }
        }
    }
    lemma_sorted_no_duplicates(m.operator_ids@);
    m.operator_ids@.unique_seq_to_set();
    ops.unique_seq_to_set();
}

fn empty_matching() -> (out: MatchedPublicOperators)
    ensures
        out.wf(),
        out.operator_ids@.len() == 0,
        out.addresses@.len() == 0,
        out.address_to_operator@.len() == 0,
{
    let out = MatchedPublicOperators::from_address_matching(&Vec::new());
    proof {
        lemma_sorted_by_address_unique(out.address_to_operator@);
        if out.address_to_operator@.len() > 0 {
            let a = out.address_to_operator@[0].0;
            lemma_owner_index(out.address_to_operator@, 0);
            assert(owner_of(out.address_to_operator@, a) is Some);
            assert(owner_of(Seq::<(Address, Hash32)>::empty(), a) is None);
        }
        if out.addresses@.len() > 0 {
            let a = out.addresses@[0];
            assert(out.addresses@.contains(a));
            assert(owner_of(out.address_to_operator@, a) is Some);
            assert(owner_of(Seq::<(Address, Hash32)>::empty(), a) is None);
        }
        assert forall|o: Hash32| !out.operator_ids@.contains(o) by {
            if out.operator_ids@.contains(o) {
                let a = choose|a: Address| #[trigger] owner_of(out.address_to_operator@, a) == Some(o);
            }
        }
        if out.operator_ids@.len() > 0 {
            assert(out.operator_ids@.contains(out.operator_ids@[0]));
        }
    }
    out
}

impl PublicTestnetRunEvidence {
    /// Live operators that meet the criteria's quotas found by exhaustive
    /// search: `None` exactly when no independent selection of live nodes
    /// has `min_miners` miners and `min_validators` validators; otherwise
    /// the matchings of such a selection.
    pub fn find_public_operator_quota_matching(&self, criteria: &PublicTestnetCriteria)
        -> (out: Option<(MatchedPublicOperators, MatchedPublicOperators)>)
        ensures
            out is Some <==> exists|sel: Seq<PublicOperatorCandidate>|
                independent_selection(*self, sel, criteria.min_miners as nat, criteria.min_validators as nat),
            out matches Some((m, v)) ==> m.wf() && v.wf()
                && m.operator_ids@.len() == criteria.min_miners
                && v.operator_ids@.len() == criteria.min_validators,
    {
        let candidates = self.public_operator_candidates();
        let ghost cands = candidates@;
        let miner_quota = criteria.min_miners;
        let validator_quota = criteria.min_validators;
        if miner_quota == 0 && validator_quota == 0 {
            proof {
                assert(independent_selection(*self, Seq::<PublicOperatorCandidate>::empty(), 0, 0));
            }
            return Some((empty_matching(), empty_matching()));
        }
        let n = candidates.len();
        let mut suffix_miners: Vec<usize> = Vec::new();
        let mut suffix_validators: Vec<usize> = Vec::new();
        let mut z: usize = 0;
        while z < n
            invariant
                z <= n,
                suffix_miners@.len() == z,
                suffix_validators@.len() == z,
            decreases n - z,
        {
            suffix_miners.push(0);
            suffix_validators.push(0);
            z += 1;
        }
        let mut index: usize = n;
        while index > 0
            invariant
                cands == candidates@,
                n == cands.len(),
                index <= n,
                suffix_miners@.len() == n,
                suffix_validators@.len() == n,
                forall|j: int| index <= j < n ==> #[trigger] suffix_miners@[j] == count_role(cands.skip(j), PublicNodeRole::Miner),
                forall|j: int| index <= j < n ==> #[trigger] suffix_validators@[j] == count_role(cands.skip(j), PublicNodeRole::Validator),
            decreases index,
        {
            let i = index - 1;
            proof {
                assert(cands.skip(i as int).drop_first() =~= cands.skip(i + 1));
                assert(cands.skip(i as int)[0] == cands[i as int]);
                lemma_count_role_len(cands.skip(i + 1), PublicNodeRole::Miner);
                lemma_count_role_len(cands.skip(i + 1), PublicNodeRole::Validator);
                if i + 1 == n {
                    assert(cands.skip(i + 1) =~= Seq::<PublicOperatorCandidate>::empty());
                }
            }
            let next_miners: usize = if i + 1 < n { suffix_miners[i + 1] } else { 0 };
            let next_validators: usize = if i + 1 < n { suffix_validators[i + 1] } else { 0 };
            let is_miner: usize = match candidates[i].role { PublicNodeRole::Miner => 1, PublicNodeRole::Validator => 0 };
            suffix_miners[i] = next_miners + is_miner;
            suffix_validators[i] = next_validators + (1 - is_miner);
            index = i;
        }
        let mut search = PublicOperatorQuotaSearch {
            candidates: candidates.as_slice(),
            suffix_miners: suffix_miners.as_slice(),
            suffix_validators: suffix_validators.as_slice(),
            used_operator_ids: Vec::new(),
            used_addresses: Vec::new(),
            selected: Vec::new(),
        };
        proof {
            assert(search.used_operator_ids@ =~= search.selected@.map_values(|c: PublicOperatorCandidate| c.operator_id));
            assert(search.used_addresses@ =~= search.selected@.map_values(|c: PublicOperatorCandidate| c.address));
        }
        let found = search.find(0, miner_quota, validator_quota);
        proof {
            let uo = Seq::<Hash32>::empty();
            let ua = Seq::<Address>::empty();
            assert forall|sel: Seq<PublicOperatorCandidate>|
                independent_selection(*self, sel, miner_quota as nat, validator_quota as nat)
                <==> quota_selection(sel, cands, 0, miner_quota as nat, validator_quota as nat, uo, ua) by {
                if independent_selection(*self, sel, miner_quota as nat, validator_quota as nat) {
                    assert forall|k: int| 0 <= k < sel.len() implies listed_from(cands, 0, #[trigger] sel[k]) by {
                        assert(is_live_candidate(*self, sel[k]));
                        assert(cands.contains(sel[k]));
                        let j = choose|j: int| 0 <= j < cands.len() && cands[j] == sel[k];
                        assert(cands[j] == sel[k]);
                    }
                }
                if quota_selection(sel, cands, 0, miner_quota as nat, validator_quota as nat, uo, ua) {
                    assert forall|k: int| 0 <= k < sel.len() implies is_live_candidate(*self, #[trigger] sel[k]) by {
                        assert(listed_from(cands, 0, sel[k]));
                        let j = choose|j: int| 0 <= j < cands.len() && #[trigger] cands[j] == sel[k];
                        assert(cands.contains(sel[k]));
                    }
                }
            }
        }
        match found {
            Some(selected) => {
                let ghost sel = selected@;
                let miners = MatchedPublicOperators::from_candidates(PublicNodeRole::Miner, selected.as_slice());
                let validators = MatchedPublicOperators::from_candidates(PublicNodeRole::Validator, selected.as_slice());
                proof {
                    assert(sel.skip(0) =~= sel);
                    assert(independent_selection(*self, sel, miner_quota as nat, validator_quota as nat));
                    lemma_selection_operator_count(sel, PublicNodeRole::Miner, miners);
                    lemma_selection_operator_count(sel, PublicNodeRole::Validator, validators);
                }
                Some((miners, validators))
            },
            None => None,
        }
    }
}

/// The role other than `role`.
pub open spec fn other_role(role: PublicNodeRole) -> PublicNodeRole {
    match role {
        PublicNodeRole::Miner => PublicNodeRole::Validator,
        PublicNodeRole::Validator => PublicNodeRole::Miner,
    }
}

/// Whether `(miners, validators)` is what matching `first_role` first
/// gives: that role matched among all live nodes, then the other role
/// among nodes whose operator and address the first left free.
pub open spec fn greedy_pair(
    run: PublicTestnetRunEvidence,
    first_role: PublicNodeRole,
    miners: MatchedPublicOperators,
    validators: MatchedPublicOperators,
) -> bool {
    let first = if first_role == PublicNodeRole::Miner { miners } else { validators };
    let second = if first_role == PublicNodeRole::Miner { validators } else { miners };
    &&& role_matching(run, first_role, Seq::empty(), Seq::empty(), first)
    &&& role_matching(run, other_role(first_role), first.operator_ids@, first.addresses@, second)
}

/// Whether matchings meet the criteria's operator quotas.
pub open spec fn satisfies_criteria(c: PublicTestnetCriteria, miners: MatchedPublicOperators, validators: MatchedPublicOperators) -> bool {
    miners.operator_ids@.len() >= c.min_miners && validators.operator_ids@.len() >= c.min_validators
}

/// How matchings rank: criteria met, then quota places filled, then
/// operators matched in all, then miners, then validators.
pub open spec fn matching_score(c: PublicTestnetCriteria, miners: MatchedPublicOperators, validators: MatchedPublicOperators)
    -> (bool, int, int, int, int) {
    let m = miners.operator_ids@.len() as int;
    let v = validators.operator_ids@.len() as int;
    (
        satisfies_criteria(c, miners, validators),
        (if m < c.min_miners { m } else { c.min_miners as int }) + (if v < c.min_validators { v } else { c.min_validators as int }),
        m + v,
        m,
        v,
    )
}

/// Lexicographic "greater than" on scores, `false` below `true`.
pub open spec fn score_greater(a: (bool, int, int, int, int), b: (bool, int, int, int, int)) -> bool {
    if a.0 != b.0 {
        a.0
    } else if a.1 != b.1 {
        a.1 > b.1
    } else if a.2 != b.2 {
        a.2 > b.2
    } else if a.3 != b.3 {
        a.3 > b.3
    } else {
        a.4 > b.4
    }
}

/// Whether matchings meet the criteria's operator quotas.
pub fn public_operator_matching_satisfies_criteria(
    criteria: &PublicTestnetCriteria,
    operators: &(MatchedPublicOperators, MatchedPublicOperators),
) -> (out: bool)
    ensures
        out == satisfies_criteria(*criteria, operators.0, operators.1),
{
    operators.0.operator_ids.len() >= criteria.min_miners && operators.1.operator_ids.len() >= criteria.min_validators
}

/// The score of a pair of matchings; the sums are kept wide.
pub fn public_operator_matching_score(
    criteria: &PublicTestnetCriteria,
    operators: &(MatchedPublicOperators, MatchedPublicOperators),
) -> (out: (bool, u128, u128, usize, usize))
    ensures
        (out.0, out.1 as int, out.2 as int, out.3 as int, out.4 as int) == matching_score(*criteria, operators.0, operators.1),
{
    let miner_count = operators.0.operator_ids.len();
    let validator_count = operators.1.operator_ids.len();
    let m_part: usize = if miner_count < criteria.min_miners { miner_count } else { criteria.min_miners };
    let v_part: usize = if validator_count < criteria.min_validators { validator_count } else { criteria.min_validators };
    (
        public_operator_matching_satisfies_criteria(criteria, operators),
        m_part as u128 + v_part as u128,
        miner_count as u128 + validator_count as u128,
        miner_count,
        validator_count,
    )
}

fn score_is_greater(a: &(bool, u128, u128, usize, usize), b: &(bool, u128, u128, usize, usize)) -> (out: bool)
    ensures
        out == score_greater((a.0, a.1 as int, a.2 as int, a.3 as int, a.4 as int), (b.0, b.1 as int, b.2 as int, b.3 as int, b.4 as int)),
{
    if a.0 != b.0 {
        a.0
    } else if a.1 != b.1 {
        a.1 > b.1
    } else if a.2 != b.2 {
        a.2 > b.2
    } else if a.3 != b.3 {
        a.3 > b.3
    } else {
        a.4 > b.4
    }
}

impl PublicTestnetRunEvidence {
    /// Matches `first_role` first, then the other role among the nodes
    /// whose operator and address are still free; returns the miner and
    /// the validator matchings.
    pub fn matched_independent_public_operators_starting_with(&self, first_role: PublicNodeRole)
        -> (out: (MatchedPublicOperators, MatchedPublicOperators))
        ensures
            greedy_pair(*self, first_role, out.0, out.1),
    {
        let none_ops: Vec<Hash32> = Vec::new();
        let none_addrs: Vec<Address> = Vec::new();
        let first_operators = self.matched_public_operators_for_role(first_role, &none_ops, &none_addrs);
        let second_role = match first_role {
            PublicNodeRole::Miner => PublicNodeRole::Validator,
            PublicNodeRole::Validator => PublicNodeRole::Miner,
        };
        let second_operators = self.matched_public_operators_for_role(
            second_role,
            &first_operators.operator_ids,
            &first_operators.addresses,
        );
        proof {
            assert(none_ops@ =~= Seq::<Hash32>::empty());
            assert(none_addrs@ =~= Seq::<Address>::empty());
        }
        match first_role {
            PublicNodeRole::Miner => (first_operators, second_operators),
            PublicNodeRole::Validator => (second_operators, first_operators),
        }
    }

    /// The operators counted for the criteria: the better of the two greedy
    /// orders if it meets them, else a quota matching found by search if
    /// one exists, else that greedy result. Whenever live nodes hold an
    /// independent selection that meets the quotas, the result meets the
    /// criteria; a result that misses them is a greedy pair.
    pub fn matched_independent_public_operators_for_criteria(&self, criteria: &PublicTestnetCriteria)
        -> (out: (MatchedPublicOperators, MatchedPublicOperators))
        ensures
            out.0.wf() && out.1.wf(),
            (exists|sel: Seq<PublicOperatorCandidate>|
                independent_selection(*self, sel, criteria.min_miners as nat, criteria.min_validators as nat))
                ==> satisfies_criteria(*criteria, out.0, out.1),
            satisfies_criteria(*criteria, out.0, out.1)
                || greedy_pair(*self, PublicNodeRole::Miner, out.0, out.1)
                || greedy_pair(*self, PublicNodeRole::Validator, out.0, out.1),
    {
        let miner_first = self.matched_independent_public_operators_starting_with(PublicNodeRole::Miner);
        let validator_first = self.matched_independent_public_operators_starting_with(PublicNodeRole::Validator);
        let miner_first_score = public_operator_matching_score(criteria, &miner_first);
        let validator_first_score = public_operator_matching_score(criteria, &validator_first);
        let best_greedy = if score_is_greater(&validator_first_score, &miner_first_score) {
            validator_first
        } else {
            miner_first
        };
        if public_operator_matching_satisfies_criteria(criteria, &best_greedy) {
            return best_greedy;
        }
        match self.find_public_operator_quota_matching(criteria) {
            Some(found) => found,
            None => best_greedy,
        }
    }
}

} // verus!
