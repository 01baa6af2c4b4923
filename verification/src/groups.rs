//! Which system servers a user group is given: the change from the
//! group's current servers to the requested ones.
use vstd::prelude::*;

verus! {

/// Whether `x` is in `v`.
pub fn contains_id(v: &Vec<u128>, x: u128) -> (r: bool)
    ensures
        r == v@.contains(x),
{
    let mut i: usize = 0;
    while i < v.len()
        invariant
            i <= v@.len(),
            forall|j: int| 0 <= j < i ==> v@[j] != x,
        decreases v@.len() - i,
    {
        if v[i] == x {
            assert(v@[i as int] == x);
            return true;
        }
        i = i + 1;
    }
    false
}

/// The ids of `from` that are not in `minus`, each once, in first-seen
/// order.
fn missing_from(from: &Vec<u128>, minus: &Vec<u128>) -> (r: Vec<u128>)
    ensures
        r@.to_set() == from@.to_set().difference(minus@.to_set()),
        r@.no_duplicates(),
{
    let mut out: Vec<u128> = Vec::new();
    let mut i: usize = 0;
    while i < from.len()
        invariant
            i <= from@.len(),
            out@.to_set() == from@.take(i as int).to_set().difference(minus@.to_set()),
            out@.no_duplicates(),
        decreases from@.len() - i,
    {
        let x = from[i];
        assert(from@.take(i + 1) =~= from@.take(i as int).push(x));
        if !contains_id(minus, x) && !contains_id(&out, x) {
            proof {
                out@.lemma_push_to_set_commute(x);
                from@.take(i as int).lemma_push_to_set_commute(x);
            }
            out.push(x);
            proof {
                assert(out@.to_set() =~= from@.take(i + 1).to_set().difference(minus@.to_set()));
            }
        } else {
            proof {
                from@.take(i as int).lemma_push_to_set_commute(x);
                if !minus@.contains(x) {
                    assert(out@.contains(x));
                    assert(out@.to_set().contains(x));
                }
                assert(out@.to_set() =~= from@.take(i + 1).to_set().difference(minus@.to_set()));
            }
        }
        i = i + 1;
    }
    assert(from@.take(i as int) =~= from@);
    out
}

/// The change that gives a group exactly the `requested` servers: the
/// servers to assign (requested, not current) and to remove (current, not
/// requested), each without repeats.
pub fn membership_diff(current: &Vec<u128>, requested: &Vec<u128>) -> (r: (Vec<u128>, Vec<u128>))
    ensures
        r.0@.to_set() == requested@.to_set().difference(current@.to_set()),
        r.1@.to_set() == current@.to_set().difference(requested@.to_set()),
        r.0@.no_duplicates(),
        r.1@.no_duplicates(),
{
    (missing_from(requested, current), missing_from(current, requested))
}

/// The servers whose access changes: those assigned and those removed,
/// each once.
pub fn affected_servers(to_add: &Vec<u128>, to_remove: &Vec<u128>) -> (r: Vec<u128>)
    ensures
        r@.to_set() == to_add@.to_set().union(to_remove@.to_set()),
        r@.no_duplicates(),
{
    let none: Vec<u128> = Vec::new();
    let a = missing_from(to_add, &none);
    let b = missing_from(to_remove, to_add);
    let mut out = a;
    let mut i: usize = 0;
    let ghost a_set = out@.to_set();
    proof {
        assert(none@.to_set() =~= Set::<u128>::empty());
        assert(b@.take(0) =~= Seq::<u128>::empty());
        assert(b@.take(0).to_set() =~= Set::<u128>::empty());
        assert(a_set.union(Set::<u128>::empty()) =~= a_set);
        assert forall|j: int| 0 <= j < b@.len() implies !a_set.contains(#[trigger] b@[j]) by {
            assert(b@.contains(b@[j]));
            assert(b@.to_set().contains(b@[j]));
        }
    }
    while i < b.len()
        invariant
            i <= b@.len(),
            out@.to_set() == a_set.union(b@.take(i as int).to_set()),
            out@.no_duplicates(),
            a_set == to_add@.to_set(),
            b@.to_set() == to_remove@.to_set().difference(to_add@.to_set()),
            b@.no_duplicates(),
            forall|j: int| 0 <= j < b@.len() ==> !a_set.contains(#[trigger] b@[j]),
        decreases b@.len() - i,
    {
        let x = b[i];
        proof {
            assert(b@.to_set().contains(b@[i as int]));
            assert(b@.take(i + 1) =~= b@.take(i as int).push(x));
            b@.take(i as int).lemma_push_to_set_commute(x);
            out@.lemma_push_to_set_commute(x);
            if out@.contains(x) {
                assert(out@.to_set().contains(x));
                let k = choose|k: int| 0 <= k < i && b@[k] == x;
                assert(b@.take(i as int).to_set().contains(x));
                let k2 = choose|k2: int| 0 <= k2 < b@.take(i as int).len() && b@.take(i as int)[k2] == x;
                assert(b@[k2] == b@[i as int]);
            }
        }
        out.push(x);
        i = i + 1;
    }
    proof {
        assert(b@.take(i as int) =~= b@);
        assert(a_set.union(b@.to_set()) =~= to_add@.to_set().union(to_remove@.to_set()));
    }
    out
}

/// Assigning the servers to add and removing those to remove leaves the
/// group with exactly the requested servers.
pub proof fn law_diff_reaches_request(current: Set<u128>, requested: Set<u128>)
    ensures
        current.union(requested.difference(current)).difference(current.difference(requested))
            == requested,
{
    assert(current.union(requested.difference(current)).difference(current.difference(requested))
        =~= requested);
}

} // verus!
