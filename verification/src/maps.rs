//! Helpers over address-keyed maps.
use std::collections::BTreeMap;
use vstd::prelude::*;
use vstd::std_specs::iter::IteratorSpec;

verus! {

broadcast use {vstd::std_specs::btree::group_btree_axioms, vstd::laws_cmp::group_laws_cmp};

/// The keys of an address-keyed map, in increasing order.
pub fn sorted_keys<V>(m: &BTreeMap<u16, V>) -> (r: Vec<u16>)
    ensures
        r@.to_set() == m@.dom(),
        r@.no_duplicates(),
        forall|i: int, j: int| 0 <= i < j < r@.len() ==> r@[i] < r@[j],
{
    let ghost s = vstd::std_specs::btree::spec_keys_iter(m).remaining();
    proof {
        vstd::std_specs::btree::axiom_spec_keys_iter(m);
    }
    let mut r: Vec<u16> = Vec::new();
    for k in it: m.keys()
        invariant
            it.seq() == s,
            r@ == s.take(it.index()).map_values(|k: &u16| *k),
    {
        r.push(*k);
    }
    assert(r@ =~= s.map_values(|k: &u16| *k));
    assert(r@ =~= s.unref());
    proof {
        assert(vstd::laws_cmp::obeys_cmp::<&u16>());
        vstd::std_specs::btree::axiom_increasing_seq_meaning::<&u16>(s);
    }
    assert forall|i: int, j: int| 0 <= i < j < r@.len() implies r@[i] < r@[j] by {
        assert(vstd::std_specs::cmp::OrdSpec::cmp_spec(&s[i], &s[j]) is Less);
    }
    r
}

} // verus!
