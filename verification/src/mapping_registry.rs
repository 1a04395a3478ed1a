//! The registry that maps MIR datasource keys to the MQL names (field paths
//! or `$$` variables) that hold their values.

use vstd::prelude::*;
use crate::binding_tuple::{
    as_map, lemma_as_map_prepend, lemma_sorted_skip, sorted_keys, BindingTuple, Key, KeyView,
    lookup,
};

verus! {

/// Whether an MQL name is a field reference or a `$$` variable.
#[derive(Debug, Clone, Copy, PartialEq, Eq, Structural)]
pub enum MqlReferenceType {
    FieldRef,
    Variable,
}

/// The MQL name that holds a datasource, and what kind of name it is.
#[derive(Debug, Clone, PartialEq)]
pub struct MqlMappingRegistryValue {
    pub name: String,
    pub ref_type: MqlReferenceType,
}

impl MqlMappingRegistryValue {
    pub fn new(name: String, ref_type: MqlReferenceType) -> (r: MqlMappingRegistryValue)
        ensures
            r.name == name,
            r.ref_type == ref_type,
    {
        MqlMappingRegistryValue { name, ref_type }
    }
}

/// Some entry in `scope` maps to the name `name`.
pub open spec fn spec_contains_mapping(
    entries: Seq<(Key, MqlMappingRegistryValue)>,
    scope: u16,
    name: Seq<char>,
) -> bool {
    exists|i: int|
        0 <= i < entries.len() && entries[i].0.scope == scope && #[trigger] entries[i].1.name@
            == name
}

/// The mapping registry: datasource keys to MQL names, in ascending key
/// order.
pub struct MqlMappingRegistry {
    pub registry: BindingTuple<MqlMappingRegistryValue>,
}

impl View for MqlMappingRegistry {
    type V = Seq<(Key, MqlMappingRegistryValue)>;

    open spec fn view(&self) -> Seq<(Key, MqlMappingRegistryValue)> {
        self.registry@
    }
}

impl MqlMappingRegistry {
    pub fn new() -> (r: MqlMappingRegistry)
        ensures
            r@ == Seq::<(Key, MqlMappingRegistryValue)>::empty(),
    {
        MqlMappingRegistry { registry: BindingTuple::new() }
    }

    pub fn with_registry(registry: BindingTuple<MqlMappingRegistryValue>) -> (r: MqlMappingRegistry)
        ensures
            r@ == registry@,
    {
        MqlMappingRegistry { registry }
    }

    pub fn get_registry(&self) -> (r: &BindingTuple<MqlMappingRegistryValue>)
        ensures
            r@ == self@,
    {
        &self.registry
    }

    pub fn get(&self, k: &Key) -> (r: Option<&MqlMappingRegistryValue>)
        ensures
            match r {
                Some(v) => lookup(self@, k@) == Some(*v),
                None => lookup(self@, k@) is None,
            },
    {
        self.registry.get(k)
    }

    /// Maps `k` to `v`, replacing any earlier mapping of `k`.
    pub fn insert(&mut self, k: Key, v: MqlMappingRegistryValue)
        ensures
            sorted_keys(final(self)@),
            as_map(final(self)@) == as_map(old(self)@).insert(k@, v),
    {
        self.registry.insert(k, v);
    }

    /// Whether some datasource in `scope` is mapped to `name`.
    pub fn contains_mapping(&self, scope: u16, name: &String) -> (r: bool)
        ensures
            r == spec_contains_mapping(self@, scope, name@),
    {
        let entries = self.registry.entries();
        let mut i: usize = 0;
        while i < entries.len()
            invariant
                entries@ == self@,
                i <= entries@.len(),
                forall|j: int|
                    0 <= j < i ==> !(entries@[j].0.scope == scope && #[trigger] entries@[j].1.name@
                        == name@),
            decreases entries@.len() - i,
        {
            if entries[i].0.scope == scope && entries[i].1.name == *name {
                return true;
            }
            i = i + 1;
        }
        false
    }

    /// Takes over every mapping of `other`; where both map a key, `other`'s
    /// mapping wins.
    pub fn merge(&mut self, other: MqlMappingRegistry)
        ensures
            sorted_keys(final(self)@),
            as_map(final(self)@) == as_map(old(self)@).union_prefer_right(as_map(other@)),
    {
        let ghost old_map = as_map(self@);
        let ghost other_s = other@;
        let mut remaining = other.registry.into_entries();
        proof {
            assert(other_s.skip(other_s.len() as int) =~= Seq::<(Key, MqlMappingRegistryValue)>::empty());
            assert(as_map(Seq::<(Key, MqlMappingRegistryValue)>::empty()) =~= Map::<
                KeyView,
                MqlMappingRegistryValue,
            >::empty());
            assert(old_map.union_prefer_right(Map::empty()) =~= old_map);
            assert(remaining@ =~= other_s.take(other_s.len() as int));
        }
        while remaining.len() > 0
            invariant
                sorted_keys(other_s),
                remaining@ == other_s.take(remaining@.len() as int),
                remaining@.len() <= other_s.len(),
                old_map == as_map(old(self)@),
                as_map(self@) == old_map.union_prefer_right(
                    as_map(other_s.skip(remaining@.len() as int)),
                ),
            decreases remaining@.len(),
        {
            let ghost m = remaining@.len() as int;
            let e = remaining.pop().unwrap();
            proof {
                assert(e == other_s[m - 1]);
                assert(other_s.skip(m - 1) =~= seq![e] + other_s.skip(m));
                lemma_sorted_skip(other_s, m - 1);
                lemma_as_map_prepend(e, other_s.skip(m));
                assert(remaining@ =~= other_s.take(m - 1));
            }
            let (k, v) = e;
            self.registry.insert(k, v);
            proof {
                assert(as_map(self@) =~= old_map.union_prefer_right(as_map(other_s.skip(m - 1))));
            }
        }
        proof {
            assert(other_s.skip(0) =~= other_s);
        }
        // the registry's entries are in key order
        let _ = self.registry.entries();
    }
}

} // verus!
