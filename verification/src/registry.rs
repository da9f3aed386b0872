//! The definition registry: the process-wide catalog of known record
//! definitions, keyed by record name, populated as declarations are
//! discovered and read by resolvability checks and expansion.

use vstd::prelude::*;
use vstd::pervasive::VecAdditionalExecFns;

use crate::model::{StructInfo, StructModel};
use crate::text::str_eq;

verus! {

/// The registry named as a map from record name to its definition. A later
/// registration under the same name overwrites the earlier one.
pub open spec fn entries_map(s: Seq<StructInfo>) -> Map<Seq<char>, StructModel>
    decreases s.len(),
{
    if s.len() == 0 {
        Map::empty()
    } else {
        entries_map(s.drop_last()).insert(s.last().name@, s.last()@)
    }
}

pub open spec fn names_unique(s: Seq<StructInfo>) -> bool {
    forall|i: int, j: int| 0 <= i < j < s.len() ==> s[i].name@ != s[j].name@
}

proof fn lemma_entries_map_index(s: Seq<StructInfo>, i: int)
    requires
        names_unique(s),
        0 <= i < s.len(),
    ensures
        entries_map(s).contains_key(s[i].name@),
        entries_map(s)[s[i].name@] == s[i]@,
    decreases s.len(),
{
    if i == s.len() - 1 {
    } else {
        lemma_entries_map_index(s.drop_last(), i);
        assert(s.drop_last()[i] == s[i]);
        assert(s[i].name@ != s.last().name@);
    }
}

proof fn lemma_entries_map_absent(s: Seq<StructInfo>, n: Seq<char>)
    requires
        forall|i: int| 0 <= i < s.len() ==> s[i].name@ != n,
    ensures
        !entries_map(s).contains_key(n),
    decreases s.len(),
{
    if s.len() > 0 {
        lemma_entries_map_absent(s.drop_last(), n);
    }
}

proof fn lemma_entries_map_update(s: Seq<StructInfo>, i: int, info: StructInfo)
    requires
        names_unique(s),
        0 <= i < s.len(),
        s[i].name@ == info.name@,
    ensures
        entries_map(s.update(i, info)) =~= entries_map(s).insert(info.name@, info@),
    decreases s.len(),
{
    let t = s.update(i, info);
    if i == s.len() - 1 {
        assert(t.drop_last() =~= s.drop_last());
    } else {
        lemma_entries_map_update(s.drop_last(), i, info);
        assert(t.drop_last() =~= s.drop_last().update(i, info));
        assert(t.last() == s.last());
        assert(s[i].name@ != s.last().name@);
    }
}

/// The process-wide catalog of known record definitions.
pub struct StructRegistry {
    entries: Vec<StructInfo>,
}

impl View for StructRegistry {
    type V = Map<Seq<char>, StructModel>;

    closed spec fn view(&self) -> Map<Seq<char>, StructModel> {
        entries_map(self.entries@)
    }
}

impl StructRegistry {
    /// Internal well-formedness: no record name occurs twice.
    pub closed spec fn wf(&self) -> bool {
        names_unique(self.entries@)
    }

    /// An empty registry: the state at the start of a build.
    pub fn new() -> (r: StructRegistry)
        ensures
            r@ == Map::<Seq<char>, StructModel>::empty(),
            r.wf(),
    {
        StructRegistry { entries: Vec::new() }
    }

    /// Inserts a definition under its record name, overwriting any earlier
    /// definition of the same name.
    pub fn insert(&mut self, info: StructInfo)
        requires
            old(self).wf(),
        ensures
            final(self)@ == old(self)@.insert(info.name@, info@),
            final(self).wf(),
    {
        let ghost s0 = self.entries@;
        let mut i: usize = 0;
        while i < self.entries.len()
            invariant
                i <= self.entries@.len(),
                self.entries@ == s0,
                s0 == old(self).entries@,
                names_unique(s0),
                forall|j: int| 0 <= j < i ==> s0[j].name@ != info.name@,
            decreases self.entries@.len() - i,
        {
            if str_eq(self.entries[i].name.as_str(), info.name.as_str()) {
                self.entries.set(i, info);
                proof {
                    assert(self.entries@ =~= s0.update(i as int, info));
                    lemma_entries_map_update(s0, i as int, info);
                    assert(names_unique(self.entries@));
                }
                return ;
            }
            i += 1;
        }
        self.entries.push(info);
        proof {
            assert(self.entries@.drop_last() =~= s0);
            assert(names_unique(self.entries@));
        }
    }

    /// Whether a definition is registered under the given record name.
    pub fn contains_key(&self, name: &str) -> (r: bool)
        requires
            self.wf(),
        ensures
            r == self@.contains_key(name@),
    {
        let mut i: usize = 0;
        while i < self.entries.len()
            invariant
                i <= self.entries@.len(),
                names_unique(self.entries@),
                self@ == entries_map(self.entries@),
                forall|j: int| 0 <= j < i ==> self.entries@[j].name@ != name@,
            decreases self.entries@.len() - i,
        {
            if str_eq(self.entries[i].name.as_str(), name) {
                proof {
                    lemma_entries_map_index(self.entries@, i as int);
                }
                return true;
            }
            i += 1;
        }
        proof {
            lemma_entries_map_absent(self.entries@, name@);
        }
        false
    }
}

/// Looks up a registered record definition by name, returning a copy of it.
pub fn get_registered_struct(registry: &StructRegistry, struct_name: &str) -> (r: Option<
    StructInfo,
>)
    requires
        registry.wf(),
    ensures
        match r {
            Some(info) => registry@.contains_key(struct_name@) && info@ == registry@[struct_name@],
            None => !registry@.contains_key(struct_name@),
        },
{
    let ghost s = registry.entries@;
    let mut i: usize = 0;
    while i < registry.entries.len()
        invariant
            i <= s.len(),
            registry.entries@ == s,
            names_unique(s),
            forall|j: int| 0 <= j < i ==> s[j].name@ != struct_name@,
        decreases s.len() - i,
    {
        if str_eq(registry.entries[i].name.as_str(), struct_name) {
            proof {
                lemma_entries_map_index(s, i as int);
            }
            return Some(registry.entries[i].clone());
        }
        i += 1;
    }
    proof {
        lemma_entries_map_absent(s, struct_name@);
    }
    None
}

} // verus!
