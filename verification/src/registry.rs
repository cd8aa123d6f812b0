//! The type registry: the process-wide store mapping identifiers to input
//! object types. It is append-only — an entry's field list, once populated,
//! is never overwritten — and it is the sharing and recursion-breaking
//! mechanism: at most one entry ever exists per identifier.

use vstd::prelude::*;
use crate::fields::{FieldModel, InputField, fields_model};
use crate::filters::create_fields;
use crate::identifier::Identifier;
use crate::metadata::Datamodel;

verus! {

/// One registry entry: an identifier and its lazily materialized field list.
/// `fields` is `None` while the entry's type is still under construction
/// (published so that recursive references to it resolve), and is filled
/// exactly once.
pub struct RegistryEntry {
    pub ident: Identifier,
    pub fields: Option<Vec<InputField>>,
}

/// The identifier-keyed store of input object types.
pub struct Registry {
    pub entries: Vec<RegistryEntry>,
}

impl Registry {
    /// The keys, in insertion order.
    pub open spec fn idents(self) -> Seq<Identifier> {
        self.entries@.map_values(|e: RegistryEntry| e.ident)
    }

    pub open spec fn entry_count(self) -> int {
        self.entries@.len() as int
    }

    /// Entry `k` has its field list populated.
    pub open spec fn materialized_at(self, k: int) -> bool {
        self.entries@[k].fields is Some
    }

    /// The field list of entry `k`, as values.
    pub open spec fn fields_at(self, k: int) -> Seq<FieldModel> {
        match self.entries@[k].fields {
            Some(v) => fields_model(v@),
            None => Seq::empty(),
        }
    }

    pub open spec fn contains_ident(self, id: Identifier) -> bool {
        exists|k: int| 0 <= k < self.entry_count() && self.idents()[k] == id
    }

    pub open spec fn index_of(self, id: Identifier) -> int {
        choose|k: int| 0 <= k < self.entry_count() && self.idents()[k] == id
    }

    /// The identifier has an entry whose field list is populated.
    pub open spec fn contains_materialized(self, id: Identifier) -> bool {
        exists|k: int|
            0 <= k < self.entry_count() && self.idents()[k] == id && self.materialized_at(k)
    }

    /// The field list registered for the identifier.
    pub open spec fn materialized_fields(self, id: Identifier) -> Seq<FieldModel> {
        self.fields_at(self.index_of(id))
    }

    /// No identifier is registered twice: the registry guarantees at most one
    /// canonical definition per logical type.
    pub open spec fn keys_distinct(self) -> bool {
        self.idents().no_duplicates()
    }

    /// Well-formedness against a data model: keys are well formed and
    /// pairwise distinct, and every populated field list is exactly the one
    /// the filtering policies and the field mapper derive for its key. The
    /// last clause is the registry's purity guarantee: a materialized type
    /// can only ever be the pure function of its identifier.
    pub open spec fn wf(self, dm: Datamodel) -> bool {
        &&& forall|k: int|
            0 <= k < self.entry_count() ==> (#[trigger] self.idents()[k]).wf(dm)
        &&& self.keys_distinct()
        &&& forall|k: int|
            0 <= k < self.entry_count() && self.materialized_at(k) ==> self.fields_at(k)
                == create_fields(dm, self.idents()[k])
    }

    /// Every entry is materialized: no type is still under construction.
    /// Holds whenever no compilation is in flight.
    pub open spec fn complete(self) -> bool {
        forall|k: int| 0 <= k < self.entry_count() ==> self.materialized_at(k)
    }

    /// An empty registry.
    pub fn new() -> (r: Registry)
        ensures
            r.entries@ =~= Seq::<RegistryEntry>::empty(),
    {
        Registry { entries: Vec::new() }
    }

    /// Looks an identifier up; returns its entry index if present.
    pub fn find(&self, id: &Identifier) -> (r: Option<usize>)
        ensures
            match r {
                Some(k) => 0 <= k < self.entry_count() && self.idents()[k as int] == *id,
                None => !self.contains_ident(*id),
            },
    {
        let mut k: usize = 0;
        while k < self.entries.len()
            invariant
                k <= self.entry_count(),
                forall|j: int| 0 <= j < k ==> self.idents()[j] != *id,
            decreases self.entry_count() - k,
        {
            if self.entries[k].ident.same_as(id) {
                return Some(k);
            }
            k += 1;
        }
        None
    }

    /// Populates the field list of entry `k`. The publish-once step: callers
    /// only ever fill an entry they created themselves, still pending.
    pub(crate) fn fill(&mut self, k: usize, fields: Vec<InputField>)
        requires
            0 <= k < old(self).entry_count(),
        ensures
            final(self).entries@ =~= old(self).entries@.update(
                k as int,
                RegistryEntry { ident: old(self).idents()[k as int], fields: Some(fields) },
            ),
    {
        let ident = self.entries[k].ident;
        self.entries.remove(k);
        self.entries.insert(k, RegistryEntry { ident, fields: Some(fields) });
    }

    /// Reads the field list registered for an identifier, if its type has
    /// been compiled.
    pub fn fields_of(&self, id: &Identifier) -> (r: Option<&Vec<InputField>>)
        requires
            self.keys_distinct(),
        ensures
            match r {
                Some(v) => self.contains_materialized(*id) && fields_model(v@)
                    == self.materialized_fields(*id),
                None => !self.contains_materialized(*id),
            },
    {
        match self.find(id) {
            None => None,
            Some(k) => {
                proof {
                    lemma_index_unique(*self, *id, k as int);
                }
                match &self.entries[k].fields {
                    Some(v) => {
                        proof {
                            assert(self.materialized_at(k as int));
                            assert(self.materialized_fields(*id) == self.fields_at(k as int));
                        }
                        Some(v)
                    },
                    None => {
                        proof {
                            assert forall|j: int|
                                0 <= j < self.entry_count() && self.idents()[j]
                                    == *id implies !self.materialized_at(j) by {
                                lemma_index_unique(*self, *id, j);
                            }
                        }
                        None
                    },
                }
            },
        }
    }
}

/// With pairwise distinct keys, any entry holding `id` is the one
/// `index_of` picks.
pub proof fn lemma_index_unique(r: Registry, id: Identifier, k: int)
    requires
        r.keys_distinct(),
        0 <= k < r.entry_count(),
        r.idents()[k] == id,
    ensures
        r.index_of(id) == k,
{
    assert(r.contains_ident(id));
    let j = r.index_of(id);
    assert(0 <= j < r.entry_count() && r.idents()[j] == id);
}

/// An empty registry is well formed and complete for any data model.
pub proof fn lemma_empty_registry(r: Registry, dm: Datamodel)
    requires
        r.entry_count() == 0,
    ensures
        r.wf(dm),
        r.complete(),
{
}

} // verus!
