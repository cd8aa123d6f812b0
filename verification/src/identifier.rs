//! The value that uniquely names a derivable input type: an operation shape,
//! the model the type is for, and the relation field (on that model) that the
//! traversal arrived through and therefore leaves out. Identifiers are the
//! registry's keys; this module also shows that, for a fixed data model, only
//! finitely many well-formed identifiers exist, which is what lets the
//! recursive compiler terminate.

use vstd::prelude::*;
use vstd::seq_lib::*;
use vstd::set_lib::*;
use crate::metadata::Datamodel;

verus! {

/// The two mutually exclusive create input shapes.
#[derive(Clone, Copy, PartialEq, Eq, Structural, Debug)]
pub enum Shape {
    /// Relation-managing scalars (foreign keys) cannot be written directly.
    Checked,
    /// All scalars are writable, up to the edge just traversed.
    Unchecked,
}

/// Names one derivable create input type. Two identifiers are equal iff all
/// three components are; equality defines type identity in the registry.
#[derive(Clone, Copy, Debug)]
pub struct Identifier {
    pub shape: Shape,
    /// Index of the model the type is for.
    pub model: usize,
    /// Index, on that model, of the back-edge relation field left out of the
    /// type; absent for a root (non-nested) compilation.
    pub excluded: Option<usize>,
}

impl Identifier {
    /// The identifier names a model of the description, and its excluded
    /// field, if any, is a field of that model.
    pub open spec fn wf(self, dm: Datamodel) -> bool {
        &&& self.model < dm.model_count()
        &&& match self.excluded {
            None => true,
            Some(e) => e < dm.field_count(self.model as int),
        }
    }

    /// Compares two identifiers; equality is component-wise.
    pub fn same_as(&self, other: &Identifier) -> (r: bool)
        ensures
            r == (*self == *other),
    {
        let shape_eq = match (self.shape, other.shape) {
            (Shape::Checked, Shape::Checked) => true,
            (Shape::Unchecked, Shape::Unchecked) => true,
            _ => false,
        };
        let excluded_eq = match (self.excluded, other.excluded) {
            (None, None) => true,
            (Some(a), Some(b)) => a == b,
            _ => false,
        };
        shape_eq && self.model == other.model && excluded_eq
    }
}

/// 0 for the checked shape, 1 for the unchecked one.
pub open spec fn shape_bit(s: Shape) -> int {
    match s {
        Shape::Checked => 0,
        Shape::Unchecked => 1,
    }
}

/// 0 for no excluded field, e + 1 for excluded field e.
pub open spec fn excluded_code(e: Option<usize>) -> int {
    match e {
        None => 0,
        Some(x) => x + 1,
    }
}

/// The largest field count among the first `n` models.
pub open spec fn max_fields_prefix(dm: Datamodel, n: int) -> int
    decreases n,
{
    if n <= 0 {
        0
    } else if dm.field_count(n - 1) > max_fields_prefix(dm, n - 1) {
        dm.field_count(n - 1)
    } else {
        max_fields_prefix(dm, n - 1)
    }
}

/// The largest field count among all models of the description.
pub open spec fn max_fields(dm: Datamodel) -> int {
    max_fields_prefix(dm, dm.model_count())
}

pub proof fn lemma_max_fields_prefix(dm: Datamodel, n: int, m: int)
    requires
        0 <= m < n,
    ensures
        dm.field_count(m) <= max_fields_prefix(dm, n),
    decreases n,
{
    if m < n - 1 {
        lemma_max_fields_prefix(dm, n - 1, m);
    }
}

/// A strict upper bound on the number of well-formed identifiers.
pub open spec fn ident_bound(dm: Datamodel) -> int {
    2 * (max_fields(dm) + 1) * dm.model_count()
}

/// An injective mapping of identifiers to integers: the shape in the lowest
/// bit, the excluded-field code next, the model index on top.
pub open spec fn ident_code(dm: Datamodel, id: Identifier) -> int {
    shape_bit(id.shape) + 2 * (excluded_code(id.excluded) + (max_fields(dm) + 1) * id.model)
}

pub proof fn lemma_ident_code_in_range(dm: Datamodel, id: Identifier)
    requires
        id.wf(dm),
    ensures
        0 <= ident_code(dm, id) < ident_bound(dm),
{
    let k = max_fields(dm) + 1;
    let mc = dm.model_count();
    let e = excluded_code(id.excluded);
    if id.excluded is Some {
        lemma_max_fields_prefix(dm, mc, id.model as int);
    }
    assert(0 <= e < k);
    assert(0 <= id.model < mc);
    assert(0 <= e + k * id.model && e + k * id.model < k * mc) by (nonlinear_arith)
        requires
            0 <= e < k,
            0 <= id.model < mc,
    ;
    assert(0 <= ident_code(dm, id) < 2 * k * mc) by (nonlinear_arith)
        requires
            0 <= shape_bit(id.shape) < 2,
            0 <= e + k * id.model < k * mc,
            ident_code(dm, id) == shape_bit(id.shape) + 2 * (e + k * id.model),
    ;
}

pub proof fn lemma_ident_code_injective(dm: Datamodel, a: Identifier, b: Identifier)
    requires
        a.wf(dm),
        b.wf(dm),
        ident_code(dm, a) == ident_code(dm, b),
    ensures
        a == b,
{
    let k = max_fields(dm) + 1;
    let ea = excluded_code(a.excluded);
    let eb = excluded_code(b.excluded);
    if a.excluded is Some {
        lemma_max_fields_prefix(dm, dm.model_count(), a.model as int);
    }
    if b.excluded is Some {
        lemma_max_fields_prefix(dm, dm.model_count(), b.model as int);
    }
    assert(0 <= ea < k && 0 <= eb < k);
    let xa = ea + k * a.model;
    let xb = eb + k * b.model;
    assert(shape_bit(a.shape) == shape_bit(b.shape) && xa == xb);
    assert(a.model == b.model && ea == eb) by (nonlinear_arith)
        requires
            ea + k * a.model == eb + k * b.model,
            0 <= ea < k,
            0 <= eb < k,
            a.model >= 0,
            b.model >= 0,
    ;
}

/// Pigeonhole bound: pairwise distinct well-formed identifiers are at most
/// `ident_bound` many. The registry's keys are such a sequence, so this bound
/// is what makes the memoized recursion terminate.
pub proof fn lemma_distinct_idents_bounded(dm: Datamodel, ids: Seq<Identifier>)
    requires
        ids.no_duplicates(),
        forall|j: int| 0 <= j < ids.len() ==> (#[trigger] ids[j]).wf(dm),
    ensures
        ids.len() <= ident_bound(dm),
{
    let codes = ids.map_values(|id: Identifier| ident_code(dm, id));
    assert forall|j: int, l: int| 0 <= j < codes.len() && 0 <= l < codes.len() && j != l
        implies codes[j] != codes[l] by {
        if codes[j] == codes[l] {
            lemma_ident_code_injective(dm, ids[j], ids[l]);
        }
    }
    assert(codes.no_duplicates());
    codes.unique_seq_to_set();
    assert forall|c: int| codes.to_set().contains(c)
        implies set_int_range(0, ident_bound(dm)).contains(c) by {
        let j = choose|j: int| 0 <= j < codes.len() && codes[j] == c;
        lemma_ident_code_in_range(dm, ids[j]);
    }
    lemma_int_range(0, ident_bound(dm));
    lemma_len_subset(codes.to_set(), set_int_range(0, ident_bound(dm)));
}

/// The identifier for compiling `model` in `shape`, arrived at through
/// `parent`: the excluded field is the parent's back edge on `model`.
pub open spec fn spec_make_ident(
    dm: Datamodel,
    shape: Shape,
    model: usize,
    parent: Option<crate::metadata::RelationFieldRef>,
) -> Identifier {
    Identifier {
        shape,
        model,
        excluded: match parent {
            None => None,
            Some(p) => Some(dm.related_of(p)),
        },
    }
}

/// Builds the identifier for a compilation request; side-effect free.
pub fn make_ident(
    dm: &Datamodel,
    shape: Shape,
    model: usize,
    parent: Option<crate::metadata::RelationFieldRef>,
) -> (r: Identifier)
    requires
        dm.parent_wf(model as int, parent),
    ensures
        r == spec_make_ident(*dm, shape, model, parent),
        r.wf(*dm) <== model < dm.model_count() && dm.wf(),
{
    let excluded = match parent {
        None => None,
        Some(p) => Some(dm.related_field_of(p)),
    };
    proof {
        if model < dm.model_count() && dm.wf() && parent is Some {
            let p = parent->0;
            assert(dm.field_at(p.model as int, p.field as int) matches
                crate::metadata::ModelField::Relation(rf) && dm.relation_wf(p.model as int, rf));
        }
    }
    Identifier { shape, model, excluded }
}

} // verus!
