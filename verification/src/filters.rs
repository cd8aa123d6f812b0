//! The field filtering policies: pure decisions, per model field, of whether
//! the field is eligible for the checked or the unchecked create shape, given
//! the relation edge the compilation arrived through. The exclusion of the
//! back-edge field is the sole mechanism that breaks the recursion of
//! bidirectional relation graphs.

use vstd::prelude::*;
use crate::fields::{FieldModel, SchemaError, field_model_of, names_malformed_relation};
use crate::identifier::{Identifier, Shape, spec_make_ident, make_ident};
use crate::metadata::{Datamodel, ModelField, RelationField, RelationFieldRef};

verus! {

/// The scalar fields shut out of the unchecked shape: the linking fields of
/// the back-edge relation, when that relation is inlined on the model being
/// compiled (the model stores the foreign key). Otherwise there is nothing to
/// shut out.
pub open spec fn excluded_linking(dm: Datamodel, id: Identifier) -> Seq<usize> {
    match id.excluded {
        None => Seq::empty(),
        Some(g) => match dm.field_at(id.model as int, g as int) {
            ModelField::Relation(rf) => if rf.inlined_on_enclosing_model {
                rf.linking_fields@
            } else {
                Seq::empty()
            },
            _ => Seq::empty(),
        },
    }
}

/// Whether a relation field of the given name is the back edge, compared by
/// name (the unchecked policy's comparison; the checked policy compares by
/// field identity).
pub open spec fn back_edge_by_name(dm: Datamodel, id: Identifier, name: Seq<char>) -> bool {
    match id.excluded {
        None => false,
        Some(g) => dm.field_name(id.model as int, g as int) == name,
    }
}

/// The filtering policy: whether field `i` of the identified model is kept in
/// the identified shape.
///
/// Checked shape: scalars must be writable and not an auto-generated integer
/// identifier; the relation field traversed to (by identity) is left out;
/// composites are always kept.
///
/// Unchecked shape: scalars are writable unless they link the model to the
/// parent record; relation fields are kept only when not inlined on this
/// model (inlined relations are expressed as their linking scalars instead)
/// and not the back edge (by name); composites are always kept.
pub open spec fn keep_field(dm: Datamodel, id: Identifier, i: int) -> bool {
    match dm.field_at(id.model as int, i) {
        ModelField::Scalar(sf) => match id.shape {
            Shape::Checked => !sf.auto_generated_int_id && !sf.read_only,
            Shape::Unchecked => !excluded_linking(dm, id).contains(i as usize),
        },
        ModelField::Relation(rf) => match id.shape {
            Shape::Checked => id.excluded != Some(i as usize),
            Shape::Unchecked => !rf.inlined_on_enclosing_model && !back_edge_by_name(
                dm,
                id,
                rf.name@,
            ),
        },
        ModelField::Composite(_) => true,
    }
}

/// No linking field of the back-edge relation is of the wrong variant: the
/// condition under which the unchecked filter succeeds.
pub open spec fn linking_ok(dm: Datamodel, id: Identifier) -> bool {
    match id.excluded {
        None => true,
        Some(g) => match dm.field_at(id.model as int, g as int) {
            ModelField::Relation(rf) => rf.inlined_on_enclosing_model ==> forall|l: int|
                0 <= l < rf.linking_fields@.len()
                    ==> dm.field_at(id.model as int, #[trigger] rf.linking_fields@[l] as int)
                    is Scalar,
            _ => true,
        },
    }
}

/// The indices below `n` of the fields the policy keeps, in field order.
pub open spec fn kept_indices(dm: Datamodel, id: Identifier, n: int) -> Seq<usize>
    decreases n,
{
    if n <= 0 {
        Seq::empty()
    } else if keep_field(dm, id, n - 1) {
        kept_indices(dm, id, n - 1).push((n - 1) as usize)
    } else {
        kept_indices(dm, id, n - 1)
    }
}

/// A model's field count fits in `usize`: the fields are held in a vector.
pub proof fn lemma_field_count_bounded(dm: Datamodel, m: int)
    requires
        0 <= m < dm.model_count(),
    ensures
        dm.field_count(m) <= usize::MAX,
{
    vstd::std_specs::vec::axiom_spec_len(&dm.models@[m].fields);
}

/// Membership in the kept index list is exactly the filtering policy.
pub proof fn lemma_kept_indices_elems(dm: Datamodel, id: Identifier, n: int)
    requires
        n <= usize::MAX + 1,
    ensures
        forall|x: usize|
            #[trigger] kept_indices(dm, id, n).contains(x) <==> (x < n && keep_field(
                dm,
                id,
                x as int,
            )),
    decreases n,
{
    if n <= 0 {
        assert(kept_indices(dm, id, n).len() == 0);
    } else {
        lemma_kept_indices_elems(dm, id, n - 1);
        let prev = kept_indices(dm, id, n - 1);
        let cur = kept_indices(dm, id, n);
        assert forall|x: usize| #[trigger] cur.contains(x) implies (x < n && keep_field(
            dm,
            id,
            x as int,
        )) by {
            let j = choose|j: int| 0 <= j < cur.len() && cur[j] == x;
            if keep_field(dm, id, n - 1) {
                if j < prev.len() {
                    assert(cur[j] == prev[j]);
                    assert(prev.contains(x));
                } else {
                    assert(x == (n - 1) as usize);
                }
            } else {
                assert(cur == prev);
                assert(prev.contains(x));
            }
        }
        assert forall|x: usize| (x < n && keep_field(dm, id, x as int)) implies #[trigger] cur
            .contains(x) by {
            if x < n - 1 {
                assert(prev.contains(x));
                let j = choose|j: int| 0 <= j < prev.len() && prev[j] == x;
                assert(cur[j] == x);
            } else {
                assert(keep_field(dm, id, n - 1));
                assert(cur[prev.len() as int] == x);
            }
        }
    }
}

/// The full field list of the identified create input type: the kept fields,
/// in model order, each mapped to its schema field. A pure function of the
/// identifier's components — the sense in which compilation is deterministic.
pub open spec fn create_fields(dm: Datamodel, id: Identifier) -> Seq<FieldModel> {
    kept_indices(dm, id, dm.field_count(id.model as int)).map_values(
        |i: usize| field_model_of(dm, id.model as int, i as int),
    )
}

/// Whether the index list holds `x`.
fn holds_index(v: &Vec<usize>, x: usize) -> (r: bool)
    ensures
        r == v@.contains(x),
{
    let mut j: usize = 0;
    while j < v.len()
        invariant
            j <= v@.len(),
            forall|l: int| 0 <= l < j ==> v@[l] != x,
        decreases v@.len() - j,
    {
        if v[j] == x {
            return true;
        }
        j += 1;
    }
    false
}

/// Filters the given model's fields down to the ones allowed in the checked
/// create shape, as field indices in model order.
pub fn filter_checked_create_fields(
    dm: &Datamodel,
    model: usize,
    parent: Option<RelationFieldRef>,
) -> (r: Vec<usize>)
    requires
        dm.wf(),
        model < dm.model_count(),
        dm.parent_wf(model as int, parent),
    ensures
        r@ == kept_indices(
            *dm,
            spec_make_ident(*dm, Shape::Checked, model, parent),
            dm.field_count(model as int),
        ),
{
    let ghost id = spec_make_ident(*dm, Shape::Checked, model, parent);
    let back: Option<usize> = match parent {
        None => None,
        Some(p) => Some(dm.related_field_of(p)),
    };
    let fields = &dm.models[model].fields;
    let mut out: Vec<usize> = Vec::new();
    let mut i: usize = 0;
    while i < fields.len()
        invariant
            dm.wf(),
            model < dm.model_count(),
            fields == &dm.models@[model as int].fields,
            i <= dm.field_count(model as int),
            id == spec_make_ident(*dm, Shape::Checked, model, parent),
            back == id.excluded,
            out@ == kept_indices(*dm, id, i as int),
        decreases fields@.len() - i,
    {
        let keep = match &fields[i] {
            ModelField::Scalar(sf) => !sf.auto_generated_int_id && !sf.read_only,
            ModelField::Relation(_) => match back {
                None => true,
                Some(g) => g != i,
            },
            ModelField::Composite(_) => true,
        };
        if keep {
            out.push(i);
        }
        i += 1;
    }
    out
}

/// Filters the given model's fields down to the ones allowed in the unchecked
/// create shape, as field indices in model order. Fails iff a linking field
/// of the back-edge relation is not scalar: a malformed model description,
/// fatal for schema construction.
pub fn filter_unchecked_create_fields(
    dm: &Datamodel,
    model: usize,
    parent: Option<RelationFieldRef>,
) -> (r: Result<Vec<usize>, SchemaError>)
    requires
        dm.wf(),
        model < dm.model_count(),
        dm.parent_wf(model as int, parent),
    ensures
        match r {
            Ok(v) => {
                &&& linking_ok(*dm, spec_make_ident(*dm, Shape::Unchecked, model, parent))
                &&& v@ == kept_indices(
                    *dm,
                    spec_make_ident(*dm, Shape::Unchecked, model, parent),
                    dm.field_count(model as int),
                )
            },
            Err(e) => {
                &&& !linking_ok(*dm, spec_make_ident(*dm, Shape::Unchecked, model, parent))
                &&& names_malformed_relation(*dm, e)
                &&& e.model == model
                &&& Some(e.field) == spec_make_ident(*dm, Shape::Unchecked, model, parent).excluded
            },
        },
{
    let ghost id = spec_make_ident(*dm, Shape::Unchecked, model, parent);
    let back: Option<usize> = match parent {
        None => None,
        Some(p) => Some(dm.related_field_of(p)),
    };
    proof {
        if parent is Some {
            let p = parent->0;
            assert(dm.field_at(p.model as int, p.field as int) matches ModelField::Relation(prf)
                && dm.relation_wf(p.model as int, prf));
            assert(dm.field_at(model as int, back->0 as int) is Relation);
        }
    }
    let fields = &dm.models[model].fields;
    let back_rel: Option<&RelationField> = match back {
        None => None,
        Some(g) => match &fields[g] {
            ModelField::Relation(rf) => Some(rf),
            _ => None,
        },
    };
    if let Some(g) = back {
        let rf = match &fields[g] {
            ModelField::Relation(rf) => rf,
            _ => {
                proof {
                    assert(false);
                }
                return Err(
                    SchemaError {
                        model,
                        field: g,
                        model_name: dm.models[model].name.clone(),
                        relation_name: String::new(),
                    },
                );
            },
        };
        proof {
            assert(dm.field_at(model as int, g as int) matches ModelField::Relation(brf)
                && dm.relation_wf(model as int, brf));
        }
        if rf.inlined_on_enclosing_model {
            let mut l: usize = 0;
            while l < rf.linking_fields.len()
                invariant
                    dm.wf(),
                    model < dm.model_count(),
                    g < dm.field_count(model as int),
                    fields == &dm.models@[model as int].fields,
                    dm.field_at(model as int, g as int) == ModelField::Relation(*rf),
                    dm.relation_wf(model as int, *rf),
                    rf.inlined_on_enclosing_model,
                    id == spec_make_ident(*dm, Shape::Unchecked, model, parent),
                    id.excluded == Some(g),
                    l <= rf.linking_fields@.len(),
                    forall|j: int|
                        0 <= j < l ==> dm.field_at(
                            model as int,
                            #[trigger] rf.linking_fields@[j] as int,
                        ) is Scalar,
                decreases rf.linking_fields@.len() - l,
            {
                let lf = rf.linking_fields[l];
                match &fields[lf] {
                    ModelField::Scalar(_) => {},
                    _ => {
                        proof {
                            assert(!(dm.field_at(model as int, rf.linking_fields@[l as int] as int)
                                is Scalar));
                            assert(exists|j: int|
                                0 <= j < rf.linking_fields@.len() && !(dm.field_at(
                                    model as int,
                                    #[trigger] rf.linking_fields@[j] as int,
                                ) is Scalar));
                        }
                        return Err(
                            SchemaError {
                                model,
                                field: g,
                                model_name: dm.models[model].name.clone(),
                                relation_name: rf.name.clone(),
                            },
                        );
                    },
                }
                l += 1;
            }
        }
    }
    let mut out: Vec<usize> = Vec::new();
    let mut i: usize = 0;
    while i < fields.len()
        invariant
            dm.wf(),
            model < dm.model_count(),
            fields == &dm.models@[model as int].fields,
            i <= dm.field_count(model as int),
            id == spec_make_ident(*dm, Shape::Unchecked, model, parent),
            back == id.excluded,
            match back_rel {
                None => id.excluded is None,
                Some(brf) => id.excluded matches Some(g) && dm.field_at(model as int, g as int)
                    == ModelField::Relation(*brf),
            },
            out@ == kept_indices(*dm, id, i as int),
        decreases fields@.len() - i,
    {
        let keep = match &fields[i] {
            ModelField::Scalar(_) => match back_rel {
                None => true,
                Some(brf) => {
                    if brf.inlined_on_enclosing_model {
                        !holds_index(&brf.linking_fields, i)
                    } else {
                        true
                    }
                },
            },
            ModelField::Relation(rf) => {
                let not_back = match back_rel {
                    None => true,
                    Some(brf) => !(brf.name == rf.name),
                };
                !rf.inlined_on_enclosing_model && not_back
            },
            ModelField::Composite(_) => true,
        };
        proof {
            assert(keep == keep_field(*dm, id, i as int));
        }
        if keep {
            out.push(i);
        }
        i += 1;
    }
    Ok(out)
}

} // verus!
