//! The laws the compiler obeys, each proved from the contracts of the
//! filtering policies and the registry: determinism of compilation, the
//! exclusion of the back edge that terminates the recursion over
//! bidirectional relations, the treatment of auto-generated identifiers and
//! of linking fields in each shape, and the permanence of composite fields.

use vstd::prelude::*;
use crate::filters::{
    back_edge_by_name, create_fields, excluded_linking, keep_field, kept_indices,
    lemma_field_count_bounded, lemma_kept_indices_elems,
};
use crate::identifier::{Identifier, Shape};
use crate::metadata::{Datamodel, ModelField};
use crate::registry::Registry;

verus! {

/// Determinism: the registered field list of an identifier is the same in
/// any two well-formed registries, however and in whatever order they were
/// built — both equal the pure function `create_fields` of the identifier's
/// components (model, back edge, shape) alone.
pub proof fn lemma_compile_deterministic(
    dm: Datamodel,
    r1: Registry,
    r2: Registry,
    id: Identifier,
)
    requires
        r1.wf(dm),
        r2.wf(dm),
        r1.contains_materialized(id),
        r2.contains_materialized(id),
    ensures
        r1.materialized_fields(id) == r2.materialized_fields(id),
        r1.materialized_fields(id) == create_fields(dm, id),
{
    let k1 = choose|k: int|
        0 <= k < r1.entry_count() && r1.idents()[k] == id && r1.materialized_at(k);
    crate::registry::lemma_index_unique(r1, id, k1);
    let k2 = choose|k: int|
        0 <= k < r2.entry_count() && r2.idents()[k] == id && r2.materialized_at(k);
    crate::registry::lemma_index_unique(r2, id, k2);
}

/// Cycle termination, first half: the back-edge relation field — the one
/// traversed to reach this model — is never part of the compiled field
/// list, in either shape. This is the sole mechanism that keeps the mutual
/// recursion of a bidirectional relation pair from expanding forever.
pub proof fn lemma_back_edge_excluded(dm: Datamodel, id: Identifier)
    requires
        dm.wf(),
        id.wf(dm),
        id.excluded matches Some(g) && dm.field_at(id.model as int, g as int) is Relation,
    ensures
        !kept_indices(dm, id, dm.field_count(id.model as int)).contains(id.excluded->0),
{
    let g = id.excluded->0;
    lemma_field_count_bounded(dm, id.model as int);
    lemma_kept_indices_elems(dm, id, dm.field_count(id.model as int));
    match dm.field_at(id.model as int, g as int) {
        ModelField::Relation(rf) => {
            match id.shape {
                Shape::Checked => {
                    assert(!keep_field(dm, id, g as int));
                },
                Shape::Unchecked => {
                    assert(back_edge_by_name(dm, id, rf.name@));
                    assert(!keep_field(dm, id, g as int));
                },
            }
        },
        _ => {},
    }
}

/// Cycle termination, second half: any relation field that does survive the
/// filter hands its own back edge to the nested compilation, and that back
/// edge is excluded there — so a purely bidirectional pair recurses exactly
/// one level before the traversed edge disappears.
pub proof fn lemma_nested_excludes_back_edge(
    dm: Datamodel,
    id: Identifier,
    i: usize,
    nested_shape: Shape,
)
    requires
        dm.wf(),
        id.wf(dm),
        kept_indices(dm, id, dm.field_count(id.model as int)).contains(i),
        dm.field_at(id.model as int, i as int) matches ModelField::Relation(rf),
    ensures
        (dm.field_at(id.model as int, i as int) matches ModelField::Relation(rf)
            ==> !kept_indices(
            dm,
            Identifier {
                shape: nested_shape,
                model: rf.target_model,
                excluded: Some(rf.related_field),
            },
            dm.field_count(rf.target_model as int),
        ).contains(rf.related_field)),
{
    match dm.field_at(id.model as int, i as int) {
        ModelField::Relation(rf) => {
            lemma_field_count_bounded(dm, id.model as int);
    lemma_kept_indices_elems(dm, id, dm.field_count(id.model as int));
            assert(dm.relation_wf(id.model as int, rf));
            let nested = Identifier {
                shape: nested_shape,
                model: rf.target_model,
                excluded: Some(rf.related_field),
            };
            assert(nested.wf(dm));
            assert(dm.field_at(rf.target_model as int, rf.related_field as int) is Relation);
            lemma_back_edge_excluded(dm, nested);
        },
        _ => {},
    }
}

/// Identifier exclusion: a scalar field that is an auto-generated integer
/// identifier is never part of the checked create type.
pub proof fn lemma_auto_id_excluded_checked(dm: Datamodel, id: Identifier, i: usize)
    requires
        dm.wf(),
        id.wf(dm),
        id.shape == Shape::Checked,
        dm.field_at(id.model as int, i as int) matches ModelField::Scalar(sf)
            && sf.auto_generated_int_id,
    ensures
        !kept_indices(dm, id, dm.field_count(id.model as int)).contains(i),
{
    lemma_field_count_bounded(dm, id.model as int);
    lemma_kept_indices_elems(dm, id, dm.field_count(id.model as int));
}

/// No identifier exclusion in the unchecked shape: a scalar field is part
/// of the unchecked create type exactly when it is not a linking field of
/// the back-edge relation — the auto-generated-identifier rule of the
/// checked shape does not apply there.
pub proof fn lemma_unchecked_scalar_kept(dm: Datamodel, id: Identifier, i: usize)
    requires
        dm.wf(),
        id.wf(dm),
        id.shape == Shape::Unchecked,
        i < dm.field_count(id.model as int),
        dm.field_at(id.model as int, i as int) is Scalar,
    ensures
        kept_indices(dm, id, dm.field_count(id.model as int)).contains(i) <==> !excluded_linking(
            dm,
            id,
        ).contains(i),
{
    lemma_field_count_bounded(dm, id.model as int);
    lemma_kept_indices_elems(dm, id, dm.field_count(id.model as int));
}

/// Linking-field exclusion: in a nested unchecked create, the scalar fields
/// implementing the traversed relation's foreign key are left out; at the
/// root — with no traversal context — every scalar field is kept.
pub proof fn lemma_linking_fields_excluded(dm: Datamodel, id: Identifier, i: usize)
    requires
        dm.wf(),
        id.wf(dm),
        id.shape == Shape::Unchecked,
        i < dm.field_count(id.model as int),
        dm.field_at(id.model as int, i as int) is Scalar,
    ensures
        excluded_linking(dm, id).contains(i) ==> !kept_indices(
            dm,
            id,
            dm.field_count(id.model as int),
        ).contains(i),
        id.excluded is None ==> kept_indices(dm, id, dm.field_count(id.model as int)).contains(i),
{
    lemma_unchecked_scalar_kept(dm, id, i);
    if id.excluded is None {
        assert(excluded_linking(dm, id) =~= Seq::<usize>::empty());
        assert(!excluded_linking(dm, id).contains(i));
    }
}

/// Composite permanence: a composite field is part of the compiled type in
/// the checked and the unchecked shape alike, at the root and however
/// nested — no filtering policy applies to it.
pub proof fn lemma_composite_always_kept(dm: Datamodel, id: Identifier, i: usize)
    requires
        dm.wf(),
        id.wf(dm),
        i < dm.field_count(id.model as int),
        dm.field_at(id.model as int, i as int) is Composite,
    ensures
        kept_indices(dm, id, dm.field_count(id.model as int)).contains(i),
{
    lemma_field_count_bounded(dm, id.model as int);
    lemma_kept_indices_elems(dm, id, dm.field_count(id.model as int));
}

} // verus!
