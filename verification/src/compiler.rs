//! The type compiler for the create family: orchestrates identifier
//! construction, registry lookup and insert, and field mapping, recursing
//! into the create types of related models. Termination is by the pigeonhole
//! bound on well-formed identifiers: every recursive call happens after a
//! fresh identifier was published, so the registry grows towards that bound.

use vstd::prelude::*;
use crate::fields::{InputField, SchemaError, field_model_of, fields_model, names_malformed_relation};
use crate::filters::{
    create_fields, filter_checked_create_fields, filter_unchecked_create_fields, kept_indices,
    lemma_kept_indices_elems, linking_ok,
};
use crate::identifier::{
    Identifier, Shape, ident_bound, lemma_distinct_idents_bounded, make_ident, spec_make_ident,
};
use crate::mapper::{map_composite_field, map_relation_field, map_scalar_field};
use crate::metadata::{Datamodel, ModelField, RelationFieldRef};
use crate::registry::{Registry, RegistryEntry};

verus! {

/// The new registry keeps every entry of the old one, unchanged and in
/// place; it only appends.
pub open spec fn registry_extends(old_r: Registry, new_r: Registry) -> bool {
    &&& new_r.entry_count() >= old_r.entry_count()
    &&& forall|k: int|
        0 <= k < old_r.entry_count() ==> new_r.entries@[k] == #[trigger] old_r.entries@[k]
}

/// On a description whose inlined relations all have scalar linking fields,
/// the unchecked filter succeeds for every well-formed identifier; so a
/// failing filter refutes that property of the whole description.
proof fn lemma_linking_wf_gives_linking_ok(dm: Datamodel, id: Identifier)
    requires
        dm.wf(),
        dm.linking_wf(),
        id.wf(dm),
    ensures
        linking_ok(dm, id),
{
    match id.excluded {
        None => {},
        Some(g) => {
            assert(0 <= id.model < dm.model_count() && 0 <= g < dm.field_count(id.model as int));
            assert(dm.field_at(id.model as int, g as int) == dm.field_at(id.model as int, g as int));
        },
    }
}

/// Compiles the input object type named by (shape, model, back edge of
/// `parent`) into the registry, together with every nested create type it
/// references. A type already present — even one whose field list an
/// enclosing call is still computing — is not built again: that lookup,
/// after the back-edge field was already filtered out, is what keeps the
/// mutual recursion of bidirectional relations finite.
fn build_create_type(
    dm: &Datamodel,
    reg: &mut Registry,
    shape: Shape,
    model: usize,
    parent: Option<RelationFieldRef>,
) -> (r: Result<(), SchemaError>)
    requires
        dm.wf(),
        old(reg).wf(*dm),
        model < dm.model_count(),
        dm.parent_wf(model as int, parent),
    ensures
        final(reg).wf(*dm),
        registry_extends(*old(reg), *final(reg)),
        final(reg).contains_ident(spec_make_ident(*dm, shape, model, parent)),
        r is Ok ==> forall|k: int|
            old(reg).entry_count() <= k < final(reg).entry_count() ==> final(reg).materialized_at(
                k,
            ),
        r matches Err(e) ==> names_malformed_relation(*dm, e),
        dm.linking_wf() ==> r is Ok,
    decreases ident_bound(*dm) - old(reg).entry_count(),
{
    let ident = make_ident(dm, shape, model, parent);
    match reg.find(&ident) {
        Some(_) => {
            return Ok(());
        },
        None => {},
    }
    let my_idx = reg.entries.len();
    reg.entries.push(RegistryEntry { ident, fields: None });
    proof {
        assert(reg.idents() =~= old(reg).idents().push(ident));
        assert forall|a: int, b: int|
            0 <= a < reg.entry_count() && 0 <= b < reg.entry_count() && a != b implies reg.idents()[a]
            != reg.idents()[b] by {
            if a < my_idx && b < my_idx {
                assert(old(reg).idents()[a] != old(reg).idents()[b]);
            }
        }
        assert(reg.idents().no_duplicates());
        assert forall|k: int| 0 <= k < reg.entry_count() implies (#[trigger] reg.idents()[k]).wf(
            *dm,
        ) by {
            if k < my_idx {
                assert(reg.idents()[k] == old(reg).idents()[k]);
            } else {
                assert(reg.idents()[k] == ident);
            }
        }
        assert forall|k: int|
            0 <= k < reg.entry_count() && reg.materialized_at(k) implies reg.fields_at(k)
            == create_fields(*dm, reg.idents()[k]) by {
            assert(k < my_idx);
            assert(reg.entries@[k] == old(reg).entries@[k]);
            assert(old(reg).materialized_at(k));
            assert(reg.idents()[k] == old(reg).idents()[k]);
        }
        assert(reg.wf(*dm));
    }
    let kept: Vec<usize> = match shape {
        Shape::Checked => filter_checked_create_fields(dm, model, parent),
        Shape::Unchecked => match filter_unchecked_create_fields(dm, model, parent) {
            Ok(v) => v,
            Err(e) => {
                proof {
                    if dm.linking_wf() {
                        lemma_linking_wf_gives_linking_ok(*dm, ident);
                    }
                }
                return Err(e);
            },
        },
    };
    let ghost all_fields = create_fields(*dm, ident);
    proof {
        assert(all_fields =~= kept@.map_values(
            |i: usize| field_model_of(*dm, model as int, i as int),
        ));
    }
    let nfields = dm.models[model].fields.len();
    let mut out: Vec<InputField> = Vec::new();
    proof {
        assert(fields_model(out@) =~~= all_fields.subrange(0, 0));
    }
    let mut j: usize = 0;
    while j < kept.len()
        invariant
            dm.wf(),
            model < dm.model_count(),
            dm.field_count(model as int) == nfields as int,
            ident == spec_make_ident(*dm, shape, model, parent),
            ident.wf(*dm),
            ident.model == model,
            kept@ == kept_indices(*dm, ident, dm.field_count(model as int)),
            all_fields == create_fields(*dm, ident),
            all_fields.len() == kept@.len(),
            forall|l: int|
                0 <= l < kept@.len() ==> all_fields[l] == field_model_of(
                    *dm,
                    model as int,
                    #[trigger] kept@[l] as int,
                ),
            j <= kept@.len(),
            reg.wf(*dm),
            registry_extends(*old(reg), *reg),
            my_idx == old(reg).entry_count(),
            my_idx < reg.entry_count(),
            reg.idents()[my_idx as int] == ident,
            !reg.materialized_at(my_idx as int),
            forall|k: int| my_idx < k < reg.entry_count() ==> reg.materialized_at(k),
            fields_model(out@) == all_fields.subrange(0, j as int),
        decreases kept@.len() - j,
    {
        let i = kept[j];
        proof {
            lemma_kept_indices_elems(*dm, ident, dm.field_count(model as int));
            assert(kept@.contains(kept@[j as int]));
        }
        let f = &dm.models[model].fields[i];
        let mapped: InputField = match f {
            ModelField::Scalar(sf) => map_scalar_field(sf),
            ModelField::Composite(cf) => map_composite_field(cf),
            ModelField::Relation(rf) => {
                proof {
                    assert(dm.field_at(model as int, i as int) matches ModelField::Relation(r2)
                        && dm.relation_wf(model as int, r2));
                    lemma_distinct_idents_bounded(*dm, reg.idents());
                }
                let back = RelationFieldRef { model, field: i };
                let ghost s0 = *reg;
                match build_create_type(dm, reg, Shape::Checked, rf.target_model, Some(back)) {
                    Ok(_) => {},
                    Err(e) => {
                        proof {
                            assert(reg.idents()[my_idx as int] == ident);
                            assert(reg.contains_ident(ident));
                        }
                        return Err(e);
                    },
                }
                let ghost s1 = *reg;
                proof {
                    lemma_distinct_idents_bounded(*dm, reg.idents());
                }
                match build_create_type(dm, reg, Shape::Unchecked, rf.target_model, Some(back)) {
                    Ok(_) => {},
                    Err(e) => {
                        proof {
                            assert(reg.idents()[my_idx as int] == ident);
                            assert(reg.contains_ident(ident));
                        }
                        return Err(e);
                    },
                }
                proof {
                    assert forall|k: int|
                        my_idx < k < reg.entry_count() implies reg.materialized_at(k) by {
                        if k < s0.entry_count() {
                            assert(reg.entries@[k] == s1.entries@[k]);
                            assert(s1.entries@[k] == s0.entries@[k]);
                            assert(s0.materialized_at(k));
                        } else if k < s1.entry_count() {
                            assert(reg.entries@[k] == s1.entries@[k]);
                            assert(s1.materialized_at(k));
                        }
                    }
                    assert forall|k: int|
                        0 <= k < old(reg).entry_count() implies reg.entries@[k] == old(
                        reg,
                    ).entries@[k] by {
                        assert(reg.entries@[k] == s1.entries@[k]);
                        assert(s1.entries@[k] == s0.entries@[k]);
                    }
                    assert(reg.entries@[my_idx as int] == s1.entries@[my_idx as int]);
                    assert(s1.entries@[my_idx as int] == s0.entries@[my_idx as int]);
                    assert(reg.idents()[my_idx as int] == ident);
                    assert(!reg.materialized_at(my_idx as int));
                }
                map_relation_field(rf)
            },
        };
        proof {
            assert(mapped@ =~~= field_model_of(*dm, model as int, i as int));
            assert(all_fields[j as int] == field_model_of(*dm, model as int, kept@[j as int] as int));
        }
        let ghost prev_out = out@;
        out.push(mapped);
        proof {
            let fm = fields_model(out@);
            let target = all_fields.subrange(0, j as int + 1);
            assert(out@ == prev_out.push(mapped));
            assert(out@.len() == prev_out.len() + 1);
            assert(fields_model(prev_out) == all_fields.subrange(0, j as int));
            assert(fields_model(prev_out).len() == prev_out.len());
            assert(all_fields.subrange(0, j as int).len() == j as int);
            assert(prev_out.len() == j as int);
            assert(target.len() == j + 1);
            assert(fm.len() == out@.len());
            assert(fm.len() == target.len());
            assert forall|l: int| 0 <= l < fm.len() implies fm[l] == target[l] by {
                if l < j as int {
                    assert(out@[l] == prev_out[l]);
                    assert(fields_model(prev_out)[l] == all_fields.subrange(0, j as int)[l]);
                } else {
                    assert(out@[l] == mapped);
                }
            }
            assert(fm =~= target);
        }
        j += 1;
    }
    proof {
        assert(fields_model(out@) =~= all_fields);
    }
    let ghost pre_fill = *reg;
    let ghost out_snapshot = out@;
    reg.fill(my_idx, out);
    proof {
        assert(reg.idents() =~= pre_fill.idents());
        assert(reg.idents().no_duplicates());
        assert forall|k: int| 0 <= k < reg.entry_count() implies (#[trigger] reg.idents()[k]).wf(
            *dm,
        ) by {
            assert(reg.idents()[k] == pre_fill.idents()[k]);
        }
        assert forall|k: int|
            0 <= k < reg.entry_count() && reg.materialized_at(k) implies reg.fields_at(k)
            == create_fields(*dm, reg.idents()[k]) by {
            if k == my_idx {
                assert(reg.fields_at(k) == fields_model(out_snapshot));
                assert(fields_model(out_snapshot) == all_fields);
                assert(all_fields == create_fields(*dm, ident));
                assert(reg.idents()[k] == ident);
            } else {
                assert(reg.entries@[k] == pre_fill.entries@[k]);
                assert(reg.idents()[k] == pre_fill.idents()[k]);
                assert(pre_fill.materialized_at(k));
                assert(pre_fill.fields_at(k) == create_fields(*dm, pre_fill.idents()[k]));
                assert(reg.fields_at(k) == pre_fill.fields_at(k));
            }
        }
        assert(reg.wf(*dm));
        assert forall|k: int| my_idx <= k < reg.entry_count() implies reg.materialized_at(k) by {
            if k != my_idx {
                assert(reg.entries@[k] == pre_fill.entries@[k]);
                assert(pre_fill.materialized_at(k));
            } else {
                assert(reg.entries@[k].fields is Some);
            }
        }
        assert(reg.idents()[my_idx as int] == ident);
        assert(reg.contains_ident(ident));
    }
    Ok(())
}

/// Builds the checked create input type for `model` (nested iff `parent` is
/// given) and every type it references, publishing them in the registry, and
/// returns its identifier. On a malformed description the registry is left
/// exactly as it was and the error names the offending relation.
pub fn checked_create_input_type(
    dm: &Datamodel,
    reg: &mut Registry,
    model: usize,
    parent: Option<RelationFieldRef>,
) -> (r: Result<Identifier, SchemaError>)
    requires
        dm.wf(),
        old(reg).wf(*dm),
        old(reg).complete(),
        model < dm.model_count(),
        dm.parent_wf(model as int, parent),
    ensures
        final(reg).wf(*dm),
        match r {
            Ok(id) => {
                &&& id == spec_make_ident(*dm, Shape::Checked, model, parent)
                &&& final(reg).complete()
                &&& registry_extends(*old(reg), *final(reg))
                &&& final(reg).contains_materialized(id)
                &&& final(reg).materialized_fields(id) == create_fields(*dm, id)
            },
            Err(e) => {
                &&& final(reg).entries@ == old(reg).entries@
                &&& names_malformed_relation(*dm, e)
            },
        },
        dm.linking_wf() ==> r is Ok,
{
    compile_create_type(dm, reg, Shape::Checked, model, parent)
}

/// Builds the unchecked create input type for `model` (nested iff `parent`
/// is given) and every type it references, publishing them in the registry,
/// and returns its identifier. On a malformed description the registry is
/// left exactly as it was and the error names the offending relation.
pub fn unchecked_create_input_type(
    dm: &Datamodel,
    reg: &mut Registry,
    model: usize,
    parent: Option<RelationFieldRef>,
) -> (r: Result<Identifier, SchemaError>)
    requires
        dm.wf(),
        old(reg).wf(*dm),
        old(reg).complete(),
        model < dm.model_count(),
        dm.parent_wf(model as int, parent),
    ensures
        final(reg).wf(*dm),
        match r {
            Ok(id) => {
                &&& id == spec_make_ident(*dm, Shape::Unchecked, model, parent)
                &&& final(reg).complete()
                &&& registry_extends(*old(reg), *final(reg))
                &&& final(reg).contains_materialized(id)
                &&& final(reg).materialized_fields(id) == create_fields(*dm, id)
            },
            Err(e) => {
                &&& final(reg).entries@ == old(reg).entries@
                &&& names_malformed_relation(*dm, e)
            },
        },
        dm.linking_wf() ==> r is Ok,
{
    compile_create_type(dm, reg, Shape::Unchecked, model, parent)
}

/// Shared top-level compilation: runs the recursive builder on a registry
/// with nothing in flight, and undoes its additions when construction fails.
fn compile_create_type(
    dm: &Datamodel,
    reg: &mut Registry,
    shape: Shape,
    model: usize,
    parent: Option<RelationFieldRef>,
) -> (r: Result<Identifier, SchemaError>)
    requires
        dm.wf(),
        old(reg).wf(*dm),
        old(reg).complete(),
        model < dm.model_count(),
        dm.parent_wf(model as int, parent),
    ensures
        final(reg).wf(*dm),
        match r {
            Ok(id) => {
                &&& id == spec_make_ident(*dm, shape, model, parent)
                &&& final(reg).complete()
                &&& registry_extends(*old(reg), *final(reg))
                &&& final(reg).contains_materialized(id)
                &&& final(reg).materialized_fields(id) == create_fields(*dm, id)
            },
            Err(e) => {
                &&& final(reg).entries@ == old(reg).entries@
                &&& names_malformed_relation(*dm, e)
            },
        },
        dm.linking_wf() ==> r is Ok,
{
    let len0 = reg.entries.len();
    match build_create_type(dm, reg, shape, model, parent) {
        Ok(_) => {
            let ident = make_ident(dm, shape, model, parent);
            proof {
                assert forall|k: int| 0 <= k < reg.entry_count() implies reg.materialized_at(
                    k,
                ) by {
                    if k < len0 {
                        assert(reg.entries@[k] == old(reg).entries@[k]);
                        assert(old(reg).materialized_at(k));
                    }
                }
                assert(reg.contains_ident(ident));
                let k = choose|k: int|
                    0 <= k < reg.entry_count() && reg.idents()[k] == ident;
                assert(reg.materialized_at(k));
                assert(reg.contains_materialized(ident));
                crate::registry::lemma_index_unique(*reg, ident, k);
                assert(reg.materialized_fields(ident) == reg.fields_at(k));
                assert(reg.fields_at(k) == create_fields(*dm, reg.idents()[k]));
            }
            Ok(ident)
        },
        Err(e) => {
            let ghost pre_t = *reg;
            reg.entries.truncate(len0);
            proof {
                assert(old(reg).entry_count() == len0);
                assert(reg.entries@ =~= pre_t.entries@.subrange(0, len0 as int));
                assert forall|k: int| 0 <= k < len0 implies reg.entries@[k] == old(
                    reg,
                ).entries@[k] by {
                    assert(pre_t.entries@[k] == old(reg).entries@[k]);
                }
                assert(reg.entries@ =~= old(reg).entries@);
                assert(reg.idents() =~= old(reg).idents());
                assert forall|k: int|
                    0 <= k < reg.entry_count() implies (#[trigger] reg.idents()[k]).wf(*dm) by {
                    assert(reg.idents()[k] == old(reg).idents()[k]);
                }
                assert forall|k: int|
                    0 <= k < reg.entry_count() && reg.materialized_at(k) implies reg.fields_at(k)
                    == create_fields(*dm, reg.idents()[k]) by {
                    assert(reg.entries@[k] == old(reg).entries@[k]);
                    assert(old(reg).materialized_at(k));
                    assert(old(reg).fields_at(k) == create_fields(*dm, old(reg).idents()[k]));
                    assert(reg.fields_at(k) == old(reg).fields_at(k));
                }
                assert(reg.wf(*dm));
            }
            Err(e)
        },
    }
}

} // verus!
