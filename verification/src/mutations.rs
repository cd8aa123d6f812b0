//! The operation field builder for the create-one mutation: assembles the
//! top-level mutation field — name, `data` argument over the two alternative
//! create shapes, result type and routing tag — from the type compiler's
//! output.

use vstd::prelude::*;
use vstd::string::StringExecFns;
use crate::compiler::{checked_create_input_type, registry_extends, unchecked_create_input_type};
use crate::filters::create_fields;
use crate::fields::{
    FieldModel, InputField, InputTypeRef, OutputField, QueryInfo, QueryTag, SchemaError,
    names_malformed_relation,
};
use crate::identifier::{Shape, spec_make_ident};
use crate::metadata::{Datamodel, ModelField};
use crate::registry::Registry;

verus! {

/// Whether a field's value must be supplied on a create: it is a scalar
/// field that is required and has no default to fall back on. No other
/// variant forces the `data` argument: a required relation can also be
/// satisfied through the unchecked shape's linking scalars, so only a
/// default-less required scalar makes the argument mandatory.
pub open spec fn field_requires_data(f: ModelField) -> bool {
    match f {
        ModelField::Scalar(sf) => sf.required && !sf.has_default,
        ModelField::Relation(_) => false,
        ModelField::Composite(_) => false,
    }
}

/// Whether any scalar field of the model forces the `data` argument to be
/// present.
pub open spec fn any_field_required(dm: Datamodel, model: int) -> bool {
    exists|i: int|
        0 <= i < dm.field_count(model) && field_requires_data(#[trigger] dm.field_at(model, i))
}

/// The value of the `data` argument's field: its type is the two-element
/// alternative set of the model's root checked and unchecked create types,
/// and it is optional exactly when no scalar field of the model is both
/// required and default-less.
pub open spec fn data_field_model(dm: Datamodel, model: usize) -> FieldModel {
    FieldModel {
        name: "data"@,
        types: seq![
            InputTypeRef::Object(spec_make_ident(dm, Shape::Checked, model, None)),
            InputTypeRef::Object(spec_make_ident(dm, Shape::Unchecked, model, None)),
        ],
        optional: !any_field_required(dm, model as int),
    query_info: None,
    }
}

/// Compiles both create shapes for `model` (nested iff `parent` is given)
/// and returns the two-element alternative type set the `data` argument (or
/// a nested write) accepts: exactly one of checked or unchecked.
pub fn create_one_input_types(
    dm: &Datamodel,
    reg: &mut Registry,
    model: usize,
    parent: Option<crate::metadata::RelationFieldRef>,
) -> (r: Result<Vec<InputTypeRef>, SchemaError>)
    requires
        dm.wf(),
        old(reg).wf(*dm),
        old(reg).complete(),
        model < dm.model_count(),
        dm.parent_wf(model as int, parent),
    ensures
        final(reg).wf(*dm),
        match r {
            Ok(v) => {
                &&& v@ =~= seq![
                    InputTypeRef::Object(spec_make_ident(*dm, Shape::Checked, model, parent)),
                    InputTypeRef::Object(spec_make_ident(*dm, Shape::Unchecked, model, parent)),
                ]
                &&& final(reg).complete()
                &&& registry_extends(*old(reg), *final(reg))
                &&& final(reg).contains_materialized(
                    spec_make_ident(*dm, Shape::Checked, model, parent),
                )
                &&& final(reg).contains_materialized(
                    spec_make_ident(*dm, Shape::Unchecked, model, parent),
                )
            },
            Err(e) => {
                &&& final(reg).entries@ == old(reg).entries@
                &&& names_malformed_relation(*dm, e)
            },
        },
        dm.linking_wf() ==> r is Ok,
{
    let len0 = reg.entries.len();
    let checked = match checked_create_input_type(dm, reg, model, parent) {
        Ok(id) => id,
        Err(e) => {
            return Err(e);
        },
    };
    let ghost mid = *reg;
    let unchecked = match unchecked_create_input_type(dm, reg, model, parent) {
        Ok(id) => id,
        Err(e) => {
            let ghost pre = *reg;
            reg.entries.truncate(len0);
            proof {
                assert(pre.entries@ == mid.entries@);
                assert(reg.entries@ =~= pre.entries@.subrange(0, len0 as int));
                assert forall|k: int| 0 <= k < len0 implies reg.entries@[k] == old(
                    reg,
                ).entries@[k] by {
                    assert(mid.entries@[k] == old(reg).entries@[k]);
                }
                assert(reg.entries@ =~= old(reg).entries@);
                assert(reg.idents() =~= old(reg).idents());
                assert forall|k: int|
                    0 <= k < reg.entry_count() implies (#[trigger] reg.idents()[k]).wf(*dm) by {
                    assert(reg.idents()[k] == old(reg).idents()[k]);
                }
                assert forall|k: int|
                    0 <= k < reg.entry_count() && reg.materialized_at(k) implies reg.fields_at(k)
                    == create_fields(*dm, reg.idents()[k]) by {
                    assert(reg.entries@[k] == old(reg).entries@[k]);
                    assert(old(reg).materialized_at(k));
                    assert(old(reg).fields_at(k) == create_fields(*dm, old(reg).idents()[k]));
                    assert(reg.fields_at(k) == old(reg).fields_at(k));
                }
                assert(reg.wf(*dm));
            }
            return Err(e);
        },
    };
    proof {
        let cid = spec_make_ident(*dm, Shape::Checked, model, parent);
        assert(mid.contains_materialized(cid));
        let k = choose|k: int|
            0 <= k < mid.entry_count() && mid.idents()[k] == cid && mid.materialized_at(k);
        assert(reg.entries@[k] == mid.entries@[k]);
        assert(0 <= k < reg.entry_count());
        assert(reg.idents()[k] == mid.idents()[k]);
        assert(reg.materialized_at(k));
        assert(reg.contains_materialized(cid));
    }
    let mut v: Vec<InputTypeRef> = Vec::new();
    v.push(InputTypeRef::Object(checked));
    v.push(InputTypeRef::Object(unchecked));
    Ok(v)
}

/// Whether any scalar field of the model makes the `data` argument
/// mandatory.
fn compute_any_field_required(dm: &Datamodel, model: usize) -> (r: bool)
    requires
        model < dm.model_count(),
    ensures
        r == any_field_required(*dm, model as int),
{
    let fields = &dm.models[model].fields;
    let mut i: usize = 0;
    while i < fields.len()
        invariant
            model < dm.model_count(),
            fields == &dm.models@[model as int].fields,
            i <= dm.field_count(model as int),
            forall|l: int|
                0 <= l < i ==> !field_requires_data(#[trigger] dm.field_at(model as int, l)),
        decreases fields@.len() - i,
    {
        let required = match &fields[i] {
            ModelField::Scalar(sf) => sf.required && !sf.has_default,
            ModelField::Relation(_) => false,
            ModelField::Composite(_) => false,
        };
        proof {
            assert(required == field_requires_data(dm.field_at(model as int, i as int)));
        }
        if required {
            return true;
        }
        i += 1;
    }
    false
}

/// Builds the argument list of the create-one mutation: the `data` argument
/// first — optional unless some scalar field is required and default-less —
/// followed by the externally supplied auxiliary arguments, passed through
/// verbatim.
pub fn create_one_arguments(
    dm: &Datamodel,
    reg: &mut Registry,
    model: usize,
    aux_arguments: Vec<InputField>,
) -> (r: Result<Vec<InputField>, SchemaError>)
    requires
        dm.wf(),
        old(reg).wf(*dm),
        old(reg).complete(),
        model < dm.model_count(),
    ensures
        final(reg).wf(*dm),
        match r {
            Ok(v) => {
                &&& v@.len() == 1 + aux_arguments@.len()
                &&& v@[0]@ =~~= data_field_model(*dm, model)
                &&& forall|l: int| 0 <= l < aux_arguments@.len() ==> v@[l + 1] == aux_arguments@[l]
                &&& final(reg).complete()
                &&& registry_extends(*old(reg), *final(reg))
                &&& final(reg).contains_materialized(
                    spec_make_ident(*dm, Shape::Checked, model, None),
                )
                &&& final(reg).contains_materialized(
                    spec_make_ident(*dm, Shape::Unchecked, model, None),
                )
            },
            Err(e) => {
                &&& final(reg).entries@ == old(reg).entries@
                &&& names_malformed_relation(*dm, e)
            },
        },
        dm.linking_wf() ==> r is Ok,
{
    let any_required = compute_any_field_required(dm, model);
    let create_types = match create_one_input_types(dm, reg, model, None) {
        Ok(v) => v,
        Err(e) => {
            return Err(e);
        },
    };
    let data_field = InputField {
        name: String::from_str("data"),
        types: create_types,
        optional: !any_required,
        query_info: None,
    };
    let mut v: Vec<InputField> = Vec::new();
    v.push(data_field);
    let mut aux = aux_arguments;
    v.append(&mut aux);
    Ok(v)
}

/// Builds the create-one mutation field for the model: named
/// `createOne<Model>`, carrying the `data` argument and the auxiliary
/// arguments, returning the model's externally supplied output object type,
/// and tagged for routing as a create on this model.
pub fn create_one(
    dm: &Datamodel,
    reg: &mut Registry,
    model: usize,
    aux_arguments: Vec<InputField>,
) -> (r: Result<OutputField, SchemaError>)
    requires
        dm.wf(),
        old(reg).wf(*dm),
        old(reg).complete(),
        model < dm.model_count(),
    ensures
        final(reg).wf(*dm),
        match r {
            Ok(of) => {
                &&& of.name@ == "createOne"@ + dm.models@[model as int].name@
                &&& of.result_model == model
                &&& of.query_info == Some(
                    QueryInfo { model: Some(model), tag: QueryTag::CreateOne },
                )
                &&& of.arguments@.len() == 1 + aux_arguments@.len()
                &&& of.arguments@[0]@ =~~= data_field_model(*dm, model)
                &&& forall|l: int|
                    0 <= l < aux_arguments@.len() ==> of.arguments@[l + 1] == aux_arguments@[l]
                &&& final(reg).complete()
                &&& registry_extends(*old(reg), *final(reg))
                &&& final(reg).contains_materialized(
                    spec_make_ident(*dm, Shape::Checked, model, None),
                )
                &&& final(reg).contains_materialized(
                    spec_make_ident(*dm, Shape::Unchecked, model, None),
                )
            },
            Err(e) => {
                &&& final(reg).entries@ == old(reg).entries@
                &&& names_malformed_relation(*dm, e)
            },
        },
        dm.linking_wf() ==> r is Ok,
{
    let field_name = String::from_str("createOne").concat(dm.models[model].name.as_str());
    let arguments = match create_one_arguments(dm, reg, model, aux_arguments) {
        Ok(v) => v,
        Err(e) => {
            return Err(e);
        },
    };
    Ok(
        OutputField {
            name: field_name,
            arguments,
            result_model: model,
            query_info: Some(QueryInfo { model: Some(model), tag: QueryTag::CreateOne }),
        },
    )
}

} // verus!
