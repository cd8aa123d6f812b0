//! The field mapper: turns one surviving model field into a schema input
//! field. Scalars carry their own required/default attributes as
//! optionality; relation fields reference the two nested create types of
//! their target model, with the traversed relation as the new back edge;
//! composites reference an embedded composite type.

use vstd::prelude::*;
use crate::fields::{FieldModel, InputField, InputTypeRef, nested_type_refs};
use crate::identifier::{Identifier, Shape};
use crate::metadata::{CompositeField, RelationField, ScalarField};

verus! {

/// Maps a scalar field: a direct scalar-typed field, required exactly when
/// the model field is required and has no default.
pub fn map_scalar_field(sf: &ScalarField) -> (r: InputField)
    ensures
        r@ == (FieldModel {
            name: sf.name@,
            types: seq![InputTypeRef::Scalar],
            optional: !sf.required || sf.has_default,
            query_info: None,
        }),
{
    let mut types: Vec<InputTypeRef> = Vec::new();
    types.push(InputTypeRef::Scalar);
    proof {
        assert(types@ =~= seq![InputTypeRef::Scalar]);
    }
    InputField {
        name: sf.name.clone(),
        types,
        optional: !sf.required || sf.has_default,
        query_info: None,
    }
}

/// Maps a composite field: an embedded composite input type, kept in every
/// shape and every traversal context.
pub fn map_composite_field(cf: &CompositeField) -> (r: InputField)
    ensures
        r@ == (FieldModel {
            name: cf.name@,
            types: seq![InputTypeRef::Composite],
            optional: !cf.required,
            query_info: None,
        }),
{
    let mut types: Vec<InputTypeRef> = Vec::new();
    types.push(InputTypeRef::Composite);
    proof {
        assert(types@ =~= seq![InputTypeRef::Composite]);
    }
    InputField { name: cf.name.clone(), types, optional: !cf.required, query_info: None }
}

/// Maps a relation field: a nested-write field whose alternative types are
/// the checked and unchecked create types of the target model, each
/// excluding the back edge of this relation.
pub fn map_relation_field(rf: &RelationField) -> (r: InputField)
    ensures
        r@ == (FieldModel {
            name: rf.name@,
            types: nested_type_refs(rf.target_model, rf.related_field),
            optional: !rf.required || rf.many,
            query_info: None,
        }),
{
    let mut types: Vec<InputTypeRef> = Vec::new();
    types.push(
        InputTypeRef::Object(
            Identifier {
                shape: Shape::Checked,
                model: rf.target_model,
                excluded: Some(rf.related_field),
            },
        ),
    );
    types.push(
        InputTypeRef::Object(
            Identifier {
                shape: Shape::Unchecked,
                model: rf.target_model,
                excluded: Some(rf.related_field),
            },
        ),
    );
    proof {
        assert(types@ =~= nested_type_refs(rf.target_model, rf.related_field));
    }
    InputField { name: rf.name.clone(), types, optional: !rf.required || rf.many, query_info: None }
}

} // verus!
