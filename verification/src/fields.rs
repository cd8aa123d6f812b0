//! What the compiler produces: schema input fields with their type
//! references, optionality and routing metadata, the top-level mutation
//! field, and the fatal error raised on a malformed model description.

use vstd::prelude::*;
use crate::identifier::{Identifier, Shape};
use crate::metadata::{Datamodel, ModelField};

verus! {

/// A reference to the type of an input field. Object types are named by
/// identifier and live in the registry; scalar and composite types are leaf
/// references, opaque to this compiler.
#[derive(Clone, Copy, Debug)]
pub enum InputTypeRef {
    Scalar,
    Object(Identifier),
    Composite,
}

/// Tags the operation a mutation field routes to.
#[derive(Clone, Copy, PartialEq, Eq, Structural, Debug)]
pub enum QueryTag {
    CreateOne,
}

/// Routing metadata: which model and which operation a field corresponds to.
/// Attached verbatim for the downstream planner; opaque to this compiler.
#[derive(Clone, Copy, PartialEq, Eq, Structural, Debug)]
pub struct QueryInfo {
    pub model: Option<usize>,
    pub tag: QueryTag,
}

/// An input field of a schema object type: a name, one or more alternative
/// type references (a field accepts exactly one of them), an optionality
/// flag, and optional routing metadata.
#[derive(Debug)]
pub struct InputField {
    pub name: String,
    pub types: Vec<InputTypeRef>,
    pub optional: bool,
    pub query_info: Option<QueryInfo>,
}

/// The mathematical value of an input field: its name as a character
/// sequence, its alternative types, its flags.
#[verifier::ext_equal]
pub struct FieldModel {
    pub name: Seq<char>,
    pub types: Seq<InputTypeRef>,
    pub optional: bool,
    pub query_info: Option<QueryInfo>,
}

impl View for InputField {
    type V = FieldModel;

    open spec fn view(&self) -> FieldModel {
        FieldModel {
            name: self.name@,
            types: self.types@,
            optional: self.optional,
            query_info: self.query_info,
        }
    }
}

/// The values of a whole field list.
pub open spec fn fields_model(s: Seq<InputField>) -> Seq<FieldModel> {
    s.map_values(|f: InputField| f@)
}

/// The top-level mutation field: name, argument list, the model whose
/// externally supplied output object type is the result, and routing
/// metadata.
#[derive(Debug)]
pub struct OutputField {
    pub name: String,
    pub arguments: Vec<InputField>,
    pub result_model: usize,
    pub query_info: Option<QueryInfo>,
}

/// A schema-consistency violation: the linking fields of the named relation
/// field are not all scalar. Raised during the one-time compilation pass;
/// never a per-request error.
#[derive(Debug)]
pub struct SchemaError {
    /// Index of the model the offending relation field sits on.
    pub model: usize,
    /// Index of the offending relation field on that model.
    pub field: usize,
    pub model_name: String,
    pub relation_name: String,
}

/// The error names a genuinely malformed relation: an inlined relation field
/// one of whose linking fields is not scalar.
pub open spec fn names_malformed_relation(dm: Datamodel, e: SchemaError) -> bool {
    &&& e.model < dm.model_count()
    &&& e.field < dm.field_count(e.model as int)
    &&& match dm.field_at(e.model as int, e.field as int) {
        ModelField::Relation(rf) => {
            &&& rf.inlined_on_enclosing_model
            &&& exists|l: int|
                0 <= l < rf.linking_fields@.len()
                    && !(dm.field_at(e.model as int, #[trigger] rf.linking_fields@[l] as int)
                    is Scalar)
            &&& e.relation_name@ == rf.name@
        },
        _ => false,
    }
    &&& e.model_name@ == dm.models@[e.model as int].name@
}

/// The two alternative object types a nested relation field accepts: the
/// checked and the unchecked create type of the target model, each excluding
/// the back edge of the relation just traversed.
pub open spec fn nested_type_refs(target_model: usize, back_edge: usize) -> Seq<InputTypeRef> {
    seq![
        InputTypeRef::Object(
            Identifier { shape: Shape::Checked, model: target_model, excluded: Some(back_edge) },
        ),
        InputTypeRef::Object(
            Identifier { shape: Shape::Unchecked, model: target_model, excluded: Some(back_edge) },
        ),
    ]
}

/// The schema field a surviving model field maps to. Scalars carry their own
/// required/default attributes as optionality; relation fields reference the
/// two nested create types of their target, excluding the edge being
/// traversed; composites reference an embedded composite type.
pub open spec fn field_model_of(dm: Datamodel, m: int, i: int) -> FieldModel {
    match dm.field_at(m, i) {
        ModelField::Scalar(sf) => FieldModel {
            name: sf.name@,
            types: seq![InputTypeRef::Scalar],
            optional: !sf.required || sf.has_default,
            query_info: None,
        },
        ModelField::Relation(rf) => FieldModel {
            name: rf.name@,
            types: nested_type_refs(rf.target_model, rf.related_field),
            optional: !rf.required || rf.many,
            query_info: None,
        },
        ModelField::Composite(cf) => FieldModel {
            name: cf.name@,
            types: seq![InputTypeRef::Composite],
            optional: !cf.required,
            query_info: None,
        },
    }
}

} // verus!
