//! The model metadata the compiler reads: models, their fields, and the
//! relation references between them. All of it is immutable input, owned by
//! the metadata provider; fields refer to models and to other fields by index
//! into this description.

use vstd::prelude::*;

verus! {

/// A primitive-valued field on a model.
pub struct ScalarField {
    pub name: String,
    /// The field must be present on the record.
    pub required: bool,
    /// The field has a default value, so a create may omit it.
    pub has_default: bool,
    /// The field is an auto-generated integer identifier.
    pub auto_generated_int_id: bool,
    /// The field cannot be written directly (for instance a foreign key).
    pub read_only: bool,
    /// The field carries a uniqueness constraint.
    pub unique: bool,
}

/// A field that references another model. It is always half of a
/// bidirectional pair: `related_field` names the paired relation field on the
/// target model.
pub struct RelationField {
    pub name: String,
    /// A single related record must exist (ignored for list relations).
    pub required: bool,
    /// The relation holds a list of records rather than a single one.
    pub many: bool,
    /// Index of the target model in the data model.
    pub target_model: usize,
    /// Index, on the target model, of the relation field pointing back here.
    pub related_field: usize,
    /// The foreign key lives on the enclosing model's side.
    pub inlined_on_enclosing_model: bool,
    /// Indices, on the enclosing model, of the scalar fields implementing the
    /// foreign key when the relation is inlined on this side.
    pub linking_fields: Vec<usize>,
}

/// An embedded structured value; no filtering policy ever applies to it.
pub struct CompositeField {
    pub name: String,
    pub required: bool,
}

/// The closed set of field variants a model can carry.
pub enum ModelField {
    Scalar(ScalarField),
    Relation(RelationField),
    Composite(CompositeField),
}

/// A named entity (table or collection) with an ordered list of fields.
pub struct Model {
    pub name: String,
    pub fields: Vec<ModelField>,
}

/// The whole immutable model description. Models are addressed by index.
pub struct Datamodel {
    pub models: Vec<Model>,
}

/// Names one relation field: the model it sits on and its field index there.
/// It never owns the field, it only points at it.
#[derive(Clone, Copy)]
pub struct RelationFieldRef {
    pub model: usize,
    pub field: usize,
}

impl Datamodel {
    pub open spec fn model_count(self) -> int {
        self.models@.len() as int
    }

    pub open spec fn field_count(self, m: int) -> int {
        self.models@[m].fields@.len() as int
    }

    pub open spec fn field_at(self, m: int, i: int) -> ModelField {
        self.models@[m].fields@[i]
    }

    /// The name of field `i` of model `m`, whatever its variant.
    pub open spec fn field_name(self, m: int, i: int) -> Seq<char> {
        match self.field_at(m, i) {
            ModelField::Scalar(sf) => sf.name@,
            ModelField::Relation(rf) => rf.name@,
            ModelField::Composite(cf) => cf.name@,
        }
    }

    /// A relation field sitting on model `m` is well formed when its target
    /// and its back reference exist, the back reference is a relation field
    /// pointing back at `m`, and its linking fields are fields of `m`.
    pub open spec fn relation_wf(self, m: int, rf: RelationField) -> bool {
        &&& rf.target_model < self.model_count()
        &&& rf.related_field < self.field_count(rf.target_model as int)
        &&& match self.field_at(rf.target_model as int, rf.related_field as int) {
            ModelField::Relation(back) => back.target_model == m,
            _ => false,
        }
        &&& forall|l: int|
            0 <= l < rf.linking_fields@.len() ==> rf.linking_fields@[l] < self.field_count(m)
    }

    /// Well-formedness of the whole description: every relation field is
    /// well formed. The metadata provider validates this before handing the
    /// description to the compiler.
    pub open spec fn wf(self) -> bool {
        forall|m: int, i: int|
            0 <= m < self.model_count() && 0 <= i < self.field_count(m)
                ==> (#[trigger] self.field_at(m, i) matches ModelField::Relation(rf)
                ==> self.relation_wf(m, rf))
    }

    /// A reference points at an actual relation field of the description.
    pub open spec fn rel_ref_wf(self, p: RelationFieldRef) -> bool {
        &&& p.model < self.model_count()
        &&& p.field < self.field_count(p.model as int)
        &&& self.field_at(p.model as int, p.field as int) is Relation
    }

    /// The model the referenced relation field points at.
    pub open spec fn target_of(self, p: RelationFieldRef) -> int {
        match self.field_at(p.model as int, p.field as int) {
            ModelField::Relation(rf) => rf.target_model as int,
            _ => 0,
        }
    }

    /// The index, on the target model, of the relation field paired with the
    /// referenced one (the back edge of the traversal).
    pub open spec fn related_of(self, p: RelationFieldRef) -> usize {
        match self.field_at(p.model as int, p.field as int) {
            ModelField::Relation(rf) => rf.related_field,
            _ => 0,
        }
    }

    /// An optional arrival context is valid for compiling `model` when it
    /// references a relation field whose target is `model`.
    pub open spec fn parent_wf(self, model: int, parent: Option<RelationFieldRef>) -> bool {
        match parent {
            None => true,
            Some(p) => self.rel_ref_wf(p) && self.target_of(p) == model,
        }
    }

    /// Every inlined relation's linking fields are scalar. On a description
    /// with this property schema construction never fails.
    pub open spec fn linking_wf(self) -> bool {
        forall|m: int, i: int|
            0 <= m < self.model_count() && 0 <= i < self.field_count(m)
                ==> (#[trigger] self.field_at(m, i) matches ModelField::Relation(rf)
                ==> (rf.inlined_on_enclosing_model ==> forall|l: int|
                    0 <= l < rf.linking_fields@.len()
                        ==> self.field_at(m, rf.linking_fields@[l] as int) is Scalar))
    }

    /// Reads the back-edge field index of a relation reference.
    pub fn related_field_of(&self, p: RelationFieldRef) -> (r: usize)
        requires
            self.rel_ref_wf(p),
        ensures
            r == self.related_of(p),
    {
        match &self.models[p.model].fields[p.field] {
            ModelField::Relation(rf) => rf.related_field,
            _ => 0,
        }
    }
}

} // verus!
