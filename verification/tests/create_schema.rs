//! End-to-end tests of the create-mutation schema compiler on the classic
//! one-to-many pair: `User` 1-n `Post`, with `author`/`posts` a bidirectional
//! relation and `authorId` the linking scalar on `Post`.

use schema::fields::{InputField, InputTypeRef, QueryTag};
use schema::identifier::{Identifier, Shape};
use schema::metadata::{
    CompositeField, Datamodel, Model, ModelField, RelationField, RelationFieldRef, ScalarField,
};
use schema::mutations::{create_one, create_one_arguments, create_one_input_types};
use schema::compiler::{checked_create_input_type, unchecked_create_input_type};
use schema::filters::{filter_checked_create_fields, filter_unchecked_create_fields};
use schema::registry::Registry;

fn scalar(name: &str, required: bool, has_default: bool, auto: bool, read_only: bool) -> ModelField {
    ModelField::Scalar(ScalarField {
        name: name.to_string(),
        required,
        has_default,
        auto_generated_int_id: auto,
        read_only,
        unique: false,
    })
}

/// models[0] = User { id, name, posts }, models[1] = Post { id, title, author, authorId }
fn user_post_dm() -> Datamodel {
    let user = Model {
        name: "User".to_string(),
        fields: vec![
            scalar("id", true, true, true, false),
            scalar("name", true, false, false, false),
            ModelField::Relation(RelationField {
                name: "posts".to_string(),
                required: false,
                many: true,
                target_model: 1,
                related_field: 2,
                inlined_on_enclosing_model: false,
                linking_fields: vec![],
            }),
        ],
    };
    let post = Model {
        name: "Post".to_string(),
        fields: vec![
            scalar("id", true, true, true, false),
            scalar("title", true, false, false, false),
            ModelField::Relation(RelationField {
                name: "author".to_string(),
                required: true,
                many: false,
                target_model: 0,
                related_field: 2,
                inlined_on_enclosing_model: true,
                linking_fields: vec![3],
            }),
            scalar("authorId", true, false, false, true),
        ],
    };
    Datamodel { models: vec![user, post] }
}

fn names(fields: &Vec<InputField>) -> Vec<String> {
    fields.iter().map(|f| f.name.clone()).collect()
}

#[test]
fn create_one_user_shape() {
    let dm = user_post_dm();
    let mut reg = Registry::new();
    let of = create_one(&dm, &mut reg, 0, vec![]).unwrap();
    assert_eq!(of.name, "createOneUser");
    assert_eq!(of.result_model, 0);
    let qi = of.query_info.unwrap();
    assert_eq!(qi.model, Some(0));
    assert!(matches!(qi.tag, QueryTag::CreateOne));
    assert_eq!(of.arguments.len(), 1);
    let data = &of.arguments[0];
    assert_eq!(data.name, "data");
    // User.name is required without a default, so the data argument is mandatory.
    assert!(!data.optional);
    // data accepts exactly one of the two root create shapes.
    assert_eq!(data.types.len(), 2);
    assert!(matches!(
        data.types[0],
        InputTypeRef::Object(Identifier { shape: Shape::Checked, model: 0, excluded: None })
    ));
    assert!(matches!(
        data.types[1],
        InputTypeRef::Object(Identifier { shape: Shape::Unchecked, model: 0, excluded: None })
    ));
}

#[test]
fn data_argument_optional_when_nothing_required() {
    // Post-like model with an autoincrement id and a title with a default:
    // no scalar field is required without a default, so the data argument
    // may be omitted.
    let dm = Datamodel {
        models: vec![Model {
            name: "Post".to_string(),
            fields: vec![
                scalar("id", true, true, true, false),
                scalar("title", false, true, false, false),
            ],
        }],
    };
    let mut reg = Registry::new();
    let args = create_one_arguments(&dm, &mut reg, 0, vec![]).unwrap();
    assert_eq!(args.len(), 1);
    assert!(args[0].optional);
}

#[test]
fn auxiliary_arguments_pass_through() {
    let dm = user_post_dm();
    let mut reg = Registry::new();
    let aux = vec![InputField {
        name: "relationLoadStrategy".to_string(),
        types: vec![InputTypeRef::Scalar],
        optional: true,
        query_info: None,
    }];
    let of = create_one(&dm, &mut reg, 0, aux).unwrap();
    assert_eq!(of.arguments.len(), 2);
    assert_eq!(of.arguments[0].name, "data");
    assert_eq!(of.arguments[1].name, "relationLoadStrategy");
}

#[test]
fn checked_create_excludes_auto_id() {
    let dm = user_post_dm();
    let mut reg = Registry::new();
    let checked = checked_create_input_type(&dm, &mut reg, 0, None).unwrap();
    let fields = reg.fields_of(&checked).unwrap();
    // The auto-generated integer id is never offered in the checked shape.
    assert_eq!(names(fields), vec!["name".to_string(), "posts".to_string()]);
    // No such exclusion applies in the unchecked shape: the id is offered.
    let unchecked = unchecked_create_input_type(&dm, &mut reg, 0, None).unwrap();
    let fields = reg.fields_of(&unchecked).unwrap();
    assert_eq!(
        names(fields),
        vec!["id".to_string(), "name".to_string(), "posts".to_string()]
    );
}

#[test]
fn unchecked_linking_field_exclusion() {
    let dm = user_post_dm();
    let mut reg = Registry::new();
    // Nested: Post reached through User.posts; authorId implements the
    // traversed relation's foreign key, so it is left out, as are the
    // inlined relation field author and nothing else.
    let posts_edge = RelationFieldRef { model: 0, field: 2 };
    let nested = unchecked_create_input_type(&dm, &mut reg, 1, Some(posts_edge)).unwrap();
    let fields = reg.fields_of(&nested).unwrap();
    assert_eq!(names(fields), vec!["id".to_string(), "title".to_string()]);
    // Root: with no traversal context there is nothing to exclude; authorId
    // is offered (the inlined relation author still is not).
    let root = unchecked_create_input_type(&dm, &mut reg, 1, None).unwrap();
    let fields = reg.fields_of(&root).unwrap();
    assert_eq!(
        names(fields),
        vec!["id".to_string(), "title".to_string(), "authorId".to_string()]
    );
}

#[test]
fn cycle_terminates_at_back_edge() {
    let dm = user_post_dm();
    let mut reg = Registry::new();
    // Compiling User arrived through Post.author: its back edge on User is
    // posts, which disappears from the field list.
    let author_edge = RelationFieldRef { model: 1, field: 2 };
    let checked = checked_create_input_type(&dm, &mut reg, 0, Some(author_edge)).unwrap();
    let fields = reg.fields_of(&checked).unwrap();
    assert_eq!(names(fields), vec!["name".to_string()]);
    // And compiling Post arrived through User.posts excludes author: one
    // level of nesting and the bidirectional pair is exhausted.
    let posts_edge = RelationFieldRef { model: 0, field: 2 };
    let nested_checked = checked_create_input_type(&dm, &mut reg, 1, Some(posts_edge)).unwrap();
    let fields = reg.fields_of(&nested_checked).unwrap();
    // id is auto-generated, author is the back edge, authorId is read-only.
    assert_eq!(names(fields), vec!["title".to_string()]);
}

#[test]
fn nested_types_reachable_from_root() {
    let dm = user_post_dm();
    let mut reg = Registry::new();
    // Compiling the root User types also publishes the nested Post types the
    // posts field references, with author as their excluded back edge.
    create_one_input_types(&dm, &mut reg, 0, None).unwrap();
    let nested_checked = Identifier { shape: Shape::Checked, model: 1, excluded: Some(2) };
    let fields = reg.fields_of(&nested_checked).unwrap();
    assert_eq!(names(fields), vec!["title".to_string()]);
    let nested_unchecked = Identifier { shape: Shape::Unchecked, model: 1, excluded: Some(2) };
    let fields = reg.fields_of(&nested_unchecked).unwrap();
    assert_eq!(names(fields), vec!["id".to_string(), "title".to_string()]);
}

#[test]
fn compilation_is_deterministic_and_shared() {
    let dm = user_post_dm();
    // Two independent registries derive identical field lists.
    let mut r1 = Registry::new();
    let mut r2 = Registry::new();
    let id1 = checked_create_input_type(&dm, &mut r1, 0, None).unwrap();
    let id2 = checked_create_input_type(&dm, &mut r2, 0, None).unwrap();
    assert!(id1.same_as(&id2));
    let f1 = r1.fields_of(&id1).unwrap();
    let f2 = r2.fields_of(&id2).unwrap();
    assert_eq!(names(f1), names(f2));
    assert_eq!(f1.len(), f2.len());
    for (a, b) in f1.iter().zip(f2.iter()) {
        assert_eq!(a.optional, b.optional);
    }
    // Recompiling in the same registry adds nothing: the cached definition
    // is the canonical one.
    let before = r1.entries.len();
    let id3 = checked_create_input_type(&dm, &mut r1, 0, None).unwrap();
    assert!(id1.same_as(&id3));
    assert_eq!(r1.entries.len(), before);
}

#[test]
fn composite_fields_always_present() {
    // A pair of related models, each carrying a composite field: the
    // composite survives every shape and every traversal context.
    let a = Model {
        name: "Order".to_string(),
        fields: vec![
            scalar("id", true, true, true, false),
            ModelField::Composite(CompositeField { name: "address".to_string(), required: true }),
            ModelField::Relation(RelationField {
                name: "customer".to_string(),
                required: true,
                many: false,
                target_model: 1,
                related_field: 1,
                inlined_on_enclosing_model: true,
                linking_fields: vec![3],
            }),
            scalar("customerId", true, false, false, true),
        ],
    };
    let b = Model {
        name: "Customer".to_string(),
        fields: vec![
            scalar("id", true, true, true, false),
            ModelField::Relation(RelationField {
                name: "orders".to_string(),
                required: false,
                many: true,
                target_model: 0,
                related_field: 2,
                inlined_on_enclosing_model: false,
                linking_fields: vec![],
            }),
        ],
    };
    let dm = Datamodel { models: vec![a, b] };
    let mut reg = Registry::new();
    let edge = RelationFieldRef { model: 1, field: 1 };
    let cases = [
        checked_create_input_type(&dm, &mut reg, 0, None).unwrap(),
        unchecked_create_input_type(&dm, &mut reg, 0, None).unwrap(),
        checked_create_input_type(&dm, &mut reg, 0, Some(edge)).unwrap(),
        unchecked_create_input_type(&dm, &mut reg, 0, Some(edge)).unwrap(),
    ];
    for id in cases.iter() {
        let fields = reg.fields_of(id).unwrap();
        assert!(names(fields).contains(&"address".to_string()));
    }
}

#[test]
fn malformed_linking_fields_fail_fatally() {
    // Order.customer claims its foreign key lives in field 2 — which is the
    // relation field itself, not a scalar: a schema-consistency violation.
    let a = Model {
        name: "Order".to_string(),
        fields: vec![
            scalar("id", true, true, true, false),
            scalar("customerId", true, false, false, true),
            ModelField::Relation(RelationField {
                name: "customer".to_string(),
                required: true,
                many: false,
                target_model: 1,
                related_field: 1,
                inlined_on_enclosing_model: true,
                linking_fields: vec![2],
            }),
        ],
    };
    let b = Model {
        name: "Customer".to_string(),
        fields: vec![
            scalar("id", true, true, true, false),
            ModelField::Relation(RelationField {
                name: "orders".to_string(),
                required: false,
                many: true,
                target_model: 0,
                related_field: 2,
                inlined_on_enclosing_model: false,
                linking_fields: vec![],
            }),
        ],
    };
    let dm = Datamodel { models: vec![a, b] };
    // The filter itself reports the offending relation.
    let edge = RelationFieldRef { model: 1, field: 1 };
    let err = filter_unchecked_create_fields(&dm, 0, Some(edge)).unwrap_err();
    assert_eq!(err.model, 0);
    assert_eq!(err.field, 2);
    assert_eq!(err.model_name, "Order");
    assert_eq!(err.relation_name, "customer");
    // Building the whole mutation halts on the same diagnostic, and the
    // registry is left untouched.
    let mut reg = Registry::new();
    let err = create_one(&dm, &mut reg, 1, vec![]).unwrap_err();
    assert_eq!(err.model, 0);
    assert_eq!(err.field, 2);
    assert_eq!(reg.entries.len(), 0);
}

#[test]
fn checked_filter_keeps_writable_fields() {
    let dm = user_post_dm();
    // Root Post, checked: id is auto-generated, authorId read-only; title
    // and the author relation survive.
    let kept = filter_checked_create_fields(&dm, 1, None);
    assert_eq!(kept, vec![1, 2]);
    // Root Post, unchecked: the inlined author relation is expressed as its
    // linking scalar instead.
    let kept = filter_unchecked_create_fields(&dm, 1, None).unwrap();
    assert_eq!(kept, vec![0, 1, 3]);
}

#[test]
fn end_to_end_user_post_scenario() {
    let dm = user_post_dm();
    let mut reg = Registry::new();
    let user = create_one(&dm, &mut reg, 0, vec![]).unwrap();
    assert_eq!(user.name, "createOneUser");
    // Root checked User: name plus the posts nested-write field.
    let root_checked = Identifier { shape: Shape::Checked, model: 0, excluded: None };
    let fields = reg.fields_of(&root_checked).unwrap();
    assert_eq!(names(fields), vec!["name".to_string(), "posts".to_string()]);
    // The posts field accepts the two nested Post create shapes, both
    // excluding the author back edge.
    let posts = &fields[1];
    assert!(posts.optional);
    assert!(matches!(
        posts.types[0],
        InputTypeRef::Object(Identifier { shape: Shape::Checked, model: 1, excluded: Some(2) })
    ));
    assert!(matches!(
        posts.types[1],
        InputTypeRef::Object(Identifier { shape: Shape::Unchecked, model: 1, excluded: Some(2) })
    ));
    // Nested Post, checked: only title (no author, no id, no authorId).
    let nested_checked = Identifier { shape: Shape::Checked, model: 1, excluded: Some(2) };
    assert_eq!(names(reg.fields_of(&nested_checked).unwrap()), vec!["title".to_string()]);
    // Nested Post, unchecked: no authorId, no author; the auto id stays.
    let nested_unchecked = Identifier { shape: Shape::Unchecked, model: 1, excluded: Some(2) };
    assert_eq!(
        names(reg.fields_of(&nested_unchecked).unwrap()),
        vec!["id".to_string(), "title".to_string()]
    );
    // Top-level createOnePost, unchecked: authorId present, no parent
    // context to exclude it.
    let post = create_one(&dm, &mut reg, 1, vec![]).unwrap();
    assert_eq!(post.name, "createOnePost");
    let root_unchecked = Identifier { shape: Shape::Unchecked, model: 1, excluded: None };
    assert_eq!(
        names(reg.fields_of(&root_unchecked).unwrap()),
        vec!["id".to_string(), "title".to_string(), "authorId".to_string()]
    );
    // The data argument of createOnePost is still required: the scalar
    // title is required and has no default.
    assert!(!post.arguments[0].optional);
}

#[test]
fn scalar_field_optionality_follows_default() {
    let dm = user_post_dm();
    let mut reg = Registry::new();
    let checked = checked_create_input_type(&dm, &mut reg, 0, None).unwrap();
    let fields = reg.fields_of(&checked).unwrap();
    // name: required, no default: mandatory in the input.
    assert_eq!(fields[0].name, "name");
    assert!(!fields[0].optional);
    // posts: a list nested write is always optional.
    assert_eq!(fields[1].name, "posts");
    assert!(fields[1].optional);
}

#[test]
fn registry_misses_uncompiled_identifier() {
    let dm = user_post_dm();
    let mut reg = Registry::new();
    checked_create_input_type(&dm, &mut reg, 0, None).unwrap();
    // Compiling the root checked User type publishes exactly the types it
    // references: the nested Post types, not an unchecked User variant.
    let unknown = Identifier { shape: Shape::Unchecked, model: 0, excluded: None };
    assert!(reg.fields_of(&unknown).is_none());
    assert_eq!(reg.entries.len(), 3);
}

#[test]
fn identifiers_differ_by_every_component() {
    let a = Identifier { shape: Shape::Checked, model: 0, excluded: None };
    assert!(a.same_as(&a.clone()));
    assert!(!a.same_as(&Identifier { shape: Shape::Unchecked, model: 0, excluded: None }));
    assert!(!a.same_as(&Identifier { shape: Shape::Checked, model: 1, excluded: None }));
    assert!(!a.same_as(&Identifier { shape: Shape::Checked, model: 0, excluded: Some(0) }));
}

#[test]
fn required_relation_alone_leaves_data_optional() {
    // Only scalar fields decide the data argument: a model whose sole field
    // is a required to-one relation still has an optional data argument.
    let a = Model {
        name: "Profile".to_string(),
        fields: vec![ModelField::Relation(RelationField {
            name: "owner".to_string(),
            required: true,
            many: false,
            target_model: 1,
            related_field: 0,
            inlined_on_enclosing_model: false,
            linking_fields: vec![],
        })],
    };
    let b = Model {
        name: "Account".to_string(),
        fields: vec![ModelField::Relation(RelationField {
            name: "profile".to_string(),
            required: false,
            many: false,
            target_model: 0,
            related_field: 0,
            inlined_on_enclosing_model: false,
            linking_fields: vec![],
        })],
    };
    let dm = Datamodel { models: vec![a, b] };
    let mut reg = Registry::new();
    let args = create_one_arguments(&dm, &mut reg, 0, vec![]).unwrap();
    assert_eq!(args[0].name, "data");
    assert!(args[0].optional);
}
