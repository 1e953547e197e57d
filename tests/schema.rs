use bdmg::attributes::{Attribute, AttributeType, BaseAttributeType};
use bdmg::introspection::{BackReference, Error};
use bdmg::object::{Object, SchemaError};
use bdmg::objectdb::{ObjectDB, RustOutputType};
use bdmg::category::{compare_text, create_category_mapping, Category};
use bdmg::planner::{diagram_shape, plan, DiagramShape, GetterKind, JoinEndpoint, Traversal};

fn attr(name: &str, is: AttributeType, mutable: bool, indexable: bool) -> Attribute {
    Attribute::new(String::from(name), is, None, Some(mutable), Some(indexable), None)
}

fn reference(name: &str, target: &str) -> Attribute {
    attr(
        name,
        AttributeType::Mandatory(BaseAttributeType::Reference(String::from(target))),
        false,
        false,
    )
}

fn object(name: &str, attrs: Vec<Attribute>) -> Object {
    Object::new(
        String::from(name),
        name.to_lowercase(),
        attrs,
        None,
        None,
        None,
    )
}

fn schema(objects: Vec<Object>) -> ObjectDB {
    ObjectDB::new(String::from("out"), Some(RustOutputType::Module), objects).unwrap()
}

fn back_ref(object: &str, attribute: &str) -> BackReference {
    BackReference::new(String::from(object), String::from(attribute))
}

#[test]
fn validate_reports_dangling_reference() {
    let db = schema(vec![
        object("Z", vec![]),
        object("X", vec![reference("yid", "Y")]),
    ]);
    assert_eq!(
        Err(SchemaError::DanglingReference {
            object: String::from("X"),
            attribute: String::from("yid"),
            target: String::from("Y"),
        }),
        db.validate()
    );
}

#[test]
fn validate_accepts_resolved_schema() {
    let db = schema(vec![
        object("B", vec![]),
        object("A", vec![reference("bid", "B")]),
    ]);
    assert_eq!(Ok(()), db.validate());
}

#[test]
fn duplicate_names_are_refused() {
    let r = ObjectDB::new(
        String::from("out"),
        None,
        vec![object("A", vec![]), object("B", vec![]), object("A", vec![])],
    );
    assert_eq!(Some(SchemaError::DuplicateObjectName(String::from("A"))), r.err());
}

#[test]
fn duplicate_attribute_names_are_refused() {
    let r = ObjectDB::new(
        String::from("out"),
        None,
        vec![
            object("B", vec![]),
            object("A", vec![reference("bid", "B"), reference("cid", "B"), reference("bid", "B")]),
        ],
    );
    assert_eq!(
        Some(SchemaError::DuplicateAttributeName {
            object: String::from("A"),
            attribute: String::from("bid"),
        }),
        r.err()
    );
}

#[test]
fn back_reference_single_attribute() {
    let db = schema(vec![
        object("A", vec![reference("bid", "B")]),
        object("B", vec![]),
    ]);
    let b = db.get_object("B").unwrap();
    assert_eq!(&vec![back_ref("A", "bid")], b.get_referencing_objects());
    assert!(b.is_referenced());
    assert!(!db.get_object("A").unwrap().is_referenced());
}

#[test]
fn back_reference_two_attributes() {
    let db = schema(vec![
        object("A", vec![reference("bid", "B"), reference("other_bid", "B")]),
        object("B", vec![]),
    ]);
    let b = db.get_object("B").unwrap();
    assert_eq!(
        &vec![back_ref("A", "bid"), back_ref("A", "other_bid")],
        b.get_referencing_objects()
    );
}

#[test]
fn back_references_follow_declaration_order() {
    let db = schema(vec![
        object("C", vec![reference("tid", "T")]),
        object("T", vec![reference("self_id", "T")]),
        object("A", vec![reference("tid", "T"), reference("missing", "Nowhere")]),
    ]);
    let t = db.get_object("T").unwrap();
    assert_eq!(
        &vec![back_ref("C", "tid"), back_ref("T", "self_id"), back_ref("A", "tid")],
        t.get_referencing_objects()
    );
    assert!(db.get_object("Nowhere").is_none());
}

#[test]
fn join_record_classification() {
    let rel = object("Rel", vec![reference("aid", "A"), reference("bid", "B")]);
    let (first, second) = rel.is_object_immutable_relation().unwrap();
    assert_eq!("aid", first.get_name());
    assert_eq!("bid", second.get_name());
    assert_eq!(
        Some((&String::from("A"), &String::from("B"))),
        rel.is_object_relation()
    );

    let three = object(
        "Rel",
        vec![reference("aid", "A"), reference("bid", "B"), reference("cid", "C")],
    );
    assert!(three.is_object_immutable_relation().is_none());
    assert!(three.is_object_relation().is_none());

    let mutable = object(
        "Rel",
        vec![
            reference("aid", "A"),
            attr(
                "bid",
                AttributeType::Mandatory(BaseAttributeType::Reference(String::from("B"))),
                true,
                false,
            ),
        ],
    );
    assert!(mutable.is_object_immutable_relation().is_none());
    assert!(mutable.is_object_relation().is_some());

    let optional = object(
        "Rel",
        vec![
            reference("aid", "A"),
            attr(
                "bid",
                AttributeType::Optional(BaseAttributeType::Reference(String::from("B"))),
                false,
                false,
            ),
        ],
    );
    assert!(optional.is_object_immutable_relation().is_none());

    let plain = object(
        "Rel",
        vec![
            reference("aid", "A"),
            attr("n", AttributeType::Mandatory(BaseAttributeType::Integer), false, false),
        ],
    );
    assert!(plain.is_object_immutable_relation().is_none());
}

#[test]
fn object_queries() {
    let o = object(
        "A",
        vec![
            Attribute::new(
                String::from("secret"),
                AttributeType::Mandatory(BaseAttributeType::String),
                None,
                None,
                None,
                Some(true),
            ),
            reference("b1", "B"),
            reference("b2", "B"),
        ],
    );
    assert!(o.has_attributes());
    assert!(o.has_public_attributes());
    assert!(o.has_relations());
    assert_eq!("b1", o.get_relation_attribute("B").unwrap().get_name());
    assert!(o.get_relation_attribute("C").is_none());

    let hidden = object(
        "H",
        vec![Attribute::new(
            String::from("secret"),
            AttributeType::Mandatory(BaseAttributeType::String),
            None,
            None,
            None,
            Some(true),
        )],
    );
    assert!(!hidden.has_public_attributes());
    assert!(!hidden.has_relations());
    assert!(!object("E", vec![]).has_attributes());
}

#[test]
fn capability_plan() {
    let db = schema(vec![
        object(
            "A",
            vec![
                attr("code", AttributeType::Mandatory(BaseAttributeType::String), false, true),
                attr("count", AttributeType::Optional(BaseAttributeType::Integer), true, false),
            ],
        ),
        object("C", vec![]),
        object("B", vec![reference("aid", "A"), reference("cid", "C")]),
        object("D", vec![reference("owner", "A")]),
    ]);
    let a = db.get_object("A").unwrap();
    let caps = plan(a, &db);
    assert_eq!(vec![String::from("code")], caps.load_by_attribute);
    assert_eq!(vec![String::from("count")], caps.setters);
    assert!(caps.load_by_content.is_none());
    assert_eq!(2, caps.getters.len());
    assert_eq!(GetterKind::Value, caps.getters[0].kind);
    assert_eq!(vec![back_ref("B", "aid"), back_ref("D", "owner")], caps.referencing);
    assert_eq!(
        vec![Traversal {
            relation: String::from("B"),
            attribute: String::from("aid"),
            related: String::from("C"),
        }],
        caps.traversals
    );
    assert!(caps.find_related("C", "B", "aid").is_ok());
    assert_eq!(Err(Error::ElementNotFound), caps.find_related("A", "B", "aid"));
    assert_eq!(Err(Error::ElementNotFound), caps.find_related("C", "D", "owner"));
    assert!(caps.find_referencing("D", "owner").is_ok());
    assert_eq!(Err(Error::ElementNotFound), caps.find_referencing("D", "aid"));

    let b = db.get_object("B").unwrap();
    let join = plan(b, &db);
    assert_eq!(
        Some((
            JoinEndpoint { attribute: String::from("aid"), target: String::from("A") },
            JoinEndpoint { attribute: String::from("cid"), target: String::from("C") },
        )),
        join.load_by_content
    );
    assert_eq!(4, join.getters.len());
    assert_eq!(GetterKind::Identifier, join.getters[0].kind);
    assert_eq!(GetterKind::Dereferencing, join.getters[1].kind);
    assert!(join.setters.is_empty());
    assert!(join.traversals.is_empty());
}

#[test]
fn self_join_traversals_use_attribute_roles() {
    let db = schema(vec![
        object("Person", vec![]),
        object("Friend", vec![reference("left", "Person"), reference("right", "Person")]),
    ]);
    let caps = plan(db.get_object("Person").unwrap(), &db);
    assert_eq!(
        vec![
            Traversal {
                relation: String::from("Friend"),
                attribute: String::from("left"),
                related: String::from("Person"),
            },
            Traversal {
                relation: String::from("Friend"),
                attribute: String::from("right"),
                related: String::from("Person"),
            },
        ],
        caps.traversals
    );
}

fn in_category(name: &str, category: Option<&str>) -> Object {
    Object::new(
        String::from(name),
        name.to_lowercase(),
        vec![],
        None,
        category.map(String::from),
        None,
    )
}

#[test]
fn categories_sorted_by_name() {
    let db = schema(vec![
        in_category("Zeta", Some("b")),
        in_category("Alpha", Some("b")),
        in_category("Mid", None),
        in_category("Beta", Some("a")),
        in_category("Ab", Some("b")),
    ]);
    let mapping = create_category_mapping(&db);
    assert_eq!(
        vec![
            Category { name: String::new(), objects: vec![2] },
            Category { name: String::from("a"), objects: vec![3] },
            Category { name: String::from("b"), objects: vec![4, 1, 0] },
        ],
        mapping
    );
    assert!(create_category_mapping(&schema(vec![])).is_empty());
}

#[test]
fn text_order() {
    assert!(compare_text("a", "b") < 0);
    assert!(compare_text("ab", "a") > 0);
    assert_eq!(0, compare_text("same", "same"));
    assert!(compare_text("", "x") < 0);
    assert!(compare_text("Z", "a") < 0);
}

#[test]
fn diagram_shapes() {
    let db = schema(vec![
        object("A", vec![]),
        object("C", vec![]),
        object("Link", vec![reference("aid", "A"), reference("cid", "C")]),
        object("Used", vec![reference("aid", "A"), reference("cid", "C")]),
        object("Note", vec![reference("used", "Used")]),
    ]);
    assert_eq!(
        DiagramShape::Arc { from: String::from("A"), to: String::from("C") },
        diagram_shape(db.get_object("Link").unwrap())
    );
    assert_eq!(DiagramShape::Node, diagram_shape(db.get_object("Used").unwrap()));
    assert_eq!(DiagramShape::Node, diagram_shape(db.get_object("Note").unwrap()));
    assert_eq!(DiagramShape::Node, diagram_shape(db.get_object("A").unwrap()));
}
