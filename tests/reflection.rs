use bdmg::attributes::{Attribute, AttributeType, BaseAttributeType};
use bdmg::introspection::{self, Error, ObjectIdVisitor};
use bdmg::object::Object;
use bdmg::record::{
    get_attribute_names, get_attributes, FieldValue, Instance, ObjectIterator, RecordFactory,
    SetterStep,
};

fn user() -> Object {
    Object::new(
        String::from("User"),
        String::from("users"),
        vec![
            Attribute::new(
                String::from("login"),
                AttributeType::Mandatory(BaseAttributeType::String),
                None,
                None,
                Some(true),
                None,
            ),
            Attribute::new(
                String::from("password"),
                AttributeType::Mandatory(BaseAttributeType::String),
                None,
                Some(true),
                None,
                Some(true),
            ),
            Attribute::new(
                String::from("age"),
                AttributeType::Optional(BaseAttributeType::Integer),
                None,
                Some(true),
                None,
                None,
            ),
            Attribute::new(
                String::from("team"),
                AttributeType::Mandatory(BaseAttributeType::Reference(String::from("Team"))),
                None,
                Some(true),
                None,
                None,
            ),
            Attribute::new(
                String::from("score"),
                AttributeType::Mandatory(BaseAttributeType::Integer),
                None,
                Some(true),
                None,
                None,
            ),
        ],
        None,
        Some(String::from("people")),
        None,
    )
}

fn alice() -> Instance {
    Instance {
        id: 3,
        version: 0,
        values: vec![
            Some(FieldValue::Text(String::from("alice"))),
            Some(FieldValue::Text(String::from("SECRET-REDACTED"))),
            None,
            Some(FieldValue::Reference(7)),
            Some(FieldValue::Integer(-12)),
        ],
    }
}

#[test]
fn secret_attributes_are_not_listed() {
    let o = user();
    assert_eq!(
        vec![
            String::from("login"),
            String::from("age"),
            String::from("team"),
            String::from("score")
        ],
        get_attribute_names(&o)
    );
    let attrs = get_attributes(&o);
    assert_eq!(4, attrs.len());
    assert!(attrs.iter().all(|a| a.get_name() != "password"));
    assert_eq!(
        introspection::Attribute::new(
            String::from("team"),
            introspection::AttributeType::Reference(String::from("Team")),
            false,
            true
        ),
        attrs[2]
    );
    assert!(attrs[1].is_optional());
    assert!(attrs[2].is_reference());
    assert!(!attrs[0].is_mutable());
}

#[test]
fn secret_attributes_are_not_readable() {
    let o = user();
    let a = alice();
    assert_eq!(
        Err(Error::UnknownAttribute(String::from("password"))),
        a.get_attribute(&o, "password")
    );
    assert_eq!(
        Err(Error::UnknownAttribute(String::from("password"))),
        a.set_attribute(&o, "password", "x")
    );
}

#[test]
fn generic_get_encodes_values() {
    let o = user();
    let mut a = alice();
    assert_eq!(Ok(String::from("alice")), a.get_attribute(&o, "login"));
    assert_eq!(Ok(String::new()), a.get_attribute(&o, "age"));
    assert_eq!(Ok(String::from("7")), a.get_attribute(&o, "team"));
    assert_eq!(Ok(String::from("-12")), a.get_attribute(&o, "score"));
    a.values[2] = Some(FieldValue::Integer(41));
    assert_eq!(Ok(String::from("(41)")), a.get_attribute(&o, "age"));
    assert_eq!(
        Err(Error::UnknownAttribute(String::from("nickname"))),
        a.get_attribute(&o, "nickname")
    );
}

#[test]
fn setter_to_current_value_is_unchanged() {
    let o = user();
    let a = alice();
    let (index, value, step) = a.set_attribute(&o, "score", "-12").unwrap();
    assert_eq!(4, index);
    assert_eq!(Some(FieldValue::Integer(-12)), value);
    assert_eq!(SetterStep::Unchanged, step);
    assert_eq!(Ok((2, None, SetterStep::Unchanged)), a.set_attribute(&o, "age", ""));
    assert_eq!(SetterStep::Unchanged, a.prepare_update(3, &Some(FieldValue::Reference(7))));
    assert_eq!(0, a.version);
}

#[test]
fn setter_commits_with_one_row() {
    let o = user();
    let mut a = alice();
    let (index, value, step) = a.set_attribute(&o, "age", "(30)").unwrap();
    assert_eq!(SetterStep::Update { id: 3, expected_version: 0 }, step);
    let candidate = a.hypothetical(index, &value);
    assert_eq!(Some(FieldValue::Integer(30)), candidate.values[2]);
    assert_eq!(None, a.values[2]);
    assert_eq!(Ok(()), a.commit_update(index, value, 1));
    assert_eq!(1, a.version);
    assert_eq!(Some(FieldValue::Integer(30)), a.values[2]);
}

#[test]
fn setter_lost_race_is_not_found() {
    let o = user();
    let mut a = alice();
    let (index, value, _) = a.set_attribute(&o, "team", "9").unwrap();
    assert_eq!(Some(FieldValue::Reference(9)), value);
    assert_eq!(Err(Error::ElementNotFound), a.commit_update(index, value, 0));
    assert_eq!(0, a.version);
    assert_eq!(Some(FieldValue::Reference(7)), a.values[3]);
}

#[test]
fn generic_set_errors() {
    let o = user();
    let a = alice();
    assert_eq!(
        Err(Error::ImmutableAttribute(String::from("id"))),
        a.set_attribute(&o, "id", "4")
    );
    assert_eq!(
        Err(Error::ImmutableAttribute(String::from("version"))),
        a.set_attribute(&o, "version", "4")
    );
    assert_eq!(
        Err(Error::ImmutableAttribute(String::from("login"))),
        a.set_attribute(&o, "login", "bob")
    );
    assert_eq!(
        Err(Error::UnknownAttribute(String::from("nickname"))),
        a.set_attribute(&o, "nickname", "bob")
    );
    assert_eq!(
        Err(Error::ParsingError(String::from("score"))),
        a.set_attribute(&o, "score", "twelve")
    );
    assert_eq!(
        Err(Error::ParsingError(String::from("age"))),
        a.set_attribute(&o, "age", "30")
    );
}

#[test]
fn factory_reports_first_missing_mandatory() {
    let o = user();
    let mut f = RecordFactory::new(&o);
    assert_eq!(Ok(()), f.set_attribute(&o, "login", "bob"));
    assert_eq!(Ok(()), f.set_attribute(&o, "id", "12"));
    assert_eq!(
        Err(Error::MissingMandatoryAttribute(String::from("password"))),
        f.create(&o)
    );
    assert_eq!(Some(Some(FieldValue::Text(String::from("bob")))), f.values[0]);
}

#[test]
fn factory_keeps_earlier_values_after_error() {
    let o = user();
    let mut f = RecordFactory::new(&o);
    assert_eq!(Ok(()), f.set_attribute(&o, "login", "bob"));
    assert_eq!(Ok(()), f.set_attribute(&o, "password", "SECRET-REDACTED"));
    assert_eq!(Ok(()), f.set_attribute(&o, "team", "2"));
    assert_eq!(Ok(()), f.set_attribute(&o, "score", "5"));
    assert_eq!(
        Err(Error::ParsingError(String::from("score"))),
        f.set_attribute(&o, "score", "five")
    );
    assert_eq!(
        Err(Error::UnknownAttribute(String::from("rank"))),
        f.set_attribute(&o, "rank", "1")
    );
    assert_eq!(Some(Some(FieldValue::Text(String::from("bob")))), f.values[0]);
    assert_eq!(None, f.values[4]);
    assert_eq!(
        Err(Error::MissingMandatoryAttribute(String::from("score"))),
        f.create(&o)
    );
    assert_eq!(Ok(()), f.set_attribute(&o, "score", "6"));
    let values = f.create(&o).unwrap();
    assert_eq!(
        vec![
            Some(FieldValue::Text(String::from("bob"))),
            Some(FieldValue::Text(String::from("SECRET-REDACTED"))),
            None,
            Some(FieldValue::Reference(2)),
            Some(FieldValue::Integer(6)),
        ],
        values
    );
    assert!(f.values.iter().all(|v| v.is_none()));
}

/// Smallest identifier of `store` strictly greater than `id`.
fn next_after(store: &[i32], id: i32) -> Option<i32> {
    store.iter().copied().filter(|&x| x > id).min()
}

fn iterate(store: &[i32], first: i32, last: i32) -> Vec<i32> {
    let mut cursor = ObjectIterator::new(first, last);
    let mut seen = Vec::new();
    while let Some(id) = cursor.pending() {
        if store.contains(&id) {
            seen.push(id);
        }
        cursor.resume_after(next_after(store, id));
    }
    seen
}

#[test]
fn iteration_skips_deleted_identifiers() {
    let mut store = vec![1, 2, 3, 4, 5];
    store.retain(|&x| x != 3);
    assert_eq!(vec![1, 2, 4, 5], iterate(&store, 1, 5));
}

#[test]
fn iteration_edge_cases() {
    assert_eq!(Vec::<i32>::new(), iterate(&[], 1, 5));
    assert_eq!(Vec::<i32>::new(), iterate(&[1, 2], 3, 2));
    assert_eq!(vec![2, 3], iterate(&[1, 2, 3, 9], 2, 5));
    assert_eq!(vec![i32::MAX], iterate(&[i32::MAX], 0, i32::MAX));
    let mut cursor = ObjectIterator::new(1, 5);
    cursor.resume_after(Some(9));
    assert_eq!(None, cursor.pending());
}

#[test]
fn identifier_visitor_bounds() {
    let v = ObjectIdVisitor;
    assert_eq!(Some(12), v.visit_i64(12));
    assert_eq!(None, v.visit_i64(i64::MAX));
    assert_eq!(None, v.visit_i64(i64::MIN));
    assert_eq!(Some(-5), v.visit_i64(-5));
    assert_eq!(Some(12), v.visit_u64(12));
    assert_eq!(None, v.visit_u64(i64::MAX as u64));
    assert_eq!(Some(i64::MAX - 1), v.visit_u64((i64::MAX - 1) as u64));
}
