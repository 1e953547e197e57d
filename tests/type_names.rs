use bdmg::attributes::{Attribute, AttributeType, BaseAttributeType};
use bdmg::type_names::{
    get_attribute_type_param_type, get_base_attr_type, get_rust_borrowed_type, get_rust_type,
    get_snake_name,
};

fn attribute(is: AttributeType) -> Attribute {
    Attribute::new(String::from("duration"), is, None, None, None, None)
}

fn reference() -> BaseAttributeType {
    BaseAttributeType::Reference(String::from("Test"))
}

#[test]
fn borrowed_type() {
    //Mandatory attributes
    let at = attribute(AttributeType::Mandatory(BaseAttributeType::Integer));
    assert_eq!(String::from("i64"), get_rust_borrowed_type(&at));
    let at = attribute(AttributeType::Mandatory(BaseAttributeType::String));
    assert_eq!(String::from("&str"), get_rust_borrowed_type(&at));
    let at = attribute(AttributeType::Mandatory(reference()));
    assert_eq!(String::from("&Test"), get_rust_borrowed_type(&at));

    //Optional attributes
    let at = attribute(AttributeType::Optional(BaseAttributeType::Integer));
    assert_eq!(String::from("&Option<i64>"), get_rust_borrowed_type(&at));
    let at = attribute(AttributeType::Optional(BaseAttributeType::String));
    assert_eq!(String::from("&Option<String>"), get_rust_borrowed_type(&at));
    let at = attribute(AttributeType::Optional(reference()));
    assert_eq!(String::from("&Option<&Test>"), get_rust_borrowed_type(&at));
}

#[test]
fn rust_type() {
    //Mandatory attributes
    let at = attribute(AttributeType::Mandatory(BaseAttributeType::Integer));
    assert_eq!(String::from("i64"), get_rust_type(&at));
    let at = attribute(AttributeType::Mandatory(BaseAttributeType::String));
    assert_eq!(String::from("String"), get_rust_type(&at));
    let at = attribute(AttributeType::Mandatory(reference()));
    assert_eq!(String::from("i32"), get_rust_type(&at));

    //Optional attributes
    let at = attribute(AttributeType::Optional(BaseAttributeType::Integer));
    assert_eq!(String::from("Option<i64>"), get_rust_type(&at));
    let at = attribute(AttributeType::Optional(BaseAttributeType::String));
    assert_eq!(String::from("Option<String>"), get_rust_type(&at));
    let at = attribute(AttributeType::Optional(reference()));
    assert_eq!(String::from("Option<i32>"), get_rust_type(&at));
}

#[test]
fn param_type_of_optional_reference() {
    assert_eq!(
        String::from("Option<&Test>"),
        get_attribute_type_param_type(&AttributeType::Optional(reference()))
    );
    assert_eq!(
        String::from("&Test"),
        get_attribute_type_param_type(&AttributeType::Mandatory(reference()))
    );
}

#[test]
fn snake_names() {
    assert_eq!(String::from("my_object"), get_snake_name("MyObject"));
    assert_eq!(String::from("a"), get_snake_name("A"));
    assert_eq!(String::from("already_snake"), get_snake_name("already_snake"));
    assert_eq!(String::from("http_server"), get_snake_name("httpServer"));
    assert_eq!(String::new(), get_snake_name(""));
}

#[test]
fn documented_types() {
    assert_eq!(String::from("integer"), get_base_attr_type(&BaseAttributeType::Integer));
    assert_eq!(String::from("string"), get_base_attr_type(&BaseAttributeType::String));
    assert_eq!(
        String::from("reference to <a href=\"#Test\">Test</a>"),
        get_base_attr_type(&reference())
    );
}
