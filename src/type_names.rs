//! The names of the types that emitted sources and documentation give to attributes.
use vstd::prelude::*;
use vstd::string::*;

use crate::attributes::{Attribute, AttributeType, BaseAttributeType};

verus! {

/// The storage type of a base type.
pub open spec fn storage_type(b: BaseAttributeType) -> Seq<char> {
    match b {
        BaseAttributeType::Integer => "i64"@,
        BaseAttributeType::String => "String"@,
        BaseAttributeType::Reference(_) => "i32"@,
    }
}

/// The storage type of an attribute type: an optional one is wrapped in `Option`.
pub open spec fn attribute_storage_type(t: AttributeType) -> Seq<char> {
    match t {
        AttributeType::Mandatory(b) => storage_type(b),
        AttributeType::Optional(b) => "Option<"@ + storage_type(b) + ">"@,
    }
}

/// The parameter type of an attribute type: a reference is a borrow of the
/// referenced record type, and an optional one is wrapped in `Option`.
pub open spec fn parameter_type(t: AttributeType) -> Seq<char> {
    let base = match t.base() {
        BaseAttributeType::Integer => "i64"@,
        BaseAttributeType::String => "String"@,
        BaseAttributeType::Reference(r) => "&"@ + r@,
    };
    if t.optional() {
        "Option<"@ + base + ">"@
    } else {
        base
    }
}

/// The borrowed parameter type of an attribute type.
pub open spec fn borrowed_type(t: AttributeType) -> Seq<char> {
    match t {
        AttributeType::Mandatory(BaseAttributeType::String) => "&str"@,
        AttributeType::Mandatory(_) => parameter_type(t),
        AttributeType::Optional(_) => "&"@ + parameter_type(t),
    }
}

/// Retrieve the storage type of a base type
pub fn get_base_type(base: &BaseAttributeType) -> (r: String)
    ensures
        r@ == storage_type(*base),
{
    match base {
        BaseAttributeType::Integer => String::from_str("i64"),
        BaseAttributeType::String => String::from_str("String"),
        BaseAttributeType::Reference(_) => String::from_str("i32"),
    }
}

/// Retrieve the storage type of an attribute type
pub fn get_attribute_type(at_type: &AttributeType) -> (r: String)
    ensures
        r@ == attribute_storage_type(*at_type),
{
    match at_type {
        AttributeType::Mandatory(base) => get_base_type(base),
        AttributeType::Optional(base) => {
            let mut r = String::from_str("Option<");
            let b = get_base_type(base);
            r.append(b.as_str());
            r.append(">");
            r
        },
    }
}

/// Retrieve the parameter type of an attribute type, independent of the storage type
pub fn get_attribute_type_param_type(at_type: &AttributeType) -> (r: String)
    ensures
        r@ == parameter_type(*at_type),
{
    let (opt, base) = match at_type {
        AttributeType::Mandatory(base) => (false, base),
        AttributeType::Optional(base) => (true, base),
    };
    let base_type = match base {
        BaseAttributeType::Integer => String::from_str("i64"),
        BaseAttributeType::String => String::from_str("String"),
        BaseAttributeType::Reference(r) => {
            let mut t = String::from_str("&");
            t.append(r.as_str());
            t
        },
    };
    if opt {
        let mut r = String::from_str("Option<");
        r.append(base_type.as_str());
        r.append(">");
        r
    } else {
        base_type
    }
}

/// Retrieve the storage type of an attribute
pub fn get_rust_type(attribute: &Attribute) -> (r: String)
    ensures
        r@ == attribute_storage_type(attribute.is),
{
    get_attribute_type(attribute.get_type())
}

/// Retrieve the parameter type of an attribute, independent of the storage type
pub fn get_rust_param_type(attribute: &Attribute) -> (r: String)
    ensures
        r@ == parameter_type(attribute.is),
{
    get_attribute_type_param_type(attribute.get_type())
}

/// Retrieve the type with which an attribute is passed as a borrowed parameter
pub fn get_rust_borrowed_type(attribute: &Attribute) -> (r: String)
    ensures
        r@ == borrowed_type(attribute.is),
{
    match attribute.get_type() {
        AttributeType::Mandatory(base_type) => match base_type {
            BaseAttributeType::String => String::from_str("&str"),
            _ => get_rust_param_type(attribute),
        },
        AttributeType::Optional(_) => {
            let mut r = String::from_str("&");
            let p = get_rust_param_type(attribute);
            r.append(p.as_str());
            r
        },
    }
}

/// Whether the character has the Unicode uppercase property.
pub uninterp spec fn uppercase_char(c: char) -> bool;

/// The lowercase mapping of a character, one or more characters long.
pub uninterp spec fn lowercase_of(c: char) -> Seq<char>;

/// Relies on `char::is_uppercase`: whether the character is uppercase.
#[verifier::external_body]
fn is_uppercase(c: char) -> (r: bool)
    ensures
        r == uppercase_char(c),
{
    c.is_uppercase()
}

/// Relies on `char::to_lowercase`: the lowercase mapping of the character, as text.
#[verifier::external_body]
fn to_lowercase(c: char) -> (r: String)
    ensures
        r@ == lowercase_of(c),
{
    c.to_lowercase().to_string()
}

/// The snake_case form of a CamelCase name: each uppercase character is
/// lowered, with an underscore before it unless it comes first.
pub open spec fn snake(s: Seq<char>) -> Seq<char>
    decreases s.len(),
{
    if s.len() == 0 {
        Seq::empty()
    } else {
        let prev = snake(s.drop_last());
        let c = s.last();
        if uppercase_char(c) {
            if s.len() == 1 {
                lowercase_of(c)
            } else {
                prev + seq!['_'] + lowercase_of(c)
            }
        } else {
            prev.push(c)
        }
    }
}

/// Convert a CamelCase name into snake_case
pub fn get_snake_name(name: &str) -> (r: String)
    ensures
        r@ == snake(name@),
{
    let n = name.unicode_len();
    let mut out = String::new();
    let mut i: usize = 0;
    proof {
        reveal_strlit("_");
        assert("_"@ =~= seq!['_']);
    }
    while i < n
        invariant
            n == name@.len(),
            i <= n,
            "_"@ == seq!['_'],
            out@ == snake(name@.take(i as int)),
        decreases n - i,
    {
        let c = name.get_char(i);
        assert(name@.take(i + 1).drop_last() =~= name@.take(i as int));
        assert(name@.take(i + 1).last() == c);
        if is_uppercase(c) {
            let lower = to_lowercase(c);
            if i == 0 {
                out = lower;
            } else {
                let ghost before = out@;
                out.append("_");
                out.append(lower.as_str());
                assert(out@ =~= before + seq!['_'] + lowercase_of(c));
            }
        } else {
            let ghost before = out@;
            let mut one = String::new();
            push_char(&mut one, c);
            out.append(one.as_str());
            assert(out@ =~= before.push(c));
        }
        i = i + 1;
    }
    assert(name@.take(n as int) =~= name@);
    out
}

/// Relies on `String::push`: the character is added at the end.
#[verifier::external_body]
fn push_char(s: &mut String, c: char)
    ensures
        final(s)@ == old(s)@.push(c),
{
    s.push(c)
}

/// The description of a base type in the documentation.
pub open spec fn documented_type(b: BaseAttributeType) -> Seq<char> {
    match b {
        BaseAttributeType::Integer => "integer"@,
        BaseAttributeType::String => "string"@,
        BaseAttributeType::Reference(o) => "reference to <a href=\"#"@ + o@ + "\">"@ + o@ + "</a>"@,
    }
}

/// Retrieve the description of a base type for the documentation
pub fn get_base_attr_type(atype: &BaseAttributeType) -> (r: String)
    ensures
        r@ == documented_type(*atype),
{
    match atype {
        BaseAttributeType::Integer => String::from_str("integer"),
        BaseAttributeType::String => String::from_str("string"),
        BaseAttributeType::Reference(other) => {
            let mut r = String::from_str("reference to <a href=\"#");
            r.append(other.as_str());
            r.append("\">");
            r.append(other.as_str());
            r.append("</a>");
            r
        },
    }
}

} // verus!
