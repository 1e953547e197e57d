//! Descriptions that generic tooling reads from a record type.
use vstd::prelude::*;
use vstd::string::*;

use crate::number::{decimal_in_range, parse_i32, parse_i64};

verus! {

/// One record type's attribute that points at another record type.
#[derive(Debug, PartialEq, Eq, Hash, Clone)]
pub struct BackReference {
    pub referencing_object: String,
    pub referencing_attribute: String,
}

/// A back-reference is identified by the pair of names (record type, attribute).
impl View for BackReference {
    type V = (Seq<char>, Seq<char>);

    open spec fn view(&self) -> (Seq<char>, Seq<char>) {
        (self.referencing_object@, self.referencing_attribute@)
    }
}

impl BackReference {
    /// Create a new back-reference entry
    pub fn new(referencing_object: String, referencing_attribute: String) -> (r: BackReference)
        ensures
            r.referencing_object == referencing_object,
            r.referencing_attribute == referencing_attribute,
    {
        BackReference { referencing_object, referencing_attribute }
    }

    /// Retrieve the name of the record type holding the reference
    pub fn referencing_object(&self) -> (r: &String)
        ensures
            r == &self.referencing_object,
    {
        &self.referencing_object
    }

    /// Retrieve the name of the attribute holding the reference
    pub fn referencing_attribute(&self) -> (r: &String)
        ensures
            r == &self.referencing_attribute,
    {
        &self.referencing_attribute
    }
}

/// The base type of an attribute as generic tooling sees it.
#[derive(Debug, PartialEq, Eq, Clone)]
pub enum AttributeType {
    /// An integer
    Integer,
    /// A text
    String,
    /// A reference to an instance of the named record type
    Reference(String),
}

/// What generic tooling learns of one visible attribute.
#[derive(Debug, PartialEq, Eq, Clone)]
pub struct Attribute {
    pub name: String,
    pub kind: AttributeType,
    pub optional: bool,
    pub mutable: bool,
}

impl Attribute {
    pub fn new(name: String, kind: AttributeType, optional: bool, mutable: bool) -> (r: Attribute)
        ensures
            r == (Attribute { name, kind, optional, mutable }),
    {
        Attribute { name, kind, optional, mutable }
    }

    /// Retrieve the name of the attribute
    pub fn get_name(&self) -> (r: &String)
        ensures
            r == &self.name,
    {
        &self.name
    }

    /// Retrieve the base type of the attribute
    pub fn get_kind(&self) -> (r: &AttributeType)
        ensures
            r == &self.kind,
    {
        &self.kind
    }

    /// Check if the attribute may be absent
    pub fn is_optional(&self) -> (r: bool)
        ensures
            r == self.optional,
    {
        self.optional
    }

    /// Check if the attribute can be changed
    pub fn is_mutable(&self) -> (r: bool)
        ensures
            r == self.mutable,
    {
        self.mutable
    }

    /// Check if the attribute is a reference
    pub fn is_reference(&self) -> (r: bool)
        ensures
            r == (self.kind is Reference),
    {
        match self.kind {
            AttributeType::Reference(_) => true,
            _ => false,
        }
    }
}

/// The errors of the reflection protocol.
#[derive(Debug, PartialEq, Eq, Clone)]
pub enum Error {
    /// The record is missing, an optimistic update lost its race, or a relation is unknown
    ElementNotFound,
    /// The store failed; the text is its message
    InternalError(String),
    /// The text given for the named attribute does not convert to its type
    ParsingError(String),
    UnknownAttribute(String),
    ImmutableAttribute(String),
    InvalidAttributeValue(String),
    MissingMandatoryAttribute(String),
    UnableToRetrieveIdentifierForTable(String),
    UnableToCreateRecord(String),
    InvalidVersion,
}

/// Why a text does not encode an optional value.
#[derive(Debug, Clone, PartialEq, Eq)]
pub enum ParseOptionalError<ParseError> {
    MissingOpenParenthesis,
    MissingCloseParenthesis,
    ParsingError(ParseError),
}

/// A type whose values can be read from text.
pub trait FromText: Sized {
    type Err;

    /// Whether `s` denotes a value.
    spec fn readable(s: Seq<char>) -> bool;

    /// Whether `s` denotes `v`.
    spec fn denotes(s: Seq<char>, v: Self) -> bool;

    fn from_text(s: &str) -> (r: Result<Self, Self::Err>)
        ensures
            r is Ok <==> Self::readable(s@),
            r matches Ok(v) ==> Self::denotes(s@, v),
    ;
}

impl FromText for i64 {
    type Err = std::num::ParseIntError;

    open spec fn readable(s: Seq<char>) -> bool {
        decimal_in_range(s, i64::MIN as int, i64::MAX as int) is Some
    }

    open spec fn denotes(s: Seq<char>, v: i64) -> bool {
        decimal_in_range(s, i64::MIN as int, i64::MAX as int) == Some(v as int)
    }

    fn from_text(s: &str) -> (r: Result<i64, std::num::ParseIntError>) {
        parse_i64(s)
    }
}

impl FromText for i32 {
    type Err = std::num::ParseIntError;

    open spec fn readable(s: Seq<char>) -> bool {
        decimal_in_range(s, i32::MIN as int, i32::MAX as int) is Some
    }

    open spec fn denotes(s: Seq<char>, v: i32) -> bool {
        decimal_in_range(s, i32::MIN as int, i32::MAX as int) == Some(v as int)
    }

    fn from_text(s: &str) -> (r: Result<i32, std::num::ParseIntError>) {
        parse_i32(s)
    }
}

impl FromText for String {
    type Err = std::convert::Infallible;

    open spec fn readable(s: Seq<char>) -> bool {
        true
    }

    open spec fn denotes(s: Seq<char>, v: String) -> bool {
        v@ == s
    }

    fn from_text(s: &str) -> (r: Result<String, std::convert::Infallible>) {
        Ok(String::from_str(s))
    }
}

/// The text between the surrounding parentheses of `s`.
pub open spec fn inner_text(s: Seq<char>) -> Seq<char> {
    s.subrange(1, s.len() - 1)
}

/// Read an optional value from text: the empty text is an absent value, and
/// `(v)` is the present value read from `v`. A text that does not start with
/// `(` or does not end with `)` is refused, as is one whose inner text does
/// not denote a value.
pub fn extract_optional<T: FromText>(s: &str) -> (r: Result<Option<T>, ParseOptionalError<T::Err>>)
    ensures
        s@.len() == 0 ==> r == Ok::<Option<T>, ParseOptionalError<T::Err>>(None),
        s@.len() > 0 && s@[0] != '(' ==> r == Err::<Option<T>, ParseOptionalError<T::Err>>(
            ParseOptionalError::MissingOpenParenthesis,
        ),
        s@.len() > 0 && s@[0] == '(' && s@.last() != ')' ==> r == Err::<
            Option<T>,
            ParseOptionalError<T::Err>,
        >(ParseOptionalError::MissingCloseParenthesis),
        s@.len() > 0 && s@[0] == '(' && s@.last() == ')' ==> {
            &&& (r is Ok <==> T::readable(inner_text(s@)))
            &&& (r matches Ok(v) ==> v matches Some(x) && T::denotes(inner_text(s@), x))
            &&& (r matches Err(e) ==> e is ParsingError)
        },
{
    let n = s.unicode_len();
    if n == 0 {
        return Ok(None);
    }
    if s.get_char(0) != '(' {
        return Err(ParseOptionalError::MissingOpenParenthesis);
    }
    if s.get_char(n - 1) != ')' {
        return Err(ParseOptionalError::MissingCloseParenthesis);
    }
    let inner = s.substring_char(1, n - 1);
    match T::from_text(inner) {
        Ok(v) => Ok(Some(v)),
        Err(e) => Err(ParseOptionalError::ParsingError(e)),
    }
}

/// Checks the identifiers read from serialized data.
pub struct ObjectIdVisitor;

impl ObjectIdVisitor {
    /// Accept a signed identifier strictly between the extremes of `i64`.
    pub fn visit_i64(&self, v: i64) -> (r: Option<i64>)
        ensures
            r is Some <==> i64::MIN < v < i64::MAX,
            r matches Some(x) ==> x == v,
    {
        if v < i64::MAX && v > i64::MIN {
            Some(v)
        } else {
            None
        }
    }

    /// Accept an unsigned identifier below the largest `i64`.
    pub fn visit_u64(&self, v: u64) -> (r: Option<i64>)
        ensures
            r is Some <==> v < i64::MAX,
            r matches Some(x) ==> x == v,
    {
        if v < i64::MAX as u64 {
            Some(v as i64)
        } else {
            None
        }
    }
}

} // verus!
