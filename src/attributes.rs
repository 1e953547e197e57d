//! Attribute definitions of the schema.
use vstd::prelude::*;

verus! {

/// The base type of an attribute; a reference names the record type it points at.
#[derive(Debug, PartialEq, Eq, Hash, Clone)]
pub enum BaseAttributeType {
    Integer,
    String,
    Reference(String),
}

/// Whether an attribute must always hold a value or may be absent.
#[derive(Debug, PartialEq, Eq, Hash, Clone)]
pub enum AttributeType {
    Mandatory(BaseAttributeType),
    Optional(BaseAttributeType),
}

impl BaseAttributeType {
    /// The record type named by a reference, if this is one.
    pub open spec fn target(&self) -> Option<Seq<char>> {
        match self {
            BaseAttributeType::Reference(r) => Some(r@),
            _ => None,
        }
    }
}

impl AttributeType {
    pub open spec fn base(&self) -> BaseAttributeType {
        match self {
            AttributeType::Mandatory(base) => *base,
            AttributeType::Optional(base) => *base,
        }
    }

    pub open spec fn optional(&self) -> bool {
        self is Optional
    }

    /// Retrieve the base type
    pub fn get_base_type(&self) -> (r: &BaseAttributeType)
        ensures
            *r == self.base(),
    {
        match self {
            AttributeType::Mandatory(base) => base,
            AttributeType::Optional(base) => base,
        }
    }
}

/// The definition of an attribute of a record type.
#[derive(Debug, PartialEq, Eq, Hash, Clone)]
pub struct Attribute {
    /// The name of the attribute, unique within its record type
    pub name: String,
    /// The type of the attribute
    pub is: AttributeType,
    /// Optional comment describing the attribute
    pub comm: Option<String>,
    /// Whether the attribute may be changed after creation; absent means false
    pub mutable: Option<bool>,
    /// Whether the attribute identifies a single instance; absent means false
    pub indexable: Option<bool>,
    /// Whether the attribute is hidden from generic introspection; absent means false
    pub secret: Option<bool>,
}

pub open spec fn flag(f: Option<bool>) -> bool {
    f == Some(true)
}

impl Attribute {
    pub open spec fn optional(&self) -> bool {
        self.is.optional()
    }

    pub open spec fn target(&self) -> Option<Seq<char>> {
        self.is.base().target()
    }

    pub open spec fn reference(&self) -> bool {
        self.target() is Some
    }

    pub open spec fn spec_mutable(&self) -> bool {
        flag(self.mutable)
    }

    pub open spec fn spec_indexable(&self) -> bool {
        flag(self.indexable)
    }

    pub open spec fn spec_secret(&self) -> bool {
        flag(self.secret)
    }

    /// Build an attribute definition.
    pub fn new(
        name: String,
        is: AttributeType,
        comm: Option<String>,
        mutable: Option<bool>,
        indexable: Option<bool>,
        secret: Option<bool>,
    ) -> (r: Attribute)
        ensures
            r == (Attribute { name, is, comm, mutable, indexable, secret }),
    {
        Attribute { name, is, comm, mutable, indexable, secret }
    }

    /// Retrieve the name of the attribute
    pub fn get_name(&self) -> (r: &String)
        ensures
            r == &self.name,
    {
        &self.name
    }

    /// Retrieve the comment describing this attribute
    pub fn get_comment(&self) -> (r: &Option<String>)
        ensures
            r == &self.comm,
    {
        &self.comm
    }

    /// Retrieve the type of the attribute
    pub fn get_type(&self) -> (r: &AttributeType)
        ensures
            r == &self.is,
    {
        &self.is
    }

    /// Check if the attribute is secret; a secret attribute takes no part in
    /// generic introspection or generic text access
    pub fn is_secret(&self) -> (r: bool)
        ensures
            r == self.spec_secret(),
    {
        read_flag(self.secret)
    }

    /// Check if the attribute can be used to load a single instance
    pub fn is_indexable(&self) -> (r: bool)
        ensures
            r == self.spec_indexable(),
    {
        read_flag(self.indexable)
    }

    /// Check if the attribute is optional
    pub fn is_optional(&self) -> (r: bool)
        ensures
            r == self.optional(),
    {
        match &self.is {
            AttributeType::Optional(_) => true,
            AttributeType::Mandatory(_) => false,
        }
    }

    /// Retrieve the name of the referenced record type, if any
    pub fn get_reference(&self) -> (r: Option<&String>)
        ensures
            r is Some <==> self.reference(),
            r matches Some(s) ==> Some(s@) == self.target(),
    {
        match self.is.get_base_type() {
            BaseAttributeType::Reference(r) => Some(r),
            _ => None,
        }
    }

    /// Check if the attribute is mutable
    pub fn is_mutable(&self) -> (r: bool)
        ensures
            r == self.spec_mutable(),
    {
        read_flag(self.mutable)
    }
}

fn read_flag(f: Option<bool>) -> (r: bool)
    ensures
        r == flag(f),
{
    match f {
        Some(b) => b,
        None => false,
    }
}

} // verus!
