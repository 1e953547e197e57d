//! Record type definitions and their relation classification.
use vstd::prelude::*;

use crate::attributes::{Attribute, AttributeType, BaseAttributeType};
use crate::introspection::BackReference;
use crate::text::text_eq;

verus! {

/// Why a schema was refused.
#[derive(Debug, PartialEq, Eq, Clone)]
pub enum SchemaError {
    /// An attribute of `object` points at `target`, which no record type declares.
    DanglingReference { object: String, attribute: String, target: String },
    /// Two record types share this name.
    DuplicateObjectName(String),
    /// Two attributes of record type `object` share this name.
    DuplicateAttributeName { object: String, attribute: String },
}

/// A record type of the schema.
#[derive(Debug, PartialEq, Eq, Hash, Clone)]
pub struct Object {
    /// The name of the collection that holds the persisted instances
    pub tbnm: String,
    /// The name of the record type
    pub name: String,
    /// The attributes, in declaration order
    pub attr: Vec<Attribute>,
    /// Optional comment describing the record type
    pub comm: Option<String>,
    /// Optional category, used for grouping only
    pub category: Option<String>,
    /// Optional name of an external check run before an instance is created or changed
    pub validator: Option<String>,
    /// One entry for each attribute of any record type that points at this one
    pub referencing: Vec<BackReference>,
}

/// Whether any record type in `objs` has the given name.
pub open spec fn declares(objs: Seq<Object>, name: Seq<char>) -> bool {
    exists|k: int| 0 <= k < objs.len() && (#[trigger] objs[k]).name@ == name
}

/// Whether the target of a reference attribute is declared in `objs`.
pub open spec fn resolved(objs: Seq<Object>, a: Attribute) -> bool {
    a.target() matches Some(t) ==> declares(objs, t)
}

/// Whether an attribute takes part in a join record: mandatory and a reference.
pub open spec fn join_endpoint(a: Attribute) -> bool {
    !a.optional() && a.reference()
}

/// Whether an attribute takes part in an immutable join record.
pub open spec fn immutable_join_endpoint(a: Attribute) -> bool {
    join_endpoint(a) && !a.spec_mutable()
}

impl Object {
    /// The back-references of this record type, as pairs of names.
    pub open spec fn back_refs(&self) -> Seq<(Seq<char>, Seq<char>)> {
        self.referencing@.map_values(|b: BackReference| b@)
    }

    /// Exactly two attributes, both mandatory references.
    pub open spec fn spec_relation(&self) -> bool {
        &&& self.attr@.len() == 2
        &&& join_endpoint(self.attr@[0])
        &&& join_endpoint(self.attr@[1])
    }

    /// Exactly two attributes, both mandatory, immutable references.
    pub open spec fn spec_immutable_relation(&self) -> bool {
        &&& self.attr@.len() == 2
        &&& immutable_join_endpoint(self.attr@[0])
        &&& immutable_join_endpoint(self.attr@[1])
    }

    /// Index of the first attribute that points at `target`.
    pub open spec fn first_reference_to(&self, target: Seq<char>, i: int) -> bool {
        &&& 0 <= i < self.attr@.len()
        &&& self.attr@[i].target() == Some(target)
        &&& forall|j: int| 0 <= j < i ==> (#[trigger] self.attr@[j]).target() != Some(target)
    }

    /// Build a record type with an empty list of back-references.
    pub fn new(
        name: String,
        tbnm: String,
        attr: Vec<Attribute>,
        comm: Option<String>,
        category: Option<String>,
        validator: Option<String>,
    ) -> (r: Object)
        ensures
            r.name == name,
            r.tbnm == tbnm,
            r.attr == attr,
            r.comm == comm,
            r.category == category,
            r.validator == validator,
            r.referencing@.len() == 0,
    {
        Object { tbnm, name, attr, comm, category, validator, referencing: Vec::new() }
    }

    /// Retrieve the name of the record type
    pub fn get_name(&self) -> (r: &String)
        ensures
            r == &self.name,
    {
        &self.name
    }

    /// Retrieve the name of the collection that holds the instances
    pub fn get_table_name(&self) -> (r: &String)
        ensures
            r == &self.tbnm,
    {
        &self.tbnm
    }

    /// Retrieve the name of the external validator, if any
    pub fn get_validator(&self) -> (r: &Option<String>)
        ensures
            r == &self.validator,
    {
        &self.validator
    }

    /// Retrieve the category in which this record type is grouped
    pub fn get_category(&self) -> (r: &Option<String>)
        ensures
            r == &self.category,
    {
        &self.category
    }

    /// Retrieve the description of the record type
    pub fn get_description(&self) -> (r: &Option<String>)
        ensures
            r == &self.comm,
    {
        &self.comm
    }

    /// Retrieve the attributes, in declaration order
    pub fn get_attributes(&self) -> (r: &Vec<Attribute>)
        ensures
            r == &self.attr,
    {
        &self.attr
    }

    /// Check if the record type has attributes, secret or not
    pub fn has_attributes(&self) -> (r: bool)
        ensures
            r == (self.attr@.len() > 0),
    {
        self.attr.len() > 0
    }

    /// Check if the record type has an attribute that is not secret
    pub fn has_public_attributes(&self) -> (r: bool)
        ensures
            r == exists|i: int| 0 <= i < self.attr@.len() && !(#[trigger] self.attr@[i]).spec_secret(),
    {
        let mut i: usize = 0;
        while i < self.attr.len()
            invariant
                i <= self.attr@.len(),
                forall|j: int| 0 <= j < i ==> (#[trigger] self.attr@[j]).spec_secret(),
            decreases self.attr@.len() - i,
        {
            if !self.attr[i].is_secret() {
                return true;
            }
            i = i + 1;
        }
        false
    }

    /// Retrieve the first attribute that points at the record type `referenced`
    pub fn get_relation_attribute(&self, referenced: &str) -> (r: Option<&Attribute>)
        ensures
            r is None <==> forall|i: int|
                0 <= i < self.attr@.len() ==> (#[trigger] self.attr@[i]).target() != Some(referenced@),
            r matches Some(a) ==> exists|i: int|
                self.first_reference_to(referenced@, i) && *a == #[trigger] self.attr@[i],
    {
        let mut i: usize = 0;
        while i < self.attr.len()
            invariant
                i <= self.attr@.len(),
                forall|j: int| 0 <= j < i ==> (#[trigger] self.attr@[j]).target() != Some(referenced@),
            decreases self.attr@.len() - i,
        {
            let at = &self.attr[i];
            match at.get_reference() {
                Some(r) => {
                    if text_eq(r.as_str(), referenced) {
                        assert(self.first_reference_to(referenced@, i as int));
                        return Some(at);
                    }
                },
                None => {},
            }
            i = i + 1;
        }
        None
    }

    /// Check if the record type holds a reference to any record type.
    /// Only the record type holding the reference counts, not the one referenced.
    pub fn has_relations(&self) -> (r: bool)
        ensures
            r == exists|i: int| 0 <= i < self.attr@.len() && (#[trigger] self.attr@[i]).reference(),
    {
        let mut i: usize = 0;
        while i < self.attr.len()
            invariant
                i <= self.attr@.len(),
                forall|j: int| 0 <= j < i ==> !(#[trigger] self.attr@[j]).reference(),
            decreases self.attr@.len() - i,
        {
            if self.attr[i].get_reference().is_some() {
                return true;
            }
            i = i + 1;
        }
        false
    }

    /// Record that an attribute of another record type points at this one
    pub fn add_referencing_object(&mut self, referencing: BackReference)
        ensures
            final(self).referencing@ == old(self).referencing@.push(referencing),
            final(self).name == old(self).name,
            final(self).tbnm == old(self).tbnm,
            final(self).attr == old(self).attr,
            final(self).comm == old(self).comm,
            final(self).category == old(self).category,
            final(self).validator == old(self).validator,
    {
        self.referencing.push(referencing)
    }

    /// Check if any attribute of any record type points at this one
    pub fn is_referenced(&self) -> (r: bool)
        ensures
            r == (self.referencing@.len() > 0),
    {
        self.referencing.len() > 0
    }

    /// Retrieve the back-references, one per referencing attribute
    pub fn get_referencing_objects(&self) -> (r: &Vec<BackReference>)
        ensures
            r == &self.referencing,
    {
        &self.referencing
    }

    /// Check if this record type is an immutable many-to-many join record:
    /// exactly two attributes, both mandatory, immutable references. The two
    /// endpoints come back in declaration order.
    pub fn is_object_immutable_relation(&self) -> (r: Option<(&Attribute, &Attribute)>)
        ensures
            r is Some <==> self.spec_immutable_relation(),
            r matches Some((a, b)) ==> *a == self.attr@[0] && *b == self.attr@[1],
    {
        if self.attr.len() != 2 {
            return None;
        }
        let from = &self.attr[0];
        let to = &self.attr[1];
        if from.is_optional() || from.is_mutable() || from.get_reference().is_none() {
            return None;
        }
        if to.is_optional() || to.is_mutable() || to.get_reference().is_none() {
            return None;
        }
        Some((from, to))
    }

    /// Check if this record type is a many-to-many join record: exactly two
    /// attributes, both mandatory references. The names of the two referenced
    /// record types come back in declaration order.
    pub fn is_object_relation(&self) -> (r: Option<(&String, &String)>)
        ensures
            r is Some <==> self.spec_relation(),
            r matches Some((a, b)) ==> Some(a@) == self.attr@[0].target() && Some(b@)
                == self.attr@[1].target(),
    {
        if self.attr.len() != 2 {
            return None;
        }
        let from = &self.attr[0];
        let to = &self.attr[1];
        if from.is_optional() || to.is_optional() {
            return None;
        }
        match (from.get_reference(), to.get_reference()) {
            (Some(a), Some(b)) => Some((a, b)),
            _ => None,
        }
    }

    /// Check that every referenced record type is declared in `objects`.
    /// The first attribute whose target is missing is reported, with this
    /// record type's name, the attribute's name and the missing target.
    pub fn validate(&self, objects: &Vec<Object>) -> (r: Result<(), SchemaError>)
        ensures
            r is Ok <==> forall|i: int|
                0 <= i < self.attr@.len() ==> resolved(objects@, #[trigger] self.attr@[i]),
            r matches Err(e) ==> exists|i: int|
                0 <= i < self.attr@.len() && self.dangling_at(objects@, i, e),
    {
        let mut i: usize = 0;
        while i < self.attr.len()
            invariant
                i <= self.attr@.len(),
                forall|j: int|
                    0 <= j < i ==> resolved(objects@, #[trigger] self.attr@[j]),
            decreases self.attr@.len() - i,
        {
            let at = &self.attr[i];
            match at.get_reference() {
                Some(r) => {
                    if !is_declared(objects, r.as_str()) {
                        let e = SchemaError::DanglingReference {
                            object: self.name.clone(),
                            attribute: at.name.clone(),
                            target: r.clone(),
                        };
                        assert(self.dangling_at(objects@, i as int, e));
                        return Err(e);
                    }
                },
                None => {},
            }
            i = i + 1;
        }
        Ok(())
    }

    /// Attribute `i` is the first whose target is not declared, and `e` names it.
    pub open spec fn dangling_at(&self, objects: Seq<Object>, i: int, e: SchemaError) -> bool {
        &&& self.attr@[i].target() matches Some(t) && !declares(objects, t)
        &&& forall|j: int|
            0 <= j < i ==> resolved(objects, #[trigger] self.attr@[j])
        &&& e matches SchemaError::DanglingReference { object, attribute, target } && object@
            == self.name@ && attribute@ == self.attr@[i].name@ && Some(target@)
            == self.attr@[i].target()
    }
}

/// Index of the first record type in `objects` with the given name.
pub fn find_object(objects: &Vec<Object>, name: &str) -> (r: Option<usize>)
    ensures
        r is None <==> !declares(objects@, name@),
        r matches Some(k) ==> k < objects@.len() && objects@[k as int].name@ == name@ && forall|
            j: int,
        | 0 <= j < k ==> (#[trigger] objects@[j]).name@ != name@,
{
    let mut k: usize = 0;
    while k < objects.len()
        invariant
            k <= objects@.len(),
            forall|j: int| 0 <= j < k ==> (#[trigger] objects@[j]).name@ != name@,
        decreases objects@.len() - k,
    {
        if text_eq(objects[k].name.as_str(), name) {
            return Some(k);
        }
        k = k + 1;
    }
    None
}

fn is_declared(objects: &Vec<Object>, name: &str) -> (r: bool)
    ensures
        r == declares(objects@, name@),
{
    find_object(objects, name).is_some()
}

} // verus!
