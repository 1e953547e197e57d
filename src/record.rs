//! The reflection protocol on record instances: introspection listings,
//! generic reads and writes by attribute name in the text encoding, the
//! optimistic setter, the generic factory and the sequential iteration cursor.
//! The store itself stays outside: each step here takes what the store
//! answered and says what to do next.
use vstd::prelude::*;
use vstd::string::*;

use crate::attributes::{Attribute, AttributeType, BaseAttributeType};
use crate::introspection::{self, extract_optional, inner_text, Error, FromText};
use crate::number::{decimal_in_range, decimal_text, format_i32, format_i64};
use crate::object::Object;
use crate::planner::names;
use crate::text::{owned, text_eq};

verus! {

/// The value of one attribute of an instance.
#[derive(Debug, Clone, PartialEq, Eq)]
pub enum FieldValue {
    Integer(i64),
    Text(String),
    /// The identifier of the referenced instance
    Reference(i32),
}

/// Two attribute values are the same: equal integers, equal texts, or
/// references to the same identifier; two absent values are the same.
pub open spec fn same_value(a: Option<FieldValue>, b: Option<FieldValue>) -> bool {
    match (a, b) {
        (None, None) => true,
        (Some(FieldValue::Integer(x)), Some(FieldValue::Integer(y))) => x == y,
        (Some(FieldValue::Text(x)), Some(FieldValue::Text(y))) => x@ == y@,
        (Some(FieldValue::Reference(x)), Some(FieldValue::Reference(y))) => x == y,
        _ => false,
    }
}

/// The text of a present value.
pub open spec fn value_text(v: FieldValue) -> Seq<char> {
    match v {
        FieldValue::Integer(n) => decimal_text(n as int),
        FieldValue::Text(s) => s@,
        FieldValue::Reference(id) => decimal_text(id as int),
    }
}

/// The text encoding of an attribute value: a mandatory value is its text;
/// an optional one is empty when absent and `(text)` when present.
pub open spec fn encoded(optional: bool, v: Option<FieldValue>) -> Seq<char> {
    match v {
        None => Seq::empty(),
        Some(x) => if optional {
            seq!['('] + value_text(x) + seq![')']
        } else {
            value_text(x)
        },
    }
}

/// Whether `t` denotes a value of base type `base`.
pub open spec fn base_readable(base: BaseAttributeType, t: Seq<char>) -> bool {
    match base {
        BaseAttributeType::Integer => decimal_in_range(t, i64::MIN as int, i64::MAX as int) is Some,
        BaseAttributeType::String => true,
        BaseAttributeType::Reference(_) => decimal_in_range(t, i32::MIN as int, i32::MAX as int) is Some,
    }
}

/// Whether `t` denotes `v`, a value of base type `base`.
pub open spec fn base_denotes(base: BaseAttributeType, t: Seq<char>, v: FieldValue) -> bool {
    match base {
        BaseAttributeType::Integer => v matches FieldValue::Integer(n) && decimal_in_range(
            t,
            i64::MIN as int,
            i64::MAX as int,
        ) == Some(n as int),
        BaseAttributeType::String => v matches FieldValue::Text(s) && s@ == t,
        BaseAttributeType::Reference(_) => v matches FieldValue::Reference(n) && decimal_in_range(
            t,
            i32::MIN as int,
            i32::MAX as int,
        ) == Some(n as int),
    }
}

/// `t` starts with `(` and ends with `)`.
pub open spec fn wrapped(t: Seq<char>) -> bool {
    t.len() > 0 && t[0] == '(' && t.last() == ')'
}

/// Whether `t` is a valid text for attribute `a`.
pub open spec fn readable(a: Attribute, t: Seq<char>) -> bool {
    if a.optional() {
        t.len() == 0 || (wrapped(t) && base_readable(a.is.base(), inner_text(t)))
    } else {
        base_readable(a.is.base(), t)
    }
}

/// Whether `t` denotes `v` for attribute `a`.
pub open spec fn denotes(a: Attribute, t: Seq<char>, v: Option<FieldValue>) -> bool {
    if a.optional() {
        if t.len() == 0 {
            v is None
        } else {
            v matches Some(x) && base_denotes(a.is.base(), inner_text(t), x)
        }
    } else {
        v matches Some(x) && base_denotes(a.is.base(), t, x)
    }
}

/// Whether attribute `a` is the one generic access reaches under `name`.
pub open spec fn selectable(a: Attribute, name: Seq<char>, visible_only: bool) -> bool {
    a.name@ == name && (!visible_only || !a.spec_secret())
}

/// `i` is the first attribute of `attrs` selectable under `name`.
pub open spec fn selected_at(attrs: Seq<Attribute>, name: Seq<char>, visible_only: bool, i: int) -> bool {
    &&& 0 <= i < attrs.len()
    &&& selectable(attrs[i], name, visible_only)
    &&& forall|j: int| 0 <= j < i ==> !selectable(#[trigger] attrs[j], name, visible_only)
}

pub open spec fn any_selectable(attrs: Seq<Attribute>, name: Seq<char>, visible_only: bool) -> bool {
    exists|i: int| 0 <= i < attrs.len() && selectable(#[trigger] attrs[i], name, visible_only)
}

/// The attributes that generic introspection shows: the non-secret ones, in order.
pub open spec fn visible(attrs: Seq<Attribute>) -> Seq<Attribute>
    decreases attrs.len(),
{
    if attrs.len() == 0 {
        Seq::empty()
    } else if attrs.last().spec_secret() {
        visible(attrs.drop_last())
    } else {
        visible(attrs.drop_last()).push(attrs.last())
    }
}

/// `d` is the introspection description of attribute `a`.
pub open spec fn describes(d: introspection::Attribute, a: Attribute) -> bool {
    &&& d.name@ == a.name@
    &&& d.optional == a.optional()
    &&& d.mutable == a.spec_mutable()
    &&& match a.is.base() {
        BaseAttributeType::Integer => d.kind is Integer,
        BaseAttributeType::String => d.kind is String,
        BaseAttributeType::Reference(t) => d.kind matches introspection::AttributeType::Reference(
            u,
        ) && u@ == t@,
    }
}

/// Index of the first attribute selectable under `name`.
pub fn find_attribute(attrs: &Vec<Attribute>, name: &str, visible_only: bool) -> (r: Option<usize>)
    ensures
        r is None <==> !any_selectable(attrs@, name@, visible_only),
        r matches Some(i) ==> selected_at(attrs@, name@, visible_only, i as int),
{
    let mut i: usize = 0;
    while i < attrs.len()
        invariant
            i <= attrs@.len(),
            forall|j: int| 0 <= j < i ==> !selectable(#[trigger] attrs@[j], name@, visible_only),
        decreases attrs@.len() - i,
    {
        let a = &attrs[i];
        if text_eq(a.name.as_str(), name) && (!visible_only || !a.is_secret()) {
            return Some(i);
        }
        i = i + 1;
    }
    None
}

/// Describe one attribute for generic introspection.
pub fn describe(a: &Attribute) -> (r: introspection::Attribute)
    ensures
        describes(r, *a),
{
    let kind = match a.is.get_base_type() {
        BaseAttributeType::Integer => introspection::AttributeType::Integer,
        BaseAttributeType::String => introspection::AttributeType::String,
        BaseAttributeType::Reference(t) => introspection::AttributeType::Reference(t.clone()),
    };
    introspection::Attribute::new(a.name.clone(), kind, a.is_optional(), a.is_mutable())
}

/// The descriptions of the visible attributes of a record type, in order.
/// Secret attributes are absent.
pub fn get_attributes(object: &Object) -> (r: Vec<introspection::Attribute>)
    ensures
        r@.len() == visible(object.attr@).len(),
        forall|i: int| 0 <= i < r@.len() ==> describes(#[trigger] r@[i], visible(object.attr@)[i]),
{
    let attrs = &object.attr;
    let mut out: Vec<introspection::Attribute> = Vec::new();
    let mut i: usize = 0;
    while i < attrs.len()
        invariant
            attrs == &object.attr,
            i <= attrs@.len(),
            out@.len() == visible(attrs@.take(i as int)).len(),
            forall|k: int|
                0 <= k < out@.len() ==> describes(#[trigger] out@[k], visible(attrs@.take(i as int))[k]),
        decreases attrs@.len() - i,
    {
        assert(attrs@.take(i + 1).drop_last() =~= attrs@.take(i as int));
        if !attrs[i].is_secret() {
            out.push(describe(&attrs[i]));
        }
        i = i + 1;
    }
    assert(attrs@.take(attrs@.len() as int) =~= attrs@);
    out
}

/// The names of the visible attributes of a record type, in order.
/// Secret attributes are absent.
pub fn get_attribute_names(object: &Object) -> (r: Vec<String>)
    ensures
        names(r@) == visible(object.attr@).map_values(|a: Attribute| a.name@),
{
    let attrs = &object.attr;
    let mut out: Vec<String> = Vec::new();
    let mut i: usize = 0;
    while i < attrs.len()
        invariant
            attrs == &object.attr,
            i <= attrs@.len(),
            names(out@) == visible(attrs@.take(i as int)).map_values(|a: Attribute| a.name@),
        decreases attrs@.len() - i,
    {
        assert(attrs@.take(i + 1).drop_last() =~= attrs@.take(i as int));
        let ghost before = out@;
        if !attrs[i].is_secret() {
            out.push(attrs[i].name.clone());
            assert(names(out@) =~= names(before).push(attrs@[i as int].name@));
            assert(visible(attrs@.take(i + 1)) == visible(attrs@.take(i as int)).push(attrs@[i as int]));
            assert(visible(attrs@.take(i + 1)).map_values(|a: Attribute| a.name@) =~= visible(
                attrs@.take(i as int),
            ).map_values(|a: Attribute| a.name@).push(attrs@[i as int].name@));
        }
        i = i + 1;
    }
    assert(attrs@.take(attrs@.len() as int) =~= attrs@);
    out
}

/// The text of a present value.
pub fn format_value(v: &FieldValue) -> (r: String)
    ensures
        r@ == value_text(*v),
{
    match v {
        FieldValue::Integer(n) => format_i64(*n),
        FieldValue::Text(t) => t.clone(),
        FieldValue::Reference(id) => format_i32(*id),
    }
}

/// The text encoding of an attribute value.
pub fn encode_value(optional: bool, v: &Option<FieldValue>) -> (r: String)
    ensures
        r@ == encoded(optional, *v),
{
    match v {
        None => String::new(),
        Some(x) => {
            let t = format_value(x);
            if optional {
                proof {
                    reveal_strlit("(");
                    reveal_strlit(")");
                }
                let mut out = String::from_str("(");
                out.append(t.as_str());
                out.append(")");
                out
            } else {
                t
            }
        },
    }
}

fn read_base(base: &BaseAttributeType, t: &str) -> (r: Option<FieldValue>)
    ensures
        r is Some <==> base_readable(*base, t@),
        r matches Some(v) ==> base_denotes(*base, t@, v),
{
    match base {
        BaseAttributeType::Integer => match i64::from_text(t) {
            Ok(n) => Some(FieldValue::Integer(n)),
            Err(_) => None,
        },
        BaseAttributeType::String => Some(FieldValue::Text(owned(t))),
        BaseAttributeType::Reference(_) => match i32::from_text(t) {
            Ok(n) => Some(FieldValue::Reference(n)),
            Err(_) => None,
        },
    }
}

fn read_optional_base(base: &BaseAttributeType, t: &str) -> (r: Option<Option<FieldValue>>)
    ensures
        r is Some <==> (t@.len() == 0 || (wrapped(t@) && base_readable(*base, inner_text(t@)))),
        r matches Some(v) ==> (if t@.len() == 0 {
            v is None
        } else {
            v matches Some(x) && base_denotes(*base, inner_text(t@), x)
        }),
{
    match base {
        BaseAttributeType::Integer => match extract_optional::<i64>(t) {
            Ok(Some(n)) => Some(Some(FieldValue::Integer(n))),
            Ok(None) => Some(None),
            Err(_) => None,
        },
        BaseAttributeType::String => match extract_optional::<String>(t) {
            Ok(Some(s)) => Some(Some(FieldValue::Text(s))),
            Ok(None) => Some(None),
            Err(_) => None,
        },
        BaseAttributeType::Reference(_) => match extract_optional::<i32>(t) {
            Ok(Some(n)) => Some(Some(FieldValue::Reference(n))),
            Ok(None) => Some(None),
            Err(_) => None,
        },
    }
}

/// Read the value of attribute `a` from its text encoding. A text that does
/// not convert is a `ParsingError` naming the attribute.
pub fn parse_value(a: &Attribute, text: &str) -> (r: Result<Option<FieldValue>, Error>)
    ensures
        r is Ok <==> readable(*a, text@),
        r matches Ok(v) ==> denotes(*a, text@, v),
        r matches Err(e) ==> e matches Error::ParsingError(n) && n@ == a.name@,
{
    let read = match &a.is {
        AttributeType::Mandatory(base) => match read_base(base, text) {
            Some(v) => Some(Some(v)),
            None => None,
        },
        AttributeType::Optional(base) => read_optional_base(base, text),
    };
    match read {
        Some(v) => Ok(v),
        None => Err(Error::ParsingError(a.name.clone())),
    }
}

/// A persisted instance of a record type: its identifier, its version and
/// one value per attribute, in declaration order.
#[derive(Debug, Clone)]
pub struct Instance {
    pub id: i32,
    pub version: i64,
    pub values: Vec<Option<FieldValue>>,
}

/// What the setter asks of the store.
#[derive(Debug, Clone, Copy, PartialEq, Eq, Structural)]
pub enum SetterStep {
    /// The new value is the current one: nothing is written
    Unchanged,
    /// Write the new value where the row has this identifier and version
    Update { id: i32, expected_version: i64 },
}

fn copy_value(v: &Option<FieldValue>) -> (r: Option<FieldValue>)
    ensures
        r == *v,
{
    match v {
        None => None,
        Some(FieldValue::Integer(n)) => Some(FieldValue::Integer(*n)),
        Some(FieldValue::Text(t)) => Some(FieldValue::Text(t.clone())),
        Some(FieldValue::Reference(n)) => Some(FieldValue::Reference(*n)),
    }
}

fn same_values(a: &Option<FieldValue>, b: &Option<FieldValue>) -> (r: bool)
    ensures
        r == same_value(*a, *b),
{
    match (a, b) {
        (None, None) => true,
        (Some(FieldValue::Integer(x)), Some(FieldValue::Integer(y))) => *x == *y,
        (Some(FieldValue::Text(x)), Some(FieldValue::Text(y))) => text_eq(x.as_str(), y.as_str()),
        (Some(FieldValue::Reference(x)), Some(FieldValue::Reference(y))) => *x == *y,
        _ => false,
    }
}

impl Instance {
    /// One value per attribute of `object`.
    pub open spec fn fits(&self, object: Object) -> bool {
        self.values@.len() == object.attr@.len()
    }

    /// Generic read of a visible attribute in the text encoding. An unknown
    /// name, or the name of a secret attribute, is `UnknownAttribute`.
    pub fn get_attribute(&self, object: &Object, attribute: &str) -> (r: Result<String, Error>)
        requires
            self.fits(*object),
        ensures
            r is Err <==> !any_selectable(object.attr@, attribute@, true),
            r matches Err(e) ==> e matches Error::UnknownAttribute(n) && n@ == attribute@,
            r matches Ok(t) ==> exists|i: int|
                selected_at(object.attr@, attribute@, true, i) && t@ == encoded(
                    object.attr@[i].optional(),
                    #[trigger] self.values@[i],
                ),
    {
        match find_attribute(&object.attr, attribute, true) {
            None => Err(Error::UnknownAttribute(owned(attribute))),
            Some(i) => {
                let t = encode_value(object.attr[i].is_optional(), &self.values[i]);
                assert(selected_at(object.attr@, attribute@, true, i as int));
                Ok(t)
            },
        }
    }

    /// Decide the first step of a setter: no write at all when the new value
    /// is the current one, else an update conditioned on identifier and version.
    pub fn prepare_update(&self, index: usize, value: &Option<FieldValue>) -> (r: SetterStep)
        requires
            index < self.values@.len(),
        ensures
            r == (if same_value(self.values@[index as int], *value) {
                SetterStep::Unchanged
            } else {
                SetterStep::Update { id: self.id, expected_version: self.version }
            }),
    {
        if same_values(&self.values[index], value) {
            SetterStep::Unchanged
        } else {
            SetterStep::Update { id: self.id, expected_version: self.version }
        }
    }

    /// The instance as it would be after the update, for an external validator.
    pub fn hypothetical(&self, index: usize, value: &Option<FieldValue>) -> (r: Instance)
        requires
            index < self.values@.len(),
        ensures
            r.id == self.id,
            r.version == self.version,
            r.values@ == self.values@.update(index as int, *value),
    {
        let mut values: Vec<Option<FieldValue>> = Vec::new();
        let mut i: usize = 0;
        while i < self.values.len()
            invariant
                i <= self.values@.len(),
                index < self.values@.len(),
                values@ == self.values@.update(index as int, *value).take(i as int),
            decreases self.values@.len() - i,
        {
            let v = if i == index {
                copy_value(value)
            } else {
                copy_value(&self.values[i])
            };
            values.push(v);
            assert(values@ =~= self.values@.update(index as int, *value).take(i + 1));
            i = i + 1;
        }
        assert(self.values@.update(index as int, *value).take(i as int) =~= self.values@.update(
            index as int,
            *value,
        ));
        Instance { id: self.id, version: self.version, values }
    }

    /// Finish a setter with the number of rows the conditioned update changed:
    /// exactly one commits the value and increments the version; any other
    /// count means the optimistic race was lost, `ElementNotFound`, and the
    /// instance is left as it was.
    pub fn commit_update(&mut self, index: usize, value: Option<FieldValue>, rows_affected: u64) -> (r: Result<(), Error>)
        requires
            index < old(self).values@.len(),
            old(self).version < i64::MAX,
        ensures
            r is Ok <==> rows_affected == 1,
            r matches Err(e) ==> e is ElementNotFound && *final(self) == *old(self),
            r is Ok ==> {
                &&& final(self).id == old(self).id
                &&& final(self).version == old(self).version + 1
                &&& final(self).values@ == old(self).values@.update(index as int, value)
            },
    {
        if rows_affected == 1 {
            self.version = self.version + 1;
            self.values.set(index, value);
            Ok(())
        } else {
            Err(Error::ElementNotFound)
        }
    }

    /// Generic write of an attribute from its text encoding: decide what the
    /// setter asks of the store. `id` and `version`, and attributes that are
    /// not mutable, are `ImmutableAttribute`; unknown names and secret
    /// attributes are `UnknownAttribute`; a text that does not convert is a
    /// `ParsingError`. The value read comes back with the attribute's index.
    pub fn set_attribute(&self, object: &Object, attribute: &str, value: &str) -> (r: Result<(usize, Option<FieldValue>, SetterStep), Error>)
        requires
            self.fits(*object),
        ensures
            is_reserved(attribute@) ==> immutable_attribute(r, attribute@),
            !is_reserved(attribute@) && !any_selectable(object.attr@, attribute@, true)
                ==> unknown_attribute(r, attribute@),
            !is_reserved(attribute@) ==> forall|i: int| #[trigger]
                selected_at(object.attr@, attribute@, true, i) ==> {
                    let a = object.attr@[i];
                    &&& !a.spec_mutable() ==> immutable_attribute(r, attribute@)
                    &&& a.spec_mutable() && !readable(a, value@) ==> parsing_error(r, attribute@)
                    &&& a.spec_mutable() && readable(a, value@) ==> (r matches Ok((k, v, step))
                        && k == i && denotes(a, value@, v) && step == (if same_value(
                        self.values@[i],
                        v,
                    ) {
                        SetterStep::Unchanged
                    } else {
                        SetterStep::Update { id: self.id, expected_version: self.version }
                    }))
                },
    {
        let reserved = text_eq(attribute, "id") || text_eq(attribute, "version");
        proof {
            reveal_strlit("id");
            reveal_strlit("version");
            assert("id"@ =~= seq!['i', 'd']);
            assert("version"@ =~= seq!['v', 'e', 'r', 's', 'i', 'o', 'n']);
        }
        if reserved {
            return Err(Error::ImmutableAttribute(owned(attribute)));
        }
        match find_attribute(&object.attr, attribute, true) {
            None => Err(Error::UnknownAttribute(owned(attribute))),
            Some(i) => {
                let a = &object.attr[i];
                if !a.is_mutable() {
                    return Err(Error::ImmutableAttribute(owned(attribute)));
                }
                match parse_value(a, value) {
                    Err(e) => Err(e),
                    Ok(v) => {
                        let step = self.prepare_update(i, &v);
                        Ok((i, v, step))
                    },
                }
            },
        }
    }
}

pub open spec fn unknown_attribute<T>(r: Result<T, Error>, name: Seq<char>) -> bool {
    r matches Err(Error::UnknownAttribute(n)) && n@ == name
}

pub open spec fn immutable_attribute<T>(r: Result<T, Error>, name: Seq<char>) -> bool {
    r matches Err(Error::ImmutableAttribute(n)) && n@ == name
}

pub open spec fn parsing_error<T>(r: Result<T, Error>, name: Seq<char>) -> bool {
    r matches Err(Error::ParsingError(n)) && n@ == name
}

/// The names that every record instance reserves: `id` and `version`.
pub open spec fn is_reserved(name: Seq<char>) -> bool {
    name == seq!['i', 'd'] || name == seq!['v', 'e', 'r', 's', 'i', 'o', 'n']
}

/// The generic factory of a record type: attribute values set by name from
/// text, each one unset until given.
#[derive(Debug, Clone)]
pub struct RecordFactory {
    /// Per attribute, in declaration order: `None` while unset
    pub values: Vec<Option<Option<FieldValue>>>,
}

/// The first mandatory attribute that is still unset is attribute `i`.
pub open spec fn first_missing(attrs: Seq<Attribute>, values: Seq<Option<Option<FieldValue>>>, i: int) -> bool {
    &&& 0 <= i < attrs.len()
    &&& !attrs[i].optional() && values[i] is None
    &&& forall|j: int| 0 <= j < i ==> (#[trigger] attrs[j]).optional() || values[j] is Some
}

impl RecordFactory {
    /// A factory for `object` with every attribute unset.
    pub fn new(object: &Object) -> (r: RecordFactory)
        ensures
            r.values@.len() == object.attr@.len(),
            forall|i: int| 0 <= i < r.values@.len() ==> #[trigger] r.values@[i] is None,
    {
        let mut values: Vec<Option<Option<FieldValue>>> = Vec::new();
        let mut i: usize = 0;
        while i < object.attr.len()
            invariant
                i <= object.attr@.len(),
                values@.len() == i,
                forall|k: int| 0 <= k < i ==> #[trigger] values@[k] is None,
            decreases object.attr@.len() - i,
        {
            values.push(None);
            i = i + 1;
        }
        RecordFactory { values }
    }

    /// Set an attribute, secret or not, from its text encoding. `id` and
    /// `version` are accepted and ignored; an unknown name is
    /// `UnknownAttribute`. A text that does not convert is a `ParsingError`
    /// and leaves that attribute unset; the other attributes keep their values.
    pub fn set_attribute(&mut self, object: &Object, attribute_name: &str, attribute_value: &str) -> (r: Result<(), Error>)
        requires
            old(self).values@.len() == object.attr@.len(),
        ensures
            final(self).values@.len() == old(self).values@.len(),
            is_reserved(attribute_name@) ==> r is Ok && *final(self) == *old(self),
            !is_reserved(attribute_name@) && !any_selectable(object.attr@, attribute_name@, false)
                ==> unknown_attribute(r, attribute_name@) && *final(self) == *old(self),
            !is_reserved(attribute_name@) ==> forall|i: int| #[trigger]
                selected_at(object.attr@, attribute_name@, false, i) ==> {
                    let a = object.attr@[i];
                    &&& !readable(a, attribute_value@) ==> parsing_error(r, attribute_name@)
                        && final(self).values@ == old(self).values@.update(i, None)
                    &&& readable(a, attribute_value@) ==> r is Ok && exists|v: Option<FieldValue>|
                        denotes(a, attribute_value@, v) && final(self).values@ == old(
                            self,
                        ).values@.update(i, Some(v))
                },
    {
        let reserved = text_eq(attribute_name, "id") || text_eq(attribute_name, "version");
        proof {
            reveal_strlit("id");
            reveal_strlit("version");
            assert("id"@ =~= seq!['i', 'd']);
            assert("version"@ =~= seq!['v', 'e', 'r', 's', 'i', 'o', 'n']);
        }
        if reserved {
            return Ok(());
        }
        match find_attribute(&object.attr, attribute_name, false) {
            None => Err(Error::UnknownAttribute(owned(attribute_name))),
            Some(i) => match parse_value(&object.attr[i], attribute_value) {
                Ok(v) => {
                    self.values.set(i, Some(v));
                    Ok(())
                },
                Err(e) => {
                    self.values.set(i, None);
                    Err(e)
                },
            },
        }
    }

    /// Finish the factory: the first mandatory attribute still unset is
    /// `MissingMandatoryAttribute`, and nothing changes. Otherwise the values
    /// come back, an unset optional attribute as absent, and the factory is
    /// reset to every attribute unset.
    pub fn create(&mut self, object: &Object) -> (r: Result<Vec<Option<FieldValue>>, Error>)
        requires
            old(self).values@.len() == object.attr@.len(),
        ensures
            r is Err <==> exists|i: int| first_missing(object.attr@, old(self).values@, i),
            r matches Err(e) ==> *final(self) == *old(self) && exists|i: int|
                #[trigger] first_missing(object.attr@, old(self).values@, i) && (e matches Error::MissingMandatoryAttribute(n)
                    && n@ == object.attr@[i].name@),
            r matches Ok(vals) ==> {
                &&& vals@.len() == old(self).values@.len()
                &&& forall|i: int|
                    0 <= i < vals@.len() ==> #[trigger] vals@[i] == match old(self).values@[i] {
                        Some(v) => v,
                        None => None,
                    }
                &&& final(self).values@.len() == old(self).values@.len()
                &&& forall|i: int| 0 <= i < final(self).values@.len() ==> #[trigger] final(self).values@[i] is None
            },
    {
        let mut i: usize = 0;
        while i < self.values.len()
            invariant
                self.values@.len() == object.attr@.len(),
                i <= self.values@.len(),
                forall|j: int| 0 <= j < i ==> (#[trigger] object.attr@[j]).optional() || self.values@[j] is Some,
            decreases self.values@.len() - i,
        {
            if self.values[i].is_none() && !object.attr[i].is_optional() {
                assert(first_missing(object.attr@, self.values@, i as int));
                return Err(Error::MissingMandatoryAttribute(object.attr[i].name.clone()));
            }
            i = i + 1;
        }
        assert forall|k: int| !first_missing(object.attr@, self.values@, k) by {
            if 0 <= k < object.attr@.len() {
                assert(object.attr@[k].optional() || self.values@[k] is Some);
            }
        }
        let ghost before = self.values@;
        let mut out: Vec<Option<FieldValue>> = Vec::new();
        let mut k: usize = 0;
        while k < self.values.len()
            invariant
                self.values@.len() == before.len(),
                k <= before.len(),
                out@.len() == k,
                forall|j: int| 0 <= j < k ==> #[trigger] self.values@[j] is None,
                forall|j: int| k <= j < before.len() ==> #[trigger] self.values@[j] == before[j],
                forall|j: int|
                    0 <= j < k ==> #[trigger] out@[j] == match before[j] {
                        Some(v) => v,
                        None => None,
                    },
            decreases before.len() - k,
        {
            let v = match &self.values[k] {
                Some(v) => copy_value(v),
                None => None,
            };
            out.push(v);
            self.values.set(k, None);
            k = k + 1;
        }
        Ok(out)
    }
}

/// The cursor of a sequential iteration over an inclusive range of
/// identifiers. It names the identifier to load next; the store answers
/// with the smallest existing identifier strictly greater than that one,
/// and the cursor resumes there, or ends when there is none within range.
#[derive(Debug, Clone, Copy, PartialEq, Eq, Structural)]
pub struct ObjectIterator {
    pub next_id: i32,
    pub last_id: i32,
    pub finished: bool,
}

impl ObjectIterator {
    /// While running, the next identifier lies within the range.
    pub open spec fn wf(&self) -> bool {
        !self.finished ==> self.next_id <= self.last_id
    }

    /// Start an iteration over the identifiers from `first_id` to `final_id`, both included.
    pub fn new(first_id: i32, final_id: i32) -> (r: ObjectIterator)
        ensures
            r.wf(),
            r.next_id == first_id,
            r.last_id == final_id,
            r.finished == (first_id > final_id),
    {
        ObjectIterator { next_id: first_id, last_id: final_id, finished: first_id > final_id }
    }

    /// The identifier to load next, or `None` once the iteration has ended.
    pub fn pending(&self) -> (r: Option<i32>)
        ensures
            r == (if self.finished {
                None::<i32>
            } else {
                Some(self.next_id)
            }),
    {
        if self.finished {
            None
        } else {
            Some(self.next_id)
        }
    }

    /// Move past the current identifier, to `next_existing`, the smallest
    /// identifier in the store strictly greater than it. The iteration ends
    /// when there is none, or when it lies beyond the range.
    pub fn resume_after(&mut self, next_existing: Option<i32>)
        requires
            old(self).wf(),
        ensures
            final(self).wf(),
            final(self).last_id == old(self).last_id,
            old(self).finished ==> *final(self) == *old(self),
            !old(self).finished ==> match next_existing {
                Some(n) => if old(self).next_id < n <= old(self).last_id {
                    !final(self).finished && final(self).next_id == n
                } else {
                    final(self).finished
                },
                None => final(self).finished,
            },
    {
        if self.finished {
            return;
        }
        match next_existing {
            Some(n) => {
                if self.next_id < n && n <= self.last_id {
                    self.next_id = n;
                } else {
                    self.finished = true;
                }
            },
            None => {
                self.finished = true;
            },
        }
    }
}

/// Setter no-op law: setting an attribute to the value it already holds is
/// `Unchanged`, so no conditioned update is issued and the version stays.
pub proof fn lemma_setter_no_op(inst: Instance, index: int, value: Option<FieldValue>)
    requires
        0 <= index < inst.values@.len(),
        value == inst.values@[index],
    ensures
        (if same_value(inst.values@[index], value) {
            SetterStep::Unchanged
        } else {
            SetterStep::Update { id: inst.id, expected_version: inst.version }
        }) == SetterStep::Unchanged,
{
}

proof fn lemma_visible_from(attrs: Seq<Attribute>, k: int)
    requires
        0 <= k < visible(attrs).len(),
    ensures
        exists|j: int| 0 <= j < attrs.len() && visible(attrs)[k] == #[trigger] attrs[j] && !attrs[j].spec_secret(),
    decreases attrs.len(),
{
    let p = attrs.drop_last();
    if attrs.last().spec_secret() {
        lemma_visible_from(p, k);
        let j = choose|j: int| 0 <= j < p.len() && visible(p)[k] == #[trigger] p[j] && !p[j].spec_secret();
        assert(attrs[j] == p[j]);
    } else if k < visible(p).len() {
        lemma_visible_from(p, k);
        let j = choose|j: int| 0 <= j < p.len() && visible(p)[k] == #[trigger] p[j] && !p[j].spec_secret();
        assert(attrs[j] == p[j]);
    } else {
        assert(attrs[attrs.len() - 1] == attrs.last());
    }
}

/// Secret attributes never show: no description or name in the introspection
/// listings is that of a secret attribute, and a generic read of a secret
/// attribute's name finds no attribute, whatever else the record type offers.
pub proof fn lemma_secret_attributes_hidden(object: Object, i: int)
    requires
        crate::objectdb::unique_attribute_names(object),
        0 <= i < object.attr@.len(),
        object.attr@[i].spec_secret(),
    ensures
        forall|k: int| 0 <= k < visible(object.attr@).len() ==> !(#[trigger] visible(object.attr@)[k]).spec_secret(),
        !visible(object.attr@).map_values(|a: Attribute| a.name@).contains(object.attr@[i].name@),
        !any_selectable(object.attr@, object.attr@[i].name@, true),
{
    let attrs = object.attr@;
    let vis = visible(attrs);
    assert forall|k: int| 0 <= k < vis.len() implies !(#[trigger] vis[k]).spec_secret() by {
        lemma_visible_from(attrs, k);
    }
    assert forall|k: int| 0 <= k < vis.len() implies (#[trigger] vis[k]).name@ != attrs[i].name@ by {
        lemma_visible_from(attrs, k);
        let j = choose|j: int| 0 <= j < attrs.len() && vis[k] == #[trigger] attrs[j] && !attrs[j].spec_secret();
        assert(j != i);
    }
    let names_seq = vis.map_values(|a: Attribute| a.name@);
    if names_seq.contains(attrs[i].name@) {
        let k = choose|k: int| 0 <= k < names_seq.len() && names_seq[k] == attrs[i].name@;
        assert(vis[k].name@ != attrs[i].name@);
    }
    if any_selectable(attrs, attrs[i].name@, true) {
        let j = choose|j: int| 0 <= j < attrs.len() && selectable(#[trigger] attrs[j], attrs[i].name@, true);
        assert(j != i);
    }
}

} // verus!
