//! The capability plan of a record type: which operations its persistence
//! unit offers, derived from the record type and the schema graph alone.
use vstd::prelude::*;

use crate::attributes::Attribute;
use crate::introspection::{BackReference, Error};
use crate::object::{declares, find_object, Object};
use crate::objectdb::ObjectDB;
use crate::text::text_eq;

verus! {

/// The views of a list of names.
pub open spec fn names(v: Seq<String>) -> Seq<Seq<char>> {
    v.map_values(|s: String| s@)
}

/// The record type named `name` in `objs`: the first one with that name.
pub open spec fn lookup(objs: Seq<Object>, name: Seq<char>) -> Option<Object> {
    if declares(objs, name) {
        let k = choose|k: int|
            0 <= k < objs.len() && objs[k].name@ == name && forall|j: int|
                0 <= j < k ==> (#[trigger] objs[j]).name@ != name;
        Some(objs[k])
    } else {
        None
    }
}

/// The names of the indexable attributes, in declaration order.
pub open spec fn indexable_names(attrs: Seq<Attribute>) -> Seq<Seq<char>>
    decreases attrs.len(),
{
    if attrs.len() == 0 {
        Seq::empty()
    } else {
        let prev = indexable_names(attrs.drop_last());
        if attrs.last().spec_indexable() {
            prev.push(attrs.last().name@)
        } else {
            prev
        }
    }
}

/// The names of the mutable attributes, in declaration order.
pub open spec fn mutable_names(attrs: Seq<Attribute>) -> Seq<Seq<char>>
    decreases attrs.len(),
{
    if attrs.len() == 0 {
        Seq::empty()
    } else {
        let prev = mutable_names(attrs.drop_last());
        if attrs.last().spec_mutable() {
            prev.push(attrs.last().name@)
        } else {
            prev
        }
    }
}

/// How a getter reads its attribute.
#[derive(Debug, Clone, Copy, PartialEq, Eq, Structural)]
pub enum GetterKind {
    /// The stored value itself
    Value,
    /// The identifier of the referenced instance, without loading it
    Identifier,
    /// The referenced instance, loaded from the store
    Dereferencing,
}

/// A getter of one attribute.
#[derive(Debug, Clone, PartialEq, Eq)]
pub struct Getter {
    pub attribute: String,
    pub kind: GetterKind,
}

impl View for Getter {
    type V = (Seq<char>, GetterKind);

    open spec fn view(&self) -> (Seq<char>, GetterKind) {
        (self.attribute@, self.kind)
    }
}

/// The getters of a list of attributes: one value getter for a plain
/// attribute, an identifier getter and a dereferencing getter for a reference.
pub open spec fn getters_of(attrs: Seq<Attribute>) -> Seq<(Seq<char>, GetterKind)>
    decreases attrs.len(),
{
    if attrs.len() == 0 {
        Seq::empty()
    } else {
        let prev = getters_of(attrs.drop_last());
        let a = attrs.last();
        if a.reference() {
            prev.push((a.name@, GetterKind::Identifier)).push((a.name@, GetterKind::Dereferencing))
        } else {
            prev.push((a.name@, GetterKind::Value))
        }
    }
}

/// One endpoint of a join record: the attribute and the record type it points at.
#[derive(Debug, Clone, PartialEq, Eq)]
pub struct JoinEndpoint {
    pub attribute: String,
    pub target: String,
}

impl JoinEndpoint {
    /// `self` stands for attribute `a`.
    pub open spec fn of(&self, a: Attribute) -> bool {
        self.attribute@ == a.name@ && Some(self.target@) == a.target()
    }
}

/// An indirect traversal from an instance of a record type A, through the
/// join record `relation` filtered on its attribute `attribute` that points
/// at A, to the record type `related` at the join record's other endpoint.
#[derive(Debug, Clone, PartialEq, Eq)]
pub struct Traversal {
    pub relation: String,
    pub attribute: String,
    pub related: String,
}

impl View for Traversal {
    type V = (Seq<char>, Seq<char>, Seq<char>);

    open spec fn view(&self) -> (Seq<char>, Seq<char>, Seq<char>) {
        (self.relation@, self.attribute@, self.related@)
    }
}

/// The record type reached through join record `rel` from the endpoint whose
/// attribute is named `attribute`: the target of the other endpoint.
pub open spec fn other_endpoint(rel: Object, attribute: Seq<char>) -> Option<Seq<char>> {
    if rel.spec_immutable_relation() {
        if rel.attr@[0].name@ == attribute {
            rel.attr@[1].target()
        } else if rel.attr@[1].name@ == attribute {
            rel.attr@[0].target()
        } else {
            None
        }
    } else {
        None
    }
}

/// The traversal that back-reference `e` gives, if its record type is a join record.
pub open spec fn traversal_of(objs: Seq<Object>, e: (Seq<char>, Seq<char>)) -> Option<
    (Seq<char>, Seq<char>, Seq<char>),
> {
    match lookup(objs, e.0) {
        Some(rel) => match other_endpoint(rel, e.1) {
            Some(c) => Some((e.0, e.1, c)),
            None => None,
        },
        None => None,
    }
}

/// The traversals given by a list of back-references, in their order.
pub open spec fn traversals_of(objs: Seq<Object>, refs: Seq<(Seq<char>, Seq<char>)>) -> Seq<
    (Seq<char>, Seq<char>, Seq<char>),
>
    decreases refs.len(),
{
    if refs.len() == 0 {
        Seq::empty()
    } else {
        let prev = traversals_of(objs, refs.drop_last());
        match traversal_of(objs, refs.last()) {
            Some(t) => prev.push(t),
            None => prev,
        }
    }
}

/// The operations that the persistence unit of a record type offers, beyond
/// those every record type has: create, load by identifier, load by typed
/// identifier, mass creation and a generic factory.
#[derive(Debug, Clone)]
pub struct Capabilities {
    /// One loader per indexable attribute, returning exactly one match
    pub load_by_attribute: Vec<String>,
    /// For an immutable join record, the loader by both endpoint identifiers
    pub load_by_content: Option<(JoinEndpoint, JoinEndpoint)>,
    /// The getters, in declaration order of their attributes
    pub getters: Vec<Getter>,
    /// One setter per mutable attribute
    pub setters: Vec<String>,
    /// One accessor per back-reference: the referencing instances, by ascending identifier
    pub referencing: Vec<BackReference>,
    /// One accessor per indirect traversal through a join record
    pub traversals: Vec<Traversal>,
}

impl Capabilities {
    pub open spec fn traversals_view(&self) -> Seq<(Seq<char>, Seq<char>, Seq<char>)> {
        self.traversals@.map_values(|t: Traversal| t@)
    }

    pub open spec fn referencing_view(&self) -> Seq<(Seq<char>, Seq<char>)> {
        self.referencing@.map_values(|b: BackReference| b@)
    }

    /// Find the traversal that `get_related` serves for the triple
    /// (related record type, join record, attribute of the join record).
    /// An unknown triple is `ElementNotFound`.
    pub fn find_related(&self, related_object: &str, relation_object: &str, referencing_attribute: &str) -> (r: Result<&Traversal, Error>)
        ensures
            r is Err <==> !self.traversals_view().contains(
                (relation_object@, referencing_attribute@, related_object@),
            ),
            r matches Err(e) ==> e is ElementNotFound,
            r matches Ok(t) ==> t@ == (relation_object@, referencing_attribute@, related_object@),
    {
        let ghost want = (relation_object@, referencing_attribute@, related_object@);
        let mut i: usize = 0;
        while i < self.traversals.len()
            invariant
                i <= self.traversals@.len(),
                want == (relation_object@, referencing_attribute@, related_object@),
                forall|j: int| 0 <= j < i ==> self.traversals_view()[j] != want,
            decreases self.traversals@.len() - i,
        {
            let t = &self.traversals[i];
            assert(self.traversals_view()[i as int] == t@);
            if text_eq(t.relation.as_str(), relation_object) && text_eq(
                t.attribute.as_str(),
                referencing_attribute,
            ) && text_eq(t.related.as_str(), related_object) {
                assert(self.traversals_view()[i as int] == want);
                return Ok(t);
            }
            i = i + 1;
        }
        Err(Error::ElementNotFound)
    }

    /// Find the back-reference that `get_referencing` serves for the pair
    /// (referencing record type, referencing attribute). An unknown pair is
    /// `ElementNotFound`.
    pub fn find_referencing(&self, ref_table: &str, ref_attribute: &str) -> (r: Result<&BackReference, Error>)
        ensures
            r is Err <==> !self.referencing_view().contains((ref_table@, ref_attribute@)),
            r matches Err(e) ==> e is ElementNotFound,
            r matches Ok(b) ==> b@ == (ref_table@, ref_attribute@),
    {
        let ghost want = (ref_table@, ref_attribute@);
        let mut i: usize = 0;
        while i < self.referencing.len()
            invariant
                i <= self.referencing@.len(),
                want == (ref_table@, ref_attribute@),
                forall|j: int| 0 <= j < i ==> self.referencing_view()[j] != want,
            decreases self.referencing@.len() - i,
        {
            let b = &self.referencing[i];
            assert(self.referencing_view()[i as int] == b@);
            if text_eq(b.referencing_object.as_str(), ref_table) && text_eq(
                b.referencing_attribute.as_str(),
                ref_attribute,
            ) {
                assert(self.referencing_view()[i as int] == want);
                return Ok(b);
            }
            i = i + 1;
        }
        Err(Error::ElementNotFound)
    }
}

impl Object {
    /// The endpoints of an immutable join record, in declaration order.
    pub open spec fn spec_endpoints(&self, r: Option<(JoinEndpoint, JoinEndpoint)>) -> bool {
        &&& (r is Some <==> self.spec_immutable_relation())
        &&& (r matches Some((a, b)) ==> a.of(self.attr@[0]) && b.of(self.attr@[1]))
    }
}

/// The two endpoints of a record type, if it is an immutable join record.
pub fn join_endpoints(object: &Object) -> (r: Option<(JoinEndpoint, JoinEndpoint)>)
    ensures
        object.spec_endpoints(r),
{
    match object.is_object_immutable_relation() {
        Some((a, b)) => {
            match (a.get_reference(), b.get_reference()) {
                (Some(ta), Some(tb)) => Some(
                    (
                        JoinEndpoint { attribute: a.name.clone(), target: ta.clone() },
                        JoinEndpoint { attribute: b.name.clone(), target: tb.clone() },
                    ),
                ),
                _ => None,
            }
        },
        None => None,
    }
}

/// The names of the indexable attributes, in declaration order.
pub fn indexable_attributes(attrs: &Vec<Attribute>) -> (r: Vec<String>)
    ensures
        names(r@) == indexable_names(attrs@),
{
    let mut out: Vec<String> = Vec::new();
    let mut i: usize = 0;
    while i < attrs.len()
        invariant
            i <= attrs@.len(),
            names(out@) == indexable_names(attrs@.take(i as int)),
        decreases attrs@.len() - i,
    {
        assert(attrs@.take(i + 1).drop_last() =~= attrs@.take(i as int));
        let ghost before = out@;
        if attrs[i].is_indexable() {
            out.push(attrs[i].name.clone());
            assert(names(out@) =~= names(before).push(attrs@[i as int].name@));
        }
        i = i + 1;
    }
    assert(attrs@.take(attrs@.len() as int) =~= attrs@);
    out
}

/// The names of the mutable attributes, in declaration order.
pub fn mutable_attributes(attrs: &Vec<Attribute>) -> (r: Vec<String>)
    ensures
        names(r@) == mutable_names(attrs@),
{
    let mut out: Vec<String> = Vec::new();
    let mut i: usize = 0;
    while i < attrs.len()
        invariant
            i <= attrs@.len(),
            names(out@) == mutable_names(attrs@.take(i as int)),
        decreases attrs@.len() - i,
    {
        assert(attrs@.take(i + 1).drop_last() =~= attrs@.take(i as int));
        let ghost before = out@;
        if attrs[i].is_mutable() {
            out.push(attrs[i].name.clone());
            assert(names(out@) =~= names(before).push(attrs@[i as int].name@));
        }
        i = i + 1;
    }
    assert(attrs@.take(attrs@.len() as int) =~= attrs@);
    out
}

/// The getters of the attributes, in declaration order.
pub fn attribute_getters(attrs: &Vec<Attribute>) -> (r: Vec<Getter>)
    ensures
        r@.map_values(|g: Getter| g@) == getters_of(attrs@),
{
    let mut out: Vec<Getter> = Vec::new();
    let mut i: usize = 0;
    while i < attrs.len()
        invariant
            i <= attrs@.len(),
            out@.map_values(|g: Getter| g@) == getters_of(attrs@.take(i as int)),
        decreases attrs@.len() - i,
    {
        assert(attrs@.take(i + 1).drop_last() =~= attrs@.take(i as int));
        let ghost before = out@.map_values(|g: Getter| g@);
        let a = &attrs[i];
        if a.get_reference().is_some() {
            out.push(Getter { attribute: a.name.clone(), kind: GetterKind::Identifier });
            out.push(Getter { attribute: a.name.clone(), kind: GetterKind::Dereferencing });
            assert(out@.map_values(|g: Getter| g@) =~= before.push(
                (a.name@, GetterKind::Identifier),
            ).push((a.name@, GetterKind::Dereferencing)));
        } else {
            out.push(Getter { attribute: a.name.clone(), kind: GetterKind::Value });
            assert(out@.map_values(|g: Getter| g@) =~= before.push((a.name@, GetterKind::Value)));
        }
        i = i + 1;
    }
    assert(attrs@.take(attrs@.len() as int) =~= attrs@);
    out
}

proof fn lemma_lookup_first(objs: Seq<Object>, name: Seq<char>, k: int)
    requires
        0 <= k < objs.len(),
        objs[k].name@ == name,
        forall|j: int| 0 <= j < k ==> (#[trigger] objs[j]).name@ != name,
    ensures
        lookup(objs, name) == Some(objs[k]),
{
    assert(declares(objs, name));
    let c = choose|c: int|
        0 <= c < objs.len() && objs[c].name@ == name && forall|j: int|
            0 <= j < c ==> (#[trigger] objs[j]).name@ != name;
    if c < k {
        assert(objs[c].name@ != name);
    } else if c > k {
        assert(objs[k].name@ != name);
    }
}

/// The traversal that back-reference `b` gives through the record types of `objects`.
fn traversal_for(objects: &Vec<Object>, b: &BackReference) -> (r: Option<Traversal>)
    ensures
        r matches Some(t) ==> traversal_of(objects@, b@) == Some(t@),
        r is None ==> traversal_of(objects@, b@) is None,
{
    match find_object(objects, b.referencing_object.as_str()) {
        None => None,
        Some(k) => {
            proof {
                lemma_lookup_first(objects@, b.referencing_object@, k as int);
            }
            let rel = &objects[k];
            match join_endpoints(rel) {
                None => None,
                Some((first, second)) => {
                    let related = if text_eq(
                        first.attribute.as_str(),
                        b.referencing_attribute.as_str(),
                    ) {
                        second.target
                    } else if text_eq(
                        second.attribute.as_str(),
                        b.referencing_attribute.as_str(),
                    ) {
                        first.target
                    } else {
                        return None;
                    };
                    Some(
                        Traversal {
                            relation: b.referencing_object.clone(),
                            attribute: b.referencing_attribute.clone(),
                            related,
                        },
                    )
                },
            }
        },
    }
}

/// The traversals given by the back-references `refs`, in their order.
pub fn traversals(objects: &Vec<Object>, refs: &Vec<BackReference>) -> (r: Vec<Traversal>)
    ensures
        r@.map_values(|t: Traversal| t@) == traversals_of(
            objects@,
            refs@.map_values(|b: BackReference| b@),
        ),
{
    let ghost rv = refs@.map_values(|b: BackReference| b@);
    let mut out: Vec<Traversal> = Vec::new();
    let mut i: usize = 0;
    while i < refs.len()
        invariant
            i <= refs@.len(),
            rv == refs@.map_values(|b: BackReference| b@),
            out@.map_values(|t: Traversal| t@) == traversals_of(objects@, rv.take(i as int)),
        decreases refs@.len() - i,
    {
        assert(rv.take(i + 1).drop_last() =~= rv.take(i as int));
        assert(rv.take(i + 1).last() == refs@[i as int]@);
        let ghost before = out@.map_values(|t: Traversal| t@);
        match traversal_for(objects, &refs[i]) {
            Some(t) => {
                out.push(t);
                assert(out@.map_values(|t: Traversal| t@) =~= before.push(t@));
            },
            None => {},
        }
        i = i + 1;
    }
    assert(rv.take(refs@.len() as int) =~= rv);
    out
}

fn copy_back_refs(refs: &Vec<BackReference>) -> (r: Vec<BackReference>)
    ensures
        r@.map_values(|b: BackReference| b@) == refs@.map_values(|b: BackReference| b@),
{
    let mut out: Vec<BackReference> = Vec::new();
    let mut i: usize = 0;
    while i < refs.len()
        invariant
            i <= refs@.len(),
            out@.map_values(|b: BackReference| b@) == refs@.take(i as int).map_values(
                |b: BackReference| b@,
            ),
        decreases refs@.len() - i,
    {
        let b = &refs[i];
        let ghost before = out@;
        let nb = BackReference::new(b.referencing_object.clone(), b.referencing_attribute.clone());
        assert(nb@ == b@);
        out.push(nb);
        assert(out@ == before.push(nb));
        assert(refs@.take(i + 1) =~= refs@.take(i as int).push(*b));
        assert(refs@.take(i + 1).map_values(|b: BackReference| b@) =~= refs@.take(i as int).map_values(
            |b: BackReference| b@,
        ).push(b@));
        assert(out@.map_values(|b: BackReference| b@) =~= refs@.take(i + 1).map_values(
            |b: BackReference| b@,
        ));
        i = i + 1;
    }
    assert(refs@.take(refs@.len() as int) =~= refs@);
    out
}

/// Derive the capability plan of record type `object` within the schema `db`.
pub fn plan(object: &Object, db: &ObjectDB) -> (r: Capabilities)
    ensures
        names(r.load_by_attribute@) == indexable_names(object.attr@),
        object.spec_endpoints(r.load_by_content),
        r.getters@.map_values(|g: Getter| g@) == getters_of(object.attr@),
        names(r.setters@) == mutable_names(object.attr@),
        r.referencing_view() == object.back_refs(),
        r.traversals_view() == traversals_of(db.objects@, object.back_refs()),
{
    Capabilities {
        load_by_attribute: indexable_attributes(&object.attr),
        load_by_content: join_endpoints(object),
        getters: attribute_getters(&object.attr),
        setters: mutable_attributes(&object.attr),
        referencing: copy_back_refs(&object.referencing),
        traversals: traversals(&db.objects, &object.referencing),
    }
}

/// How the documentation diagram draws a record type.
#[derive(Debug, Clone, PartialEq, Eq)]
pub enum DiagramShape {
    /// A direct bidirectional arc between the two endpoints of a join record
    Arc { from: String, to: String },
    /// A node, with one arc per reference attribute
    Node,
}

/// Decide how the diagram draws a record type: an immutable join record
/// that no record type references is an arc between its two endpoints;
/// everything else is a node.
pub fn diagram_shape(object: &Object) -> (r: DiagramShape)
    ensures
        r is Arc <==> object.referencing@.len() == 0 && object.spec_immutable_relation(),
        r matches DiagramShape::Arc { from, to } ==> Some(from@) == object.attr@[0].target() && Some(
            to@,
        ) == object.attr@[1].target(),
{
    if object.is_referenced() {
        return DiagramShape::Node;
    }
    match join_endpoints(object) {
        Some((from, to)) => DiagramShape::Arc { from: from.target, to: to.target },
        None => DiagramShape::Node,
    }
}

} // verus!
