//! The schema graph: all record types, with back-references filled in.
use vstd::prelude::*;

use crate::attributes::Attribute;
use crate::introspection::BackReference;
use crate::object::{declares, resolved, find_object, Object, SchemaError};
use crate::text::text_eq;

verus! {

/// The kind of unit the source emitter produces.
#[derive(Debug, Clone, Copy, PartialEq, Eq, Structural)]
pub enum RustOutputType {
    Module,
    Library,
}

/// The back-references that the attributes `attrs` of record type `obj_name`
/// contribute to record type `target`, in declaration order.
pub open spec fn attr_refs(obj_name: Seq<char>, attrs: Seq<Attribute>, target: Seq<char>) -> Seq<
    (Seq<char>, Seq<char>),
>
    decreases attrs.len(),
{
    if attrs.len() == 0 {
        Seq::empty()
    } else {
        let prev = attr_refs(obj_name, attrs.drop_last(), target);
        if attrs.last().target() == Some(target) {
            prev.push((obj_name, attrs.last().name@))
        } else {
            prev
        }
    }
}

/// The back-references of record type `target` in the schema `objs`: one
/// (record name, attribute name) pair per attribute that points at `target`,
/// record types in declaration order, then attributes in declaration order.
pub open spec fn back_refs(objs: Seq<Object>, target: Seq<char>) -> Seq<(Seq<char>, Seq<char>)>
    decreases objs.len(),
{
    if objs.len() == 0 {
        Seq::empty()
    } else {
        back_refs(objs.drop_last(), target) + attr_refs(objs.last().name@, objs.last().attr@, target)
    }
}

pub open spec fn unique_names(objs: Seq<Object>) -> bool {
    forall|i: int, j: int| 0 <= i < j < objs.len() ==> objs[i].name@ != objs[j].name@
}

/// `o` is `orig` with its list of back-references filled in from `objs`.
pub open spec fn backfilled(o: Object, orig: Object, objs: Seq<Object>) -> bool {
    &&& o.name == orig.name
    &&& o.tbnm == orig.tbnm
    &&& o.attr == orig.attr
    &&& o.comm == orig.comm
    &&& o.category == orig.category
    &&& o.validator == orig.validator
    &&& o.back_refs() == back_refs(objs, orig.name@)
}

/// The container of all record types of a schema.
#[derive(Debug)]
pub struct ObjectDB {
    /// The directory in which the source emitter writes
    pub rust_destination: String,
    /// The kind of unit the source emitter produces; absent means a module
    pub rust_output: Option<RustOutputType>,
    /// The record types, in declaration order
    pub objects: Vec<Object>,
}

impl ObjectDB {
    /// Names are unique and every list of back-references is complete.
    pub open spec fn wf(&self) -> bool {
        &&& unique_names(self.objects@)
        &&& forall|k: int|
            0 <= k < self.objects@.len() ==> unique_attribute_names(#[trigger] self.objects@[k])
        &&& forall|k: int|
            0 <= k < self.objects@.len() ==> (#[trigger] self.objects@[k]).back_refs() == back_refs(
                self.objects@,
                self.objects@[k].name@,
            )
    }

    /// Every reference of every record type names a declared record type.
    pub open spec fn spec_valid(&self) -> bool {
        forall|k: int, i: int|
            0 <= k < self.objects@.len() && 0 <= i < self.objects@[k].attr@.len() ==> resolved(
                self.objects@,
                #[trigger] self.objects@[k].attr@[i],
            )
    }

    /// Build the schema graph from record types read from a schema source:
    /// the names of the record types must be unique, and so must the names
    /// of the attributes within each record type. Each record type's
    /// back-references are computed from the attributes of all record types.
    pub fn new(
        rust_destination: String,
        rust_output: Option<RustOutputType>,
        objects: Vec<Object>,
    ) -> (r: Result<ObjectDB, SchemaError>)
        ensures
            r is Ok <==> unique_names(objects@) && forall|k: int|
                0 <= k < objects@.len() ==> unique_attribute_names(#[trigger] objects@[k]),
            r matches Err(SchemaError::DuplicateObjectName(n)) ==> exists|i: int, j: int|
                0 <= i < j < objects@.len() && objects@[i].name@ == n@ && objects@[j].name@ == n@,
            r matches Err(SchemaError::DuplicateAttributeName { object, attribute }) ==> {
                &&& unique_names(objects@)
                &&& exists|k: int, i: int, j: int|
                    0 <= k < objects@.len() && 0 <= i < j < objects@[k].attr@.len() && objects@[k].name@
                        == object@ && (#[trigger] objects@[k].attr@[i]).name@ == attribute@
                        && (#[trigger] objects@[k].attr@[j]).name@ == attribute@
            },
            r matches Err(e) ==> !(e is DanglingReference),
            r matches Ok(db) ==> {
                &&& db.wf()
                &&& db.rust_destination == rust_destination
                &&& db.rust_output == rust_output
                &&& db.objects@.len() == objects@.len()
                &&& forall|k: int|
                    0 <= k < objects@.len() ==> backfilled(
                        #[trigger] db.objects@[k],
                        objects@[k],
                        objects@,
                    )
            },
    {
        let n = objects.len();
        let mut i: usize = 0;
        while i < n
            invariant
                n == objects@.len(),
                i <= n,
                forall|a: int, b: int| 0 <= a < i && a < b < n ==> objects@[a].name@ != objects@[b].name@,
            decreases n - i,
        {
            let mut j: usize = i + 1;
            while j < n
                invariant
                    n == objects@.len(),
                    i < n,
                    i + 1 <= j <= n,
                    forall|a: int, b: int| 0 <= a < i && a < b < n ==> objects@[a].name@ != objects@[b].name@,
                    forall|b: int| i < b < j ==> objects@[i as int].name@ != objects@[b].name@,
                decreases n - j,
            {
                if text_eq(objects[i].name.as_str(), objects[j].name.as_str()) {
                    return Err(SchemaError::DuplicateObjectName(objects[i].name.clone()));
                }
                j = j + 1;
            }
            i = i + 1;
        }
        let mut k: usize = 0;
        while k < n
            invariant
                n == objects@.len(),
                k <= n,
                unique_names(objects@),
                forall|j: int| 0 <= j < k ==> unique_attribute_names(#[trigger] objects@[j]),
            decreases n - k,
        {
            match duplicate_attribute(&objects[k]) {
                Some(i) => {
                    return Err(
                        SchemaError::DuplicateAttributeName {
                            object: objects[k].name.clone(),
                            attribute: objects[k].attr[i].name.clone(),
                        },
                    );
                },
                None => {},
            }
            k = k + 1;
        }
        let ghost orig = objects@;
        let mut lists: Vec<Vec<BackReference>> = Vec::new();
        let mut k: usize = 0;
        while k < n
            invariant
                n == objects@.len(),
                orig == objects@,
                k <= n,
                lists@.len() == k,
                forall|j: int|
                    0 <= j < k ==> (#[trigger] lists@[j])@.map_values(|b: BackReference| b@) == back_refs(
                        orig,
                        orig[j].name@,
                    ),
            decreases n - k,
        {
            let l = compute_back_refs(&objects, &objects[k].name);
            lists.push(l);
            k = k + 1;
        }
        let mut objects = objects;
        let mut k: usize = n;
        while k > 0
            invariant
                n == objects@.len(),
                n == orig.len(),
                k <= n,
                lists@.len() == k,
                forall|j: int|
                    0 <= j < k ==> (#[trigger] lists@[j])@.map_values(|b: BackReference| b@) == back_refs(
                        orig,
                        orig[j].name@,
                    ),
                forall|j: int| 0 <= j < k ==> #[trigger] objects@[j] == orig[j],
                forall|j: int| k <= j < n ==> backfilled(#[trigger] objects@[j], orig[j], orig),
            decreases k,
        {
            let l = lists.pop().unwrap();
            k = k - 1;
            objects[k].referencing = l;
        }
        let db = ObjectDB { rust_destination, rust_output, objects };
        assert forall|k: int| 0 <= k < db.objects@.len() implies (
        #[trigger] db.objects@[k]).back_refs() == back_refs(db.objects@, db.objects@[k].name@) by {
            assert(backfilled(db.objects@[k], orig[k], orig));
            lemma_back_refs_congruent(db.objects@, orig, db.objects@[k].name@);
        }
        Ok(db)
    }

    /// Retrieve the record type with the given name, if it is declared
    pub fn get_object(&self, name: &str) -> (r: Option<&Object>)
        ensures
            r is None <==> !declares(self.objects@, name@),
            r matches Some(o) ==> exists|k: int|
                0 <= k < self.objects@.len() && *o == #[trigger] self.objects@[k] && o.name@
                    == name@,
    {
        match find_object(&self.objects, name) {
            Some(k) => Some(&self.objects[k]),
            None => None,
        }
    }

    /// Make sure that every referenced record type is declared. The first
    /// record type, in declaration order, with a dangling reference is
    /// reported, together with its first such attribute and the missing target.
    pub fn validate(&self) -> (r: Result<(), SchemaError>)
        ensures
            r is Ok <==> self.spec_valid(),
            r matches Err(e) ==> exists|k: int, i: int|
                0 <= k < self.objects@.len() && 0 <= i < self.objects@[k].attr@.len()
                    && #[trigger] self.objects@[k].dangling_at(self.objects@, i, e),
    {
        let mut k: usize = 0;
        while k < self.objects.len()
            invariant
                k <= self.objects@.len(),
                forall|kk: int, i: int|
                    0 <= kk < k && 0 <= i < self.objects@[kk].attr@.len() ==> resolved(
                        self.objects@,
                        #[trigger] self.objects@[kk].attr@[i],
                    ),
            decreases self.objects@.len() - k,
        {
            match self.objects[k].validate(&self.objects) {
                Ok(()) => {},
                Err(e) => {
                    return Err(e);
                },
            }
            k = k + 1;
        }
        Ok(())
    }

    /// Retrieve the record types, in declaration order
    pub fn get_objects(&self) -> (r: &Vec<Object>)
        ensures
            r == &self.objects,
    {
        &self.objects
    }
}

/// An attribute of `o` whose name a later attribute repeats, if there is one.
fn duplicate_attribute(o: &Object) -> (r: Option<usize>)
    ensures
        r is None <==> unique_attribute_names(*o),
        r matches Some(i) ==> exists|j: int|
            i < j < o.attr@.len() && o.attr@[i as int].name@ == #[trigger] o.attr@[j].name@,
{
    let n = o.attr.len();
    let mut i: usize = 0;
    while i < n
        invariant
            n == o.attr@.len(),
            i <= n,
            forall|a: int, b: int| 0 <= a < i && a < b < n ==> o.attr@[a].name@ != o.attr@[b].name@,
        decreases n - i,
    {
        let mut j: usize = i + 1;
        while j < n
            invariant
                n == o.attr@.len(),
                i < n,
                i + 1 <= j <= n,
                forall|a: int, b: int| 0 <= a < i && a < b < n ==> o.attr@[a].name@ != o.attr@[b].name@,
                forall|b: int| i < b < j ==> o.attr@[i as int].name@ != o.attr@[b].name@,
            decreases n - j,
        {
            if text_eq(o.attr[i].name.as_str(), o.attr[j].name.as_str()) {
                return Some(i);
            }
            j = j + 1;
        }
        i = i + 1;
    }
    None
}

/// The back-references of `target`, computed from the attributes of `objects`.
fn compute_back_refs(objects: &Vec<Object>, target: &String) -> (r: Vec<BackReference>)
    ensures
        r@.map_values(|b: BackReference| b@) == back_refs(objects@, target@),
{
    let mut out: Vec<BackReference> = Vec::new();
    let mut i: usize = 0;
    while i < objects.len()
        invariant
            i <= objects@.len(),
            out@.map_values(|b: BackReference| b@) == back_refs(objects@.take(i as int), target@),
        decreases objects@.len() - i,
    {
        let obj = &objects[i];
        let mut j: usize = 0;
        while j < obj.attr.len()
            invariant
                i < objects@.len(),
                obj == &objects@[i as int],
                j <= obj.attr@.len(),
                out@.map_values(|b: BackReference| b@) == back_refs(objects@.take(i as int), target@)
                    + attr_refs(obj.name@, obj.attr@.take(j as int), target@),
            decreases obj.attr@.len() - j,
        {
            let at = &obj.attr[j];
            let ghost before = out@;
            assert(obj.attr@.take(j + 1).drop_last() =~= obj.attr@.take(j as int));
            match at.get_reference() {
                Some(r) => {
                    if text_eq(r.as_str(), target.as_str()) {
                        out.push(BackReference::new(obj.name.clone(), at.name.clone()));
                        assert(out@.map_values(|b: BackReference| b@) =~= before.map_values(
                            |b: BackReference| b@,
                        ).push((obj.name@, at.name@)));
                    }
                },
                None => {},
            }
            j = j + 1;
        }
        assert(obj.attr@.take(obj.attr@.len() as int) =~= obj.attr@);
        assert(objects@.take(i + 1).drop_last() =~= objects@.take(i as int));
        i = i + 1;
    }
    assert(objects@.take(objects@.len() as int) =~= objects@);
    out
}

/// Back-references depend on the names and attributes of the record types only.
proof fn lemma_back_refs_congruent(a: Seq<Object>, b: Seq<Object>, target: Seq<char>)
    requires
        a.len() == b.len(),
        forall|k: int| 0 <= k < a.len() ==> (#[trigger] a[k]).name == b[k].name && a[k].attr == b[k].attr,
    ensures
        back_refs(a, target) == back_refs(b, target),
    decreases a.len(),
{
    if a.len() > 0 {
        lemma_back_refs_congruent(a.drop_last(), b.drop_last(), target);
        assert(a.last().name == b.last().name);
    }
}

/// How many times `e` occurs in `s`.
pub open spec fn occurrences(s: Seq<(Seq<char>, Seq<char>)>, e: (Seq<char>, Seq<char>)) -> nat
    decreases s.len(),
{
    if s.len() == 0 {
        0
    } else {
        occurrences(s.drop_last(), e) + if s.last() == e {
            1nat
        } else {
            0nat
        }
    }
}

/// No two attributes of the record type share a name.
pub open spec fn unique_attribute_names(o: Object) -> bool {
    forall|i: int, j: int|
        0 <= i < j < o.attr@.len() ==> o.attr@[i].name@ != o.attr@[j].name@
}

proof fn lemma_occurrences_add(
    s: Seq<(Seq<char>, Seq<char>)>,
    t: Seq<(Seq<char>, Seq<char>)>,
    e: (Seq<char>, Seq<char>),
)
    ensures
        occurrences(s + t, e) == occurrences(s, e) + occurrences(t, e),
    decreases t.len(),
{
    if t.len() == 0 {
        assert(s + t =~= s);
    } else {
        assert((s + t).drop_last() =~= s + t.drop_last());
        lemma_occurrences_add(s, t.drop_last(), e);
    }
}

proof fn lemma_occurrences_push(
    s: Seq<(Seq<char>, Seq<char>)>,
    x: (Seq<char>, Seq<char>),
    e: (Seq<char>, Seq<char>),
)
    ensures
        occurrences(s.push(x), e) == occurrences(s, e) + if x == e {
            1nat
        } else {
            0nat
        },
{
    assert(s.push(x).drop_last() =~= s);
}

proof fn lemma_attr_refs_absent(
    n: Seq<char>,
    attrs: Seq<Attribute>,
    t: Seq<char>,
    e: (Seq<char>, Seq<char>),
)
    requires
        forall|k: int|
            0 <= k < attrs.len() ==> (n, (#[trigger] attrs[k]).name@) != e || attrs[k].target()
                != Some(t),
    ensures
        occurrences(attr_refs(n, attrs, t), e) == 0,
    decreases attrs.len(),
{
    if attrs.len() > 0 {
        lemma_attr_refs_absent(n, attrs.drop_last(), t, e);
        assert(attrs.last() == attrs[attrs.len() - 1]);
        lemma_occurrences_push(attr_refs(n, attrs.drop_last(), t), (n, attrs.last().name@), e);
    }
}

proof fn lemma_attr_refs_once(n: Seq<char>, attrs: Seq<Attribute>, t: Seq<char>, i: int)
    requires
        0 <= i < attrs.len(),
        attrs[i].target() == Some(t),
        forall|a: int, b: int| 0 <= a < b < attrs.len() ==> attrs[a].name@ != attrs[b].name@,
    ensures
        occurrences(attr_refs(n, attrs, t), (n, attrs[i].name@)) == 1,
    decreases attrs.len(),
{
    let e = (n, attrs[i].name@);
    let p = attrs.drop_last();
    lemma_occurrences_push(attr_refs(n, p, t), (n, attrs.last().name@), e);
    if i == attrs.len() - 1 {
        assert forall|k: int| 0 <= k < p.len() implies (n, (#[trigger] p[k]).name@) != e
            || p[k].target() != Some(t) by {
            assert(p[k] == attrs[k]);
        }
        lemma_attr_refs_absent(n, p, t, e);
    } else {
        assert(p[i] == attrs[i]);
        lemma_attr_refs_once(n, p, t, i);
        assert(attrs.last().name@ != attrs[i].name@);
    }
}

proof fn lemma_back_refs_absent(objs: Seq<Object>, t: Seq<char>, e: (Seq<char>, Seq<char>))
    requires
        forall|k: int| 0 <= k < objs.len() ==> (#[trigger] objs[k]).name@ != e.0,
    ensures
        occurrences(back_refs(objs, t), e) == 0,
    decreases objs.len(),
{
    if objs.len() > 0 {
        let last = objs.last();
        assert(last == objs[objs.len() - 1]);
        lemma_back_refs_absent(objs.drop_last(), t, e);
        lemma_attr_refs_absent(last.name@, last.attr@, t, e);
        lemma_occurrences_add(
            back_refs(objs.drop_last(), t),
            attr_refs(last.name@, last.attr@, t),
            e,
        );
    }
}

proof fn lemma_back_refs_once(objs: Seq<Object>, t: Seq<char>, a: int, i: int)
    requires
        unique_names(objs),
        0 <= a < objs.len(),
        unique_attribute_names(objs[a]),
        0 <= i < objs[a].attr@.len(),
        objs[a].attr@[i].target() == Some(t),
    ensures
        occurrences(back_refs(objs, t), (objs[a].name@, objs[a].attr@[i].name@)) == 1,
    decreases objs.len(),
{
    let e = (objs[a].name@, objs[a].attr@[i].name@);
    let p = objs.drop_last();
    let last = objs.last();
    lemma_occurrences_add(back_refs(p, t), attr_refs(last.name@, last.attr@, t), e);
    if a == objs.len() - 1 {
        assert forall|k: int| 0 <= k < p.len() implies (#[trigger] p[k]).name@ != e.0 by {
            assert(p[k] == objs[k]);
        }
        lemma_back_refs_absent(p, t, e);
        lemma_attr_refs_once(last.name@, last.attr@, t, i);
    } else {
        assert(p[a] == objs[a]);
        lemma_back_refs_once(p, t, a, i);
        assert(last == objs[objs.len() - 1]);
        assert forall|k: int| 0 <= k < last.attr@.len() implies (
        last.name@, (#[trigger] last.attr@[k]).name@) != e || last.attr@[k].target() != Some(t) by {}
        lemma_attr_refs_absent(last.name@, last.attr@, t, e);
    }
}

/// Back-reference symmetry: when attribute `i` of record type `a` points at
/// record type `b`, the back-references of `b` hold the pair (name of `a`,
/// name of the attribute) exactly once. Two differently named attributes of
/// `a` pointing at `b` thus give two distinct entries, each present once.
pub proof fn lemma_back_reference_symmetry(db: &ObjectDB, a: int, i: int, b: int)
    requires
        db.wf(),
        0 <= a < db.objects@.len(),
        0 <= b < db.objects@.len(),
        0 <= i < db.objects@[a].attr@.len(),
        db.objects@[a].attr@[i].target() == Some(db.objects@[b].name@),
    ensures
        occurrences(
            db.objects@[b].back_refs(),
            (db.objects@[a].name@, db.objects@[a].attr@[i].name@),
        ) == 1,
{
    lemma_back_refs_once(db.objects@, db.objects@[b].name@, a, i);
}

/// Every back-reference of record type `b` comes from an attribute that points at `b`.
pub proof fn lemma_back_reference_origin(db: &ObjectDB, b: int, x: int)
    requires
        db.wf(),
        0 <= b < db.objects@.len(),
        0 <= x < db.objects@[b].back_refs().len(),
    ensures
        exists|a: int, i: int|
            0 <= a < db.objects@.len() && 0 <= i < db.objects@[a].attr@.len() && (
            #[trigger] db.objects@[a].attr@[i]).target() == Some(db.objects@[b].name@)
                && db.objects@[b].back_refs()[x] == (db.objects@[a].name@, db.objects@[a].attr@[i].name@),
{
    lemma_back_refs_origin(db.objects@, db.objects@[b].name@, x);
}

proof fn lemma_attr_refs_origin(n: Seq<char>, attrs: Seq<Attribute>, t: Seq<char>, x: int)
    requires
        0 <= x < attr_refs(n, attrs, t).len(),
    ensures
        exists|i: int|
            0 <= i < attrs.len() && (#[trigger] attrs[i]).target() == Some(t) && attr_refs(
                n,
                attrs,
                t,
            )[x] == (n, attrs[i].name@),
    decreases attrs.len(),
{
    let p = attrs.drop_last();
    let prev = attr_refs(n, p, t);
    if x < prev.len() {
        lemma_attr_refs_origin(n, p, t, x);
        let i = choose|i: int|
            0 <= i < p.len() && (#[trigger] p[i]).target() == Some(t) && prev[x] == (n, p[i].name@);
        assert(p[i] == attrs[i]);
    } else {
        assert(attrs[attrs.len() - 1] == attrs.last());
    }
}

proof fn lemma_back_refs_origin(objs: Seq<Object>, t: Seq<char>, x: int)
    requires
        0 <= x < back_refs(objs, t).len(),
    ensures
        exists|a: int, i: int|
            0 <= a < objs.len() && 0 <= i < objs[a].attr@.len() && (
            #[trigger] objs[a].attr@[i]).target() == Some(t) && back_refs(objs, t)[x] == (
                objs[a].name@,
                objs[a].attr@[i].name@,
            ),
    decreases objs.len(),
{
    let p = objs.drop_last();
    let last = objs.last();
    let prev = back_refs(p, t);
    if x < prev.len() {
        lemma_back_refs_origin(p, t, x);
        let (a, i) = choose|a: int, i: int|
            0 <= a < p.len() && 0 <= i < p[a].attr@.len() && (#[trigger] p[a].attr@[i]).target()
                == Some(t) && prev[x] == (p[a].name@, p[a].attr@[i].name@);
        assert(p[a] == objs[a]);
    } else {
        lemma_attr_refs_origin(last.name@, last.attr@, t, x - prev.len());
        assert(objs[objs.len() - 1] == last);
        let i = choose|i: int|
            0 <= i < last.attr@.len() && (#[trigger] last.attr@[i]).target() == Some(t)
                && attr_refs(last.name@, last.attr@, t)[x - prev.len()] == (last.name@, last.attr@[i].name@);
        assert(objs[objs.len() - 1].attr@[i] == last.attr@[i]);
    }
}

} // verus!
