//! The record types of a schema grouped by category, for the documentation emitter.
use vstd::prelude::*;

use crate::object::Object;
use crate::objectdb::{unique_names, ObjectDB};
use crate::planner::names;
use crate::text::owned;

verus! {

/// `a` and `b` agree on their first `i` characters.
pub open spec fn agree_before(a: Seq<char>, b: Seq<char>, i: int) -> bool {
    forall|j: int| 0 <= j < i ==> a[j] == b[j]
}

/// `a` comes before `b`, and `i` is where they first differ.
pub open spec fn less_at(a: Seq<char>, b: Seq<char>, i: int) -> bool {
    &&& 0 <= i <= a.len()
    &&& i < b.len()
    &&& agree_before(a, b, i)
    &&& (i == a.len() || a[i] < b[i])
}

/// Lexicographic order of texts, character by character: a proper prefix comes first.
pub open spec fn text_less(a: Seq<char>, b: Seq<char>) -> bool {
    exists|i: int| less_at(a, b, i)
}

proof fn lemma_less_asymmetric(a: Seq<char>, b: Seq<char>)
    requires
        text_less(a, b),
    ensures
        !text_less(b, a),
        a != b,
{
    let i = choose|i: int| less_at(a, b, i);
    if text_less(b, a) {
        let k = choose|k: int| less_at(b, a, k);
        if k < i {
            assert(a[k] == b[k]);
        } else if k > i {
            assert(b[i] == a[i]);
        }
    }
    if a == b {
        assert(i < a.len());
    }
}

proof fn lemma_less_transitive(a: Seq<char>, b: Seq<char>, c: Seq<char>)
    requires
        text_less(a, b),
        text_less(b, c),
    ensures
        text_less(a, c),
{
    let i = choose|i: int| less_at(a, b, i);
    let k = choose|k: int| less_at(b, c, k);
    if i < k {
        assert(b[i] == c[i]);
        assert(less_at(a, c, i));
    } else if k < i {
        assert(a[k] == b[k]);
        assert(less_at(a, c, k));
    } else {
        assert(less_at(a, c, i));
    }
}

/// Compare two texts in lexicographic order: negative, zero or positive.
pub fn compare_text(a: &str, b: &str) -> (r: i8)
    ensures
        (r < 0) == text_less(a@, b@),
        (r > 0) == text_less(b@, a@),
        (r == 0) == (a@ == b@),
{
    let n = a.unicode_len();
    let m = b.unicode_len();
    let mut i: usize = 0;
    while i < n && i < m
        invariant
            n == a@.len(),
            m == b@.len(),
            i <= n,
            i <= m,
            agree_before(a@, b@, i as int),
        decreases n - i,
    {
        let x = a.get_char(i);
        let y = b.get_char(i);
        if x < y {
            assert(less_at(a@, b@, i as int));
            proof {
                lemma_less_asymmetric(a@, b@);
            }
            return -1;
        }
        if y < x {
            assert(less_at(b@, a@, i as int));
            proof {
                lemma_less_asymmetric(b@, a@);
            }
            return 1;
        }
        i = i + 1;
    }
    if n < m {
        assert(less_at(a@, b@, i as int));
        proof {
            lemma_less_asymmetric(a@, b@);
        }
        -1
    } else if m < n {
        assert(less_at(b@, a@, i as int));
        proof {
            lemma_less_asymmetric(b@, a@);
        }
        1
    } else {
        assert(a@ =~= b@);
        proof {
            if text_less(a@, b@) {
                lemma_less_asymmetric(a@, b@);
            }
        }
        0
    }
}

/// Strictly increasing in lexicographic order.
pub open spec fn sorted_texts(s: Seq<Seq<char>>) -> bool {
    forall|i: int, j: int| 0 <= i < j < s.len() ==> text_less(s[i], s[j])
}

/// The category of a record type; the empty text when it has none.
pub open spec fn category_of(o: Object) -> Seq<char> {
    match o.category {
        Some(c) => c@,
        None => Seq::empty(),
    }
}

/// The names of the record types at the given indices.
pub open spec fn member_names(objs: Seq<Object>, members: Seq<usize>) -> Seq<Seq<char>> {
    members.map_values(|k: usize| objs[k as int].name@)
}

/// The record types of one category, by index into the schema, ordered by name.
#[derive(Debug, Clone, PartialEq, Eq)]
pub struct Category {
    pub name: String,
    pub objects: Vec<usize>,
}

/// Insert `x` into the sorted list `v`, unless it is there already.
fn insert_text(v: &mut Vec<String>, x: String)
    requires
        sorted_texts(names(old(v)@)),
    ensures
        sorted_texts(names(final(v)@)),
        forall|t: Seq<char>| names(final(v)@).contains(t) <==> (names(old(v)@).contains(t) || t == x@),
{
    let ghost old_names = names(v@);
    let mut p: usize = 0;
    let mut stop = false;
    while p < v.len() && !stop
        invariant
            p <= v@.len(),
            old_names == names(v@),
            sorted_texts(old_names),
            forall|j: int| 0 <= j < p ==> text_less(#[trigger] old_names[j], x@),
            stop ==> p < v@.len() && text_less(x@, old_names[p as int]),
        decreases v@.len() - p + if stop { 0int } else { 1int },
    {
        let c = compare_text(v[p].as_str(), x.as_str());
        assert(old_names[p as int] == v@[p as int]@);
        if c == 0 {
            assert(old_names.contains(x@));
            return;
        }
        if c > 0 {
            stop = true;
        } else {
            p = p + 1;
        }
    }
    let ghost before = v@;
    v.insert(p, x);
    let ghost new_names = names(v@);
    assert(new_names =~= old_names.insert(p as int, x@));
    assert forall|i: int, j: int| 0 <= i < j < new_names.len() implies text_less(new_names[i], new_names[j]) by {
        if j < p {
        } else if j == p {
        } else if i < p {
            assert(new_names[j] == old_names[j - 1]);
            if j - 1 > p {
                lemma_less_transitive(x@, old_names[p as int], old_names[j - 1]);
            }
            lemma_less_transitive(old_names[i], x@, old_names[j - 1]);
        } else if i == p {
            if j - 1 > p {
                lemma_less_transitive(x@, old_names[p as int], old_names[j - 1]);
            }
        } else {
        }
    }
    assert forall|t: Seq<char>| new_names.contains(t) <==> (old_names.contains(t) || t == x@) by {
        if new_names.contains(t) {
            let k = choose|k: int| 0 <= k < new_names.len() && new_names[k] == t;
            if k < p {
                assert(old_names[k] == t);
            } else if k > p {
                assert(old_names[k - 1] == t);
            }
        }
        if old_names.contains(t) {
            let k = choose|k: int| 0 <= k < old_names.len() && old_names[k] == t;
            if k < p {
                assert(new_names[k] == t);
            } else {
                assert(new_names[k + 1] == t);
            }
        }
        if t == x@ {
            assert(new_names[p as int] == t);
        }
    }
}

/// Insert record type `k` into the list `v` of record types ordered by name.
fn insert_index(v: &mut Vec<usize>, objs: &Vec<Object>, k: usize)
    requires
        k < objs@.len(),
        unique_names(objs@),
        forall|j: int| 0 <= j < old(v)@.len() ==> #[trigger] old(v)@[j] < objs@.len(),
        sorted_texts(member_names(objs@, old(v)@)),
        !old(v)@.contains(k),
    ensures
        forall|j: int| 0 <= j < final(v)@.len() ==> #[trigger] final(v)@[j] < objs@.len(),
        sorted_texts(member_names(objs@, final(v)@)),
        forall|y: usize| final(v)@.contains(y) <==> (old(v)@.contains(y) || y == k),
{
    let ghost old_v = v@;
    let ghost old_names = member_names(objs@, v@);
    let ghost x = objs@[k as int].name@;
    let mut p: usize = 0;
    let mut stop = false;
    while p < v.len() && !stop
        invariant
            p <= v@.len(),
            old_v == v@,
            old_names == member_names(objs@, v@),
            x == objs@[k as int].name@,
            k < objs@.len(),
            unique_names(objs@),
            !old_v.contains(k),
            forall|j: int| 0 <= j < old_v.len() ==> #[trigger] old_v[j] < objs@.len(),
            sorted_texts(old_names),
            forall|j: int| 0 <= j < p ==> text_less(#[trigger] old_names[j], x),
            stop ==> p < v@.len() && text_less(x, old_names[p as int]),
        decreases v@.len() - p + if stop {
            0int
        } else {
            1int
        },
    {
        let q = v[p];
        let c = compare_text(objs[q].name.as_str(), objs[k].name.as_str());
        assert(old_names[p as int] == objs@[q as int].name@);
        if c == 0 {
            assert(q != k) by {
                assert(old_v[p as int] == q);
            }
            if q < k {
                assert(objs@[q as int].name@ != objs@[k as int].name@);
            } else {
                assert(objs@[k as int].name@ != objs@[q as int].name@);
            }
        }
        if c > 0 {
            stop = true;
        } else {
            p = p + 1;
        }
    }
    v.insert(p, k);
    let ghost new_names = member_names(objs@, v@);
    assert(v@ =~= old_v.insert(p as int, k));
    assert(new_names =~= old_names.insert(p as int, x));
    assert forall|i: int, j: int| 0 <= i < j < new_names.len() implies text_less(new_names[i], new_names[j]) by {
        if j < p {
        } else if j == p {
        } else if i < p {
            if j - 1 > p {
                lemma_less_transitive(x, old_names[p as int], old_names[j - 1]);
            }
            lemma_less_transitive(old_names[i], x, old_names[j - 1]);
        } else if i == p {
            if j - 1 > p {
                lemma_less_transitive(x, old_names[p as int], old_names[j - 1]);
            }
        } else {
        }
    }
    assert forall|j: int| 0 <= j < v@.len() implies #[trigger] v@[j] < objs@.len() by {
        if j < p {
            assert(v@[j] == old_v[j]);
        } else if j > p {
            assert(v@[j] == old_v[j - 1]);
        }
    }
    assert forall|y: usize| v@.contains(y) <==> (old_v.contains(y) || y == k) by {
        if v@.contains(y) {
            let j = choose|j: int| 0 <= j < v@.len() && v@[j] == y;
            if j < p {
                assert(old_v[j] == y);
            } else if j > p {
                assert(old_v[j - 1] == y);
            }
        }
        if old_v.contains(y) {
            let j = choose|j: int| 0 <= j < old_v.len() && old_v[j] == y;
            if j < p {
                assert(v@[j] == y);
            } else {
                assert(v@[j + 1] == y);
            }
        }
        if y == k {
            assert(v@[p as int] == y);
        }
    }
}

fn category_text(o: &Object) -> (r: String)
    ensures
        r@ == category_of(*o),
{
    match &o.category {
        Some(c) => c.clone(),
        None => String::new(),
    }
}

/// Every record type `k` of `objs` whose category is `name` is in `members`, and no other.
pub open spec fn members_of(objs: Seq<Object>, name: Seq<char>, members: Seq<usize>) -> bool {
    &&& forall|j: int| 0 <= j < members.len() ==> #[trigger] members[j] < objs.len()
    &&& sorted_texts(member_names(objs, members))
    &&& forall|y: usize| members.contains(y) <==> (y < objs.len() && category_of(objs[y as int]) == name)
}

/// Every record type has a category in `cats` named after its own.
pub open spec fn covers(cats: Seq<Category>, objs: Seq<Object>) -> bool {
    forall|k: int|
        0 <= k < objs.len() ==> cats.map_values(|c: Category| c.name@).contains(
            category_of(#[trigger] objs[k]),
        )
}

/// Group the record types by category (the empty text for none): the
/// categories in lexicographic order, and in each one the record types
/// ordered by name.
pub fn create_category_mapping(object_db: &ObjectDB) -> (r: Vec<Category>)
    requires
        object_db.wf(),
    ensures
        sorted_texts(r@.map_values(|c: Category| c.name@)),
        forall|c: int|
            0 <= c < r@.len() ==> members_of(object_db.objects@, (#[trigger] r@[c]).name@, r@[c].objects@),
        forall|c: int| 0 <= c < r@.len() ==> (#[trigger] r@[c]).objects@.len() > 0,
        covers(r@, object_db.objects@),
{
    let objs = &object_db.objects;
    let n = objs.len();
    let mut cats: Vec<String> = Vec::new();
    let mut k: usize = 0;
    while k < n
        invariant
            n == objs@.len(),
            k <= n,
            sorted_texts(names(cats@)),
            forall|t: Seq<char>|
                names(cats@).contains(t) <==> exists|j: int| 0 <= j < k && category_of(#[trigger] objs@[j]) == t,
        decreases n - k,
    {
        let ghost before = names(cats@);
        let t = category_text(&objs[k]);
        insert_text(&mut cats, t);
        assert forall|u: Seq<char>|
            names(cats@).contains(u) <==> exists|j: int| 0 <= j < k + 1 && category_of(#[trigger] objs@[j]) == u by {
            if names(cats@).contains(u) && u != category_of(objs@[k as int]) {
                assert(before.contains(u));
            }
            if exists|j: int| 0 <= j < k + 1 && category_of(#[trigger] objs@[j]) == u {
                let j = choose|j: int| 0 <= j < k + 1 && category_of(#[trigger] objs@[j]) == u;
                if j < k {
                    assert(before.contains(u));
                }
            }
        }
        k = k + 1;
    }
    let mut out: Vec<Category> = Vec::new();
    let mut c: usize = 0;
    while c < cats.len()
        invariant
            n == objs@.len(),
            objs == &object_db.objects,
            object_db.wf(),
            sorted_texts(names(cats@)),
            forall|t: Seq<char>|
                names(cats@).contains(t) <==> exists|j: int| 0 <= j < n && category_of(#[trigger] objs@[j]) == t,
            c <= cats@.len(),
            out@.len() == c,
            forall|i: int| 0 <= i < c ==> (#[trigger] out@[i]).name@ == cats@[i]@,
            forall|i: int| 0 <= i < c ==> members_of(objs@, (#[trigger] out@[i]).name@, out@[i].objects@),
        decreases cats@.len() - c,
    {
        let mut members: Vec<usize> = Vec::new();
        let mut k: usize = 0;
        while k < n
            invariant
                n == objs@.len(),
                objs == &object_db.objects,
                object_db.wf(),
                c < cats@.len(),
                k <= n,
                forall|j: int| 0 <= j < members@.len() ==> #[trigger] members@[j] < n,
                sorted_texts(member_names(objs@, members@)),
                forall|y: usize| members@.contains(y) <==> (y < k && category_of(objs@[y as int]) == cats@[c as int]@),
            decreases n - k,
        {
            let t = category_text(&objs[k]);
            if crate::text::text_eq(t.as_str(), cats[c].as_str()) {
                insert_index(&mut members, objs, k);
            }
            k = k + 1;
        }
        out.push(Category { name: cats[c].clone(), objects: members });
        c = c + 1;
    }
    let ghost cat_names = out@.map_values(|c: Category| c.name@);
    assert(cat_names =~= names(cats@));
    assert forall|i: int| 0 <= i < out@.len() implies (#[trigger] out@[i]).objects@.len() > 0 by {
        assert(names(cats@)[i] == cats@[i]@);
        assert(names(cats@).contains(cats@[i]@));
        let j = choose|j: int| 0 <= j < n && category_of(#[trigger] objs@[j]) == cats@[i]@;
        assert(out@[i].objects@.contains(j as usize));
    }
    assert(n == object_db.objects@.len());
    assert forall|k: int| 0 <= k < n implies cat_names.contains(
        category_of(#[trigger] object_db.objects@[k]),
    ) by {
        assert(names(cats@).contains(category_of(objs@[k])));
    }
    out
}

} // verus!
