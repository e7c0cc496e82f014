//! A model of JSON documents and the deep-merge the overlay files rely on.
//!
//! Numbers keep their literal text, so a document passes through unchanged
//! and no floating point enters the library. Objects keep their entries in
//! order; merging replaces the first entry with a matching key and appends
//! unknown keys.

use vstd::prelude::*;

use crate::text::str_eq;

verus! {

broadcast use vstd::std_specs::vec::group_vec_axioms;

/// One JSON value, with numbers held as their literal text.
pub enum JsonValue {
    Null,
    Bool(bool),
    Number(String),
    Text(String),
    Array(Vec<JsonValue>),
    Object(Vec<(String, JsonValue)>),
}

/// The mathematical model of a JSON value.
pub ghost enum JsonView {
    Null,
    Bool(bool),
    Number(Seq<char>),
    Text(Seq<char>),
    Array(Seq<JsonView>),
    Object(Seq<(Seq<char>, JsonView)>),
}

pub open spec fn json_view(v: JsonValue) -> JsonView
    decreases v,
{
    match v {
        JsonValue::Null => JsonView::Null,
        JsonValue::Bool(b) => JsonView::Bool(b),
        JsonValue::Number(s) => JsonView::Number(s@),
        JsonValue::Text(s) => JsonView::Text(s@),
        JsonValue::Array(items) => JsonView::Array(
            Seq::new(
                items@.len(),
                |i: int|
                    if 0 <= i < items@.len() {
                        json_view(items@[i])
                    } else {
                        JsonView::Null
                    },
            ),
        ),
        JsonValue::Object(entries) => JsonView::Object(
            Seq::new(
                entries@.len(),
                |i: int|
                    if 0 <= i < entries@.len() {
                        (entries@[i].0@, json_view(entries@[i].1))
                    } else {
                        (Seq::empty(), JsonView::Null)
                    },
            ),
        ),
    }
}

impl View for JsonValue {
    type V = JsonView;

    open spec fn view(&self) -> JsonView {
        json_view(*self)
    }
}

/// The value of the first entry with the given key, if any.
pub open spec fn spec_get(entries: Seq<(Seq<char>, JsonView)>, key: Seq<char>) -> Option<JsonView>
    decreases entries.len(),
{
    if entries.len() == 0 {
        None
    } else if entries[0].0 == key {
        Some(entries[0].1)
    } else {
        spec_get(entries.drop_first(), key)
    }
}

/// The entries with the first `key` entry replaced by `value`, or with
/// `(key, value)` appended when no entry has the key.
pub open spec fn spec_upsert(
    entries: Seq<(Seq<char>, JsonView)>,
    key: Seq<char>,
    value: JsonView,
) -> Seq<(Seq<char>, JsonView)>
    decreases entries.len(),
{
    if entries.len() == 0 {
        seq![(key, value)]
    } else if entries[0].0 == key {
        seq![(key, value)] + entries.drop_first()
    } else {
        seq![entries[0]] + spec_upsert(entries.drop_first(), key, value)
    }
}

/// The entries without any entry of the given key.
pub open spec fn spec_remove(entries: Seq<(Seq<char>, JsonView)>, key: Seq<char>) -> Seq<
    (Seq<char>, JsonView),
>
    decreases entries.len(),
{
    if entries.len() == 0 {
        Seq::empty()
    } else if entries[0].0 == key {
        spec_remove(entries.drop_first(), key)
    } else {
        seq![entries[0]] + spec_remove(entries.drop_first(), key)
    }
}

/// Deep merge: two objects merge key by key, recursively; any other overlay
/// value replaces the base value outright — arrays are never element-merged.
pub open spec fn spec_merge(base: JsonView, overlay: JsonView) -> JsonView
    decreases overlay,
{
    match overlay {
        JsonView::Object(oe) => match base {
            JsonView::Object(be) => JsonView::Object(spec_merge_entries(be, oe)),
            _ => overlay,
        },
        _ => overlay,
    }
}

pub open spec fn spec_merge_entries(
    base: Seq<(Seq<char>, JsonView)>,
    overlay: Seq<(Seq<char>, JsonView)>,
) -> Seq<(Seq<char>, JsonView)>
    decreases overlay,
{
    if overlay.len() == 0 {
        base
    } else {
        let key = overlay[0].0;
        let value = overlay[0].1;
        let merged = match spec_get(base, key) {
            Some(bv) => spec_merge(bv, value),
            None => value,
        };
        spec_merge_entries(spec_upsert(base, key, merged), overlay.drop_first())
    }
}

/// A deep copy with the same model.
pub fn clone_json(v: &JsonValue) -> (r: JsonValue)
    ensures
        r@ == v@,
    decreases *v,
{
    match v {
        JsonValue::Null => JsonValue::Null,
        JsonValue::Bool(b) => JsonValue::Bool(*b),
        JsonValue::Number(s) => JsonValue::Number(s.clone()),
        JsonValue::Text(s) => JsonValue::Text(s.clone()),
        JsonValue::Array(items) => {
            let mut out: Vec<JsonValue> = Vec::new();
            let mut i: usize = 0;
            while i < items.len()
                invariant
                    *v == JsonValue::Array(*items),
                    i <= items@.len(),
                    out@.len() == i,
                    forall|k: int| 0 <= k < i ==> (#[trigger] out@[k])@ == items@[k]@,
                decreases items@.len() - i,
            {
                proof {
                    assert(*v == JsonValue::Array(*items));
                    assert(decreases_to!(*v => (*v)->Array_0));
                    assert((*v)->Array_0 == *items);
                    assert(decreases_to!(*items => items@));
                    assert(decreases_to!(items@ => items@[i as int]));
                }
                let c = clone_json(&items[i]);
                out.push(c);
                i += 1;
            }
            let r = JsonValue::Array(out);
            proof {
                assert(r@ matches JsonView::Array(s1) && v@ matches JsonView::Array(s2) ==> true);
                lemma_array_view_eq(&r, v, &out, items);
            }
            r
        },
        JsonValue::Object(entries) => {
            let mut out: Vec<(String, JsonValue)> = Vec::new();
            let mut i: usize = 0;
            while i < entries.len()
                invariant
                    *v == JsonValue::Object(*entries),
                    i <= entries@.len(),
                    out@.len() == i,
                    forall|k: int|
                        0 <= k < i ==> (#[trigger] out@[k]).0@ == entries@[k].0@ && out@[k].1@
                            == entries@[k].1@,
                decreases entries@.len() - i,
            {
                proof {
                    assert(*v == JsonValue::Object(*entries));
                    assert(decreases_to!(*v => (*v)->Object_0));
                    assert((*v)->Object_0 == *entries);
                    assert(decreases_to!(*entries => entries@));
                    assert(decreases_to!(entries@ => entries@[i as int]));
                    assert(decreases_to!(entries@[i as int] => entries@[i as int].1));
                }
                let c = clone_json(&entries[i].1);
                out.push((entries[i].0.clone(), c));
                i += 1;
            }
            let r = JsonValue::Object(out);
            proof {
                lemma_object_view_eq(&r, v, &out, entries);
            }
            r
        },
    }
}

proof fn lemma_array_view_eq(
    a: &JsonValue,
    b: &JsonValue,
    ia: &Vec<JsonValue>,
    ib: &Vec<JsonValue>,
)
    requires
        *a == JsonValue::Array(*ia),
        *b == JsonValue::Array(*ib),
        ia@.len() == ib@.len(),
        forall|k: int| 0 <= k < ia@.len() ==> (#[trigger] ia@[k])@ == ib@[k]@,
    ensures
        a@ == b@,
{
    let sa = a@->Array_0;
    let sb = b@->Array_0;
    assert(a@ matches JsonView::Array(_));
    assert(b@ matches JsonView::Array(_));
    assert(sa.len() == ia@.len());
    assert(sb.len() == ib@.len());
    assert forall|i: int| 0 <= i < sa.len() implies #[trigger] sa[i] == sb[i] by {
        assert(sa[i] == json_view(ia@[i]));
        assert(sb[i] == json_view(ib@[i]));
    }
    assert(sa =~= sb);
}

proof fn lemma_object_view_eq(
    a: &JsonValue,
    b: &JsonValue,
    ia: &Vec<(String, JsonValue)>,
    ib: &Vec<(String, JsonValue)>,
)
    requires
        *a == JsonValue::Object(*ia),
        *b == JsonValue::Object(*ib),
        ia@.len() == ib@.len(),
        forall|k: int|
            0 <= k < ia@.len() ==> (#[trigger] ia@[k]).0@ == ib@[k].0@ && ia@[k].1@ == ib@[k].1@,
    ensures
        a@ == b@,
{
    let sa = a@->Object_0;
    let sb = b@->Object_0;
    assert(a@ matches JsonView::Object(_));
    assert(b@ matches JsonView::Object(_));
    assert(sa.len() == ia@.len());
    assert(sb.len() == ib@.len());
    assert forall|i: int| 0 <= i < sa.len() implies #[trigger] sa[i] == sb[i] by {
        assert(sa[i] == (ia@[i].0@, json_view(ia@[i].1)));
        assert(sb[i] == (ib@[i].0@, json_view(ib@[i].1)));
    }
    assert(sa =~= sb);
}

/// The model of an optional value.
pub open spec fn opt_model(v: Option<JsonValue>) -> Option<JsonView> {
    match v {
        Some(m) => Some(json_view(m)),
        None => None,
    }
}

/// The models of an object's entries.
pub open spec fn entry_models(entries: Seq<(String, JsonValue)>) -> Seq<(Seq<char>, JsonView)> {
    Seq::new(
        entries.len(),
        |i: int|
            if 0 <= i < entries.len() {
                (entries[i].0@, json_view(entries[i].1))
            } else {
                (Seq::empty(), JsonView::Null)
            },
    )
}

/// Looks a key up in an entry list.
pub fn get_entry<'a>(entries: &'a Vec<(String, JsonValue)>, key: &str) -> (r: Option<
    &'a JsonValue,
>)
    ensures
        match r {
            Some(v) => spec_get(entry_models(entries@), key@) == Some(v@),
            None => spec_get(entry_models(entries@), key@) is None,
        },
{
    let ghost em = entry_models(entries@);
    let mut i: usize = 0;
    proof {
        assert(em.subrange(0, em.len() as int) =~= em);
    }
    while i < entries.len()
        invariant
            i <= entries@.len(),
            em == entry_models(entries@),
            spec_get(em, key@) == spec_get(em.subrange(i as int, em.len() as int), key@),
            forall|k: int| 0 <= k < i ==> (#[trigger] em[k]).0 != key@,
        decreases entries@.len() - i,
    {
        proof {
            assert(em.subrange(i as int, em.len() as int).len() > 0);
            assert(em.subrange(i as int, em.len() as int)[0] == em[i as int]);
            assert(em.subrange(i as int, em.len() as int).drop_first() =~= em.subrange(
                i + 1,
                em.len() as int,
            ));
        }
        if str_eq(entries[i].0.as_str(), key) {
            return Some(&entries[i].1);
        }
        i += 1;
    }
    proof {
        assert(em.subrange(i as int, em.len() as int).len() == 0);
    }
    None
}

/// Whether an object's entries hold the key.
pub fn has_key(entries: &Vec<(String, JsonValue)>, key: &str) -> (r: bool)
    ensures
        r == (spec_get(entry_models(entries@), key@) is Some),
{
    match get_entry(entries, key) {
        Some(_) => true,
        None => false,
    }
}

/// Replaces the first entry with the key, or appends the pair.
pub fn upsert_entry(entries: Vec<(String, JsonValue)>, key: &str, value: JsonValue) -> (r: Vec<
    (String, JsonValue),
>)
    ensures
        entry_models(r@) == spec_upsert(entry_models(entries@), key@, value@),
    decreases entries@.len(),
{
    let ghost em = entry_models(entries@);
    let cur = entries;
    let mut i: usize = 0;
    proof {
        assert(em.subrange(0, em.len() as int) =~= em);
        assert(em.subrange(0, 0) + spec_upsert(em.subrange(0, em.len() as int), key@, value@)
            =~= spec_upsert(em, key@, value@));
    }
    while i < cur.len()
        invariant
            i <= cur@.len(),
            cur@ == entries@,
            em == entry_models(entries@),
            spec_upsert(em, key@, value@) =~= em.subrange(0, i as int) + spec_upsert(
                em.subrange(i as int, em.len() as int),
                key@,
                value@,
            ),
            forall|k: int| 0 <= k < i ==> (#[trigger] em[k]).0 != key@,
        decreases cur@.len() - i,
    {
        let ghost tail = em.subrange(i as int, em.len() as int);
        proof {
            assert(tail.len() > 0);
            assert(tail[0] == em[i as int]);
            assert(tail.drop_first() =~= em.subrange(i + 1, em.len() as int));
        }
        if str_eq(cur[i].0.as_str(), key) {
            let mut out: Vec<(String, JsonValue)> = Vec::new();
            let mut k: usize = 0;
            while k < cur.len()
                invariant
                    i < cur@.len(),
                    k <= cur@.len(),
                    cur@ == entries@,
                    em == entry_models(entries@),
                    em[i as int].0 == key@,
                    key@ == entries@[i as int].0@,
                    out@.len() == k,
                    forall|m: int|
                        0 <= m < k ==> (#[trigger] out@[m]).0@ == (if m == i {
                            key@
                        } else {
                            em[m].0
                        }) && out@[m].1@ == (if m == i {
                            value@
                        } else {
                            em[m].1
                        }),
                decreases cur@.len() - k,
            {
                proof {
                    assert(em[k as int] == (entries@[k as int].0@, json_view(
                        entries@[k as int].1,
                    )));
                }
                if k == i {
                    out.push((key.to_owned(), clone_json(&value)));
                } else {
                    out.push((cur[k].0.clone(), clone_json(&cur[k].1)));
                }
                k += 1;
            }
            proof {
                let tail2 = em.subrange(i as int, em.len() as int);
                assert(tail2.len() > 0);
                assert(tail2[0] == em[i as int]);
                assert(tail2.drop_first() =~= em.subrange(i + 1, em.len() as int));
                assert(entry_models(out@) =~= em.subrange(0, i as int) + (seq![
                    (key@, value@),
                ] + em.subrange(i + 1, em.len() as int)));
                assert(spec_upsert(em.subrange(i as int, em.len() as int), key@, value@) =~= seq![
                    (key@, value@),
                ] + em.subrange(i + 1, em.len() as int));
                assert(entry_models(out@) =~= spec_upsert(em, key@, value@));
            }
            return out;
        }
        i += 1;
    }
    proof {
        assert(em.subrange(i as int, em.len() as int).len() == 0);
        assert(spec_upsert(em.subrange(i as int, em.len() as int), key@, value@) =~= seq![
            (key@, value@),
        ]);
    }
    let mut cur = cur;
    cur.push((key.to_owned(), value));
    proof {
        assert(entry_models(cur@) =~= em.subrange(0, (cur@.len() - 1) as int).push(
            (key@, cur@.last().1@),
        ));
        assert(entry_models(cur@) =~= spec_upsert(em, key@, value@));
    }
    cur
}

/// Removes every entry with the key, keeping the rest in order.
pub fn remove_entry(entries: Vec<(String, JsonValue)>, key: &str) -> (r: Vec<(String, JsonValue)>)
    ensures
        entry_models(r@) == spec_remove(entry_models(entries@), key@),
{
    let ghost em = entry_models(entries@);
    let mut out: Vec<(String, JsonValue)> = Vec::new();
    let mut i: usize = 0;
    proof {
        assert(em.subrange(0, 0) =~= Seq::<(Seq<char>, JsonView)>::empty());
        assert(entry_models(out@) =~= spec_remove_prefix_k(em, key@, 0));
    }
    while i < entries.len()
        invariant
            i <= entries@.len(),
            em == entry_models(entries@),
            entry_models(out@) == spec_remove_prefix_k(em, key@, i as int),
        decreases entries@.len() - i,
    {
        proof {
            assert(em[i as int] == (entries@[i as int].0@, json_view(entries@[i as int].1)));
            lemma_remove_prefix_step(em, key@, i as int);
        }
        if !str_eq(entries[i].0.as_str(), key) {
            let ghost prev = out@;
            out.push((entries[i].0.clone(), clone_json(&entries[i].1)));
            proof {
                assert(entry_models(out@) =~= entry_models(prev).push(em[i as int]));
            }
        }
        i += 1;
    }
    proof {
        lemma_remove_prefix_full(em, key@);
    }
    out
}

/// The removal applied to the first `i` entries only.
pub open spec fn spec_remove_prefix_k(
    entries: Seq<(Seq<char>, JsonView)>,
    key: Seq<char>,
    i: int,
) -> Seq<(Seq<char>, JsonView)> {
    spec_remove(entries.subrange(0, i), key)
}

proof fn lemma_remove_push(entries: Seq<(Seq<char>, JsonView)>, key: Seq<char>, e: (Seq<char>, JsonView))
    ensures
        spec_remove(entries.push(e), key) == if e.0 == key {
            spec_remove(entries, key)
        } else {
            spec_remove(entries, key).push(e)
        },
    decreases entries.len(),
{
    if entries.len() == 0 {
        assert(entries.push(e).drop_first() =~= Seq::<(Seq<char>, JsonView)>::empty());
        assert(entries.push(e)[0] == e);
        assert(spec_remove(Seq::<(Seq<char>, JsonView)>::empty(), key) =~= Seq::<
            (Seq<char>, JsonView),
        >::empty());
        assert(spec_remove(entries, key) =~= Seq::<(Seq<char>, JsonView)>::empty());
        if e.0 == key {
            assert(spec_remove(entries.push(e), key) == spec_remove(
                entries.push(e).drop_first(),
                key,
            ));
            assert(spec_remove(entries.push(e), key) =~= spec_remove(entries, key));
        } else {
            assert(spec_remove(entries.push(e), key) == seq![e] + spec_remove(
                entries.push(e).drop_first(),
                key,
            ));
            assert(spec_remove(entries.push(e), key) =~= spec_remove(entries, key).push(e));
        }
    } else {
        assert(entries.push(e).drop_first() =~= entries.drop_first().push(e));
        assert(entries.push(e)[0] == entries[0]);
        lemma_remove_push(entries.drop_first(), key, e);
        assert(spec_remove(entries.push(e), key) == if entries[0].0 == key {
            spec_remove(entries.drop_first().push(e), key)
        } else {
            seq![entries[0]] + spec_remove(entries.drop_first().push(e), key)
        });
        if entries[0].0 != key {
            assert(spec_remove(entries, key) == seq![entries[0]] + spec_remove(
                entries.drop_first(),
                key,
            ));
            if e.0 == key {
                assert(spec_remove(entries.push(e), key) =~= spec_remove(entries, key));
            } else {
                assert(seq![entries[0]] + spec_remove(entries.drop_first(), key).push(e)
                    =~= (seq![entries[0]] + spec_remove(entries.drop_first(), key)).push(e));
                assert(spec_remove(entries.push(e), key) =~= spec_remove(entries, key).push(e));
            }
        } else {
            assert(spec_remove(entries, key) == spec_remove(entries.drop_first(), key));
            if e.0 == key {
                assert(spec_remove(entries.push(e), key) =~= spec_remove(entries, key));
            } else {
                assert(spec_remove(entries.push(e), key) =~= spec_remove(entries, key).push(e));
            }
        }
    }
}

proof fn lemma_remove_prefix_step(entries: Seq<(Seq<char>, JsonView)>, key: Seq<char>, i: int)
    requires
        0 <= i < entries.len(),
    ensures
        spec_remove_prefix_k(entries, key, i + 1) == if entries[i].0 == key {
            spec_remove_prefix_k(entries, key, i)
        } else {
            spec_remove_prefix_k(entries, key, i).push(entries[i])
        },
{
    assert(entries.subrange(0, i + 1) =~= entries.subrange(0, i).push(entries[i]));
    lemma_remove_push(entries.subrange(0, i), key, entries[i]);
}

proof fn lemma_remove_prefix_full(entries: Seq<(Seq<char>, JsonView)>, key: Seq<char>)
    ensures
        spec_remove_prefix_k(entries, key, entries.len() as int) == spec_remove(entries, key),
{
    assert(entries.subrange(0, entries.len() as int) =~= entries);
}

/// Whether two values have the same model.
pub fn json_eq(a: &JsonValue, b: &JsonValue) -> (r: bool)
    ensures
        r == (a@ == b@),
    decreases *a,
{
    match (a, b) {
        (JsonValue::Null, JsonValue::Null) => true,
        (JsonValue::Bool(x), JsonValue::Bool(y)) => x == y,
        (JsonValue::Number(x), JsonValue::Number(y)) => str_eq(x.as_str(), y.as_str()),
        (JsonValue::Text(x), JsonValue::Text(y)) => str_eq(x.as_str(), y.as_str()),
        (JsonValue::Array(x), JsonValue::Array(y)) => {
            if x.len() != y.len() {
                proof {
                    lemma_view_array_len(a, x);
                    lemma_view_array_len(b, y);
                }
                return false;
            }
            let mut i: usize = 0;
            while i < x.len()
                invariant
                    x@.len() == y@.len(),
                    i <= x@.len(),
                    *a == JsonValue::Array(*x),
                    *b == JsonValue::Array(*y),
                    forall|k: int| 0 <= k < i ==> (#[trigger] x@[k])@ == y@[k]@,
                decreases x@.len() - i,
            {
                proof {
                    assert(decreases_to!(*a => (*a)->Array_0));
                    assert((*a)->Array_0 == *x);
                    assert(decreases_to!(*x => x@));
                    assert(decreases_to!(x@ => x@[i as int]));
                }
                if !json_eq(&x[i], &y[i]) {
                    proof {
                        lemma_view_array_index(a, x, i as int);
                        lemma_view_array_index(b, y, i as int);
                    }
                    return false;
                }
                i += 1;
            }
            proof {
                lemma_array_view_eq(a, b, x, y);
            }
            true
        },
        (JsonValue::Object(x), JsonValue::Object(y)) => {
            if x.len() != y.len() {
                proof {
                    lemma_view_object_len(a, x);
                    lemma_view_object_len(b, y);
                }
                return false;
            }
            let mut i: usize = 0;
            while i < x.len()
                invariant
                    x@.len() == y@.len(),
                    i <= x@.len(),
                    *a == JsonValue::Object(*x),
                    *b == JsonValue::Object(*y),
                    forall|k: int|
                        0 <= k < i ==> (#[trigger] x@[k]).0@ == y@[k].0@ && x@[k].1@ == y@[k].1@,
                decreases x@.len() - i,
            {
                proof {
                    assert(decreases_to!(*a => (*a)->Object_0));
                    assert((*a)->Object_0 == *x);
                    assert(decreases_to!(*x => x@));
                    assert(decreases_to!(x@ => x@[i as int]));
                    assert(decreases_to!(x@[i as int] => x@[i as int].1));
                }
                if !str_eq(x[i].0.as_str(), y[i].0.as_str()) || !json_eq(&x[i].1, &y[i].1) {
                    proof {
                        lemma_view_object_index(a, x, i as int);
                        lemma_view_object_index(b, y, i as int);
                    }
                    return false;
                }
                i += 1;
            }
            proof {
                lemma_object_view_eq(a, b, x, y);
            }
            true
        },
        _ => {
            proof {
                lemma_view_kind(a);
                lemma_view_kind(b);
            }
            false
        },
    }
}

proof fn lemma_view_array_len(v: &JsonValue, items: &Vec<JsonValue>)
    requires
        *v == JsonValue::Array(*items),
    ensures
        v@ matches JsonView::Array(s) && s.len() == items@.len(),
{
}

proof fn lemma_view_array_index(v: &JsonValue, items: &Vec<JsonValue>, i: int)
    requires
        *v == JsonValue::Array(*items),
        0 <= i < items@.len(),
    ensures
        v@ matches JsonView::Array(s) && s[i] == items@[i]@,
{
}

proof fn lemma_view_object_len(v: &JsonValue, entries: &Vec<(String, JsonValue)>)
    requires
        *v == JsonValue::Object(*entries),
    ensures
        v@ matches JsonView::Object(s) && s.len() == entries@.len(),
{
}

proof fn lemma_view_object_index(v: &JsonValue, entries: &Vec<(String, JsonValue)>, i: int)
    requires
        *v == JsonValue::Object(*entries),
        0 <= i < entries@.len(),
    ensures
        v@ matches JsonView::Object(s) && s[i] == (entries@[i].0@, entries@[i].1@),
{
}

proof fn lemma_view_kind(v: &JsonValue)
    ensures
        (*v matches JsonValue::Null) == (v@ matches JsonView::Null),
        (*v matches JsonValue::Bool(_)) == (v@ matches JsonView::Bool(_)),
        (*v matches JsonValue::Number(_)) == (v@ matches JsonView::Number(_)),
        (*v matches JsonValue::Text(_)) == (v@ matches JsonView::Text(_)),
        (*v matches JsonValue::Array(_)) == (v@ matches JsonView::Array(_)),
        (*v matches JsonValue::Object(_)) == (v@ matches JsonView::Object(_)),
{
}

/// Deep-merges the overlay into the base: object-valued keys merge
/// recursively key by key; any other overlay value replaces the base value
/// outright; arrays are never element-merged.
pub fn merge_json_objects(base: &JsonValue, overlay: &JsonValue) -> (r: JsonValue)
    ensures
        r@ == spec_merge(base@, overlay@),
    decreases *overlay,
{
    match overlay {
        JsonValue::Object(oe) => {
            match base {
                JsonValue::Object(be) => {
                    let ghost bem = entry_models(be@);
                    let ghost oem = entry_models(oe@);
                    let mut acc: Vec<(String, JsonValue)> = clone_entries(be);
                    let mut i: usize = 0;
                    proof {
                        assert(oem.subrange(0, 0) =~= Seq::<(Seq<char>, JsonView)>::empty());
                        assert(entry_models(acc@) =~= spec_merge_entries(
                            bem,
                            oem.subrange(0, 0),
                        ));
                    }
                    while i < oe.len()
                        invariant
                            *overlay == JsonValue::Object(*oe),
                            i <= oe@.len(),
                            oem == entry_models(oe@),
                            entry_models(acc@) == spec_merge_entries(
                                bem,
                                oem.subrange(0, i as int),
                            ),
                        decreases oe@.len() - i,
                    {
                        proof {
                            assert(oem[i as int] == (oe@[i as int].0@, json_view(
                                oe@[i as int].1,
                            )));
                            assert(decreases_to!(*overlay => (*overlay)->Object_0));
                            assert((*overlay)->Object_0 == *oe);
                            assert(decreases_to!(*oe => oe@));
                            assert(decreases_to!(oe@ => oe@[i as int]));
                            assert(decreases_to!(oe@[i as int] => oe@[i as int].1));
                        }
                        let key = &oe[i].0;
                        let merged = match get_entry(&acc, key.as_str()) {
                            Some(bv) => merge_json_objects(bv, &oe[i].1),
                            None => clone_json(&oe[i].1),
                        };
                        acc = upsert_entry(acc, key.as_str(), merged);
                        proof {
                            lemma_merge_entries_snoc(bem, oem, i as int);
                        }
                        i += 1;
                    }
                    proof {
                        assert(oem.subrange(0, oem.len() as int) =~= oem);
                    }
                    let r = JsonValue::Object(acc);
                    proof {
                        lemma_object_model(&r);
                        lemma_object_model(base);
                        lemma_object_model(overlay);
                        assert(base@ == JsonView::Object(bem));
                        assert(overlay@ == JsonView::Object(oem));
                        assert(spec_merge(base@, overlay@) == JsonView::Object(
                            spec_merge_entries(bem, oem),
                        ));
                    }
                    r
                },
                _ => clone_json(overlay),
            }
        },
        _ => clone_json(overlay),
    }
}

/// The model of an object value is the model of its entries.
proof fn lemma_object_model(v: &JsonValue)
    requires
        *v matches JsonValue::Object(_),
    ensures
        v@ matches JsonView::Object(s) && (*v matches JsonValue::Object(e) && s == entry_models(
            e@,
        )),
{
    if let JsonValue::Object(e) = v {
        let s = Seq::new(
            e@.len(),
            |i: int|
                if 0 <= i < e@.len() {
                    (e@[i].0@, json_view(e@[i].1))
                } else {
                    (Seq::<char>::empty(), JsonView::Null)
                },
        );
        assert(s =~= entry_models(e@));
    }
}

/// Extending the merged overlay prefix by one entry performs exactly one
/// upsert of that entry's merged value.
proof fn lemma_merge_entries_snoc(
    base: Seq<(Seq<char>, JsonView)>,
    overlay: Seq<(Seq<char>, JsonView)>,
    i: int,
)
    requires
        0 <= i < overlay.len(),
    ensures
        spec_merge_entries(base, overlay.subrange(0, i + 1)) == ({
            let acc = spec_merge_entries(base, overlay.subrange(0, i));
            let key = overlay[i].0;
            let merged = match spec_get(acc, key) {
                Some(bv) => spec_merge(bv, overlay[i].1),
                None => overlay[i].1,
            };
            spec_upsert(acc, key, merged)
        }),
{
    lemma_merge_entries_push(base, overlay.subrange(0, i), overlay[i]);
    assert(overlay.subrange(0, i).push(overlay[i]) =~= overlay.subrange(0, i + 1));
}

proof fn lemma_merge_entries_push(
    base: Seq<(Seq<char>, JsonView)>,
    overlay: Seq<(Seq<char>, JsonView)>,
    e: (Seq<char>, JsonView),
)
    ensures
        spec_merge_entries(base, overlay.push(e)) == ({
            let acc = spec_merge_entries(base, overlay);
            let merged = match spec_get(acc, e.0) {
                Some(bv) => spec_merge(bv, e.1),
                None => e.1,
            };
            spec_upsert(acc, e.0, merged)
        }),
    decreases overlay.len(),
{
    if overlay.len() == 0 {
        assert(overlay.push(e)[0] == e);
        assert(overlay.push(e).drop_first() =~= Seq::<(Seq<char>, JsonView)>::empty());
        let merged0 = match spec_get(base, e.0) {
            Some(bv) => spec_merge(bv, e.1),
            None => e.1,
        };
        assert(spec_merge_entries(base, overlay.push(e)) == spec_merge_entries(
            spec_upsert(base, e.0, merged0),
            overlay.push(e).drop_first(),
        ));
        assert(spec_merge_entries(
            spec_upsert(base, e.0, merged0),
            overlay.push(e).drop_first(),
        ) == spec_upsert(base, e.0, merged0));
        assert(spec_merge_entries(base, overlay) == base);
    } else {
        assert(overlay.push(e)[0] == overlay[0]);
        assert(overlay.push(e).drop_first() =~= overlay.drop_first().push(e));
        let key = overlay[0].0;
        let merged = match spec_get(base, key) {
            Some(bv) => spec_merge(bv, overlay[0].1),
            None => overlay[0].1,
        };
        lemma_merge_entries_push(spec_upsert(base, key, merged), overlay.drop_first(), e);
        assert(spec_merge_entries(base, overlay) == spec_merge_entries(
            spec_upsert(base, key, merged),
            overlay.drop_first(),
        ));
        assert(spec_merge_entries(base, overlay.push(e)) == spec_merge_entries(
            spec_upsert(base, key, merged),
            overlay.drop_first().push(e),
        ));
    }
}

pub fn clone_entries(entries: &Vec<(String, JsonValue)>) -> (r: Vec<(String, JsonValue)>)
    ensures
        entry_models(r@) == entry_models(entries@),
{
    let mut out: Vec<(String, JsonValue)> = Vec::new();
    let mut i: usize = 0;
    while i < entries.len()
        invariant
            i <= entries@.len(),
            out@.len() == i,
            forall|k: int|
                0 <= k < i ==> (#[trigger] out@[k]).0@ == entries@[k].0@ && out@[k].1@
                    == entries@[k].1@,
        decreases entries@.len() - i,
    {
        out.push((entries[i].0.clone(), clone_json(&entries[i].1)));
        i += 1;
    }
    proof {
        assert(entry_models(out@) =~= entry_models(entries@));
    }
    out
}

/// Replacing one key leaves every other key's binding untouched.
pub proof fn lemma_upsert_preserves_other_keys(
    entries: Seq<(Seq<char>, JsonView)>,
    key: Seq<char>,
    value: JsonView,
    other: Seq<char>,
)
    requires
        other != key,
    ensures
        spec_get(spec_upsert(entries, key, value), other) == spec_get(entries, other),
    decreases entries.len(),
{
    if entries.len() == 0 {
        let u = spec_upsert(entries, key, value);
        assert(u =~= seq![(key, value)]);
        assert(u[0] == (key, value));
        assert(u.drop_first() =~= Seq::<(Seq<char>, JsonView)>::empty());
        assert(spec_get(u, other) == spec_get(u.drop_first(), other));
        assert(spec_get(u.drop_first(), other) is None);
        assert(spec_get(entries, other) is None);
    } else if entries[0].0 == key {
        let u = spec_upsert(entries, key, value);
        assert(u =~= seq![(key, value)] + entries.drop_first());
        assert(u[0] == (key, value));
        assert(u.drop_first() =~= entries.drop_first());
        assert(spec_get(u, other) == spec_get(entries.drop_first(), other));
        assert(spec_get(entries, other) == spec_get(entries.drop_first(), other));
    } else {
        lemma_upsert_preserves_other_keys(entries.drop_first(), key, value, other);
        let u = spec_upsert(entries, key, value);
        assert(u =~= seq![entries[0]] + spec_upsert(entries.drop_first(), key, value));
        assert(u[0] == entries[0]);
        assert(u.drop_first() =~= spec_upsert(entries.drop_first(), key, value));
        if entries[0].0 == other {
            assert(spec_get(u, other) == Some(u[0].1));
            assert(spec_get(entries, other) == Some(entries[0].1));
        } else {
            assert(spec_get(u, other) == spec_get(u.drop_first(), other));
            assert(spec_get(entries, other) == spec_get(entries.drop_first(), other));
        }
    }
}

/// The models of an array's items.
pub open spec fn item_models(items: Seq<JsonValue>) -> Seq<JsonView> {
    Seq::new(
        items.len(),
        |i: int|
            if 0 <= i < items.len() {
                json_view(items[i])
            } else {
                JsonView::Null
            },
    )
}

/// The model of an array value is the model of its items.
pub proof fn lemma_array_items(v: &JsonValue, items: &Vec<JsonValue>)
    requires
        *v == JsonValue::Array(*items),
    ensures
        v@ == JsonView::Array(item_models(items@)),
{
    let s = v@->Array_0;
    assert(v@ matches JsonView::Array(_));
    assert(s.len() == items@.len());
    assert forall|i: int| 0 <= i < s.len() implies #[trigger] s[i] == item_models(items@)[i] by {
        assert(s[i] == json_view(items@[i]));
        assert(item_models(items@)[i] == json_view(items@[i]));
    }
    assert(s =~= item_models(items@));
}

/// A value whose model is a string is the string constructor.
pub proof fn lemma_view_text(v: &JsonValue)
    ensures
        (v@ matches JsonView::Text(_)) == (*v matches JsonValue::Text(_)),
{
}

/// No object anywhere in the value binds one key twice (real JSON documents
/// satisfy this; a duplicated key would make the merge order-sensitive).
pub open spec fn spec_unique_json_keys(v: JsonView) -> bool
    decreases v,
{
    match v {
        JsonView::Object(entries) => (forall|i: int, j: int|
            0 <= i < j < entries.len() ==> (#[trigger] entries[i]).0 != (#[trigger] entries[j]).0)
            && (forall|k: int|
            0 <= k < entries.len() ==> spec_unique_json_keys((#[trigger] entries[k]).1)),
        _ => true,
    }
}

/// Looking a key up right after setting it yields the set value.
proof fn lemma_get_after_upsert(entries: Seq<(Seq<char>, JsonView)>, key: Seq<char>, value: JsonView)
    ensures
        spec_get(spec_upsert(entries, key, value), key) == Some(value),
    decreases entries.len(),
{
    if entries.len() == 0 {
        let u = spec_upsert(entries, key, value);
        assert(u =~= seq![(key, value)]);
        assert(u[0] == (key, value));
    } else if entries[0].0 == key {
        let u = spec_upsert(entries, key, value);
        assert(u =~= seq![(key, value)] + entries.drop_first());
        assert(u[0] == (key, value));
    } else {
        lemma_get_after_upsert(entries.drop_first(), key, value);
        let u = spec_upsert(entries, key, value);
        assert(u =~= seq![entries[0]] + spec_upsert(entries.drop_first(), key, value));
        assert(u[0] == entries[0]);
        assert(u.drop_first() =~= spec_upsert(entries.drop_first(), key, value));
        assert(spec_get(u, key) == spec_get(u.drop_first(), key));
    }
}

/// Setting a key to the value it already has changes nothing.
proof fn lemma_upsert_identity(entries: Seq<(Seq<char>, JsonView)>, key: Seq<char>, value: JsonView)
    requires
        spec_get(entries, key) == Some(value),
    ensures
        spec_upsert(entries, key, value) == entries,
    decreases entries.len(),
{
    if entries.len() == 0 {
    } else if entries[0].0 == key {
        assert(entries[0].1 == value);
        let u = spec_upsert(entries, key, value);
        assert(u =~= seq![(key, value)] + entries.drop_first());
        assert(u =~= entries);
    } else {
        assert(spec_get(entries, key) == spec_get(entries.drop_first(), key));
        lemma_upsert_identity(entries.drop_first(), key, value);
        let u = spec_upsert(entries, key, value);
        assert(u =~= seq![entries[0]] + spec_upsert(entries.drop_first(), key, value));
        assert(u =~= entries);
    }
}

/// Merging an overlay that names none of a key leaves that key's binding.
proof fn lemma_merge_entries_preserves(
    acc: Seq<(Seq<char>, JsonView)>,
    o: Seq<(Seq<char>, JsonView)>,
    key: Seq<char>,
)
    requires
        forall|j: int| 0 <= j < o.len() ==> (#[trigger] o[j]).0 != key,
    ensures
        spec_get(spec_merge_entries(acc, o), key) == spec_get(acc, key),
    decreases o.len(),
{
    if o.len() > 0 {
        let k0 = o[0].0;
        let v0 = o[0].1;
        let merged = match spec_get(acc, k0) {
            Some(bv) => spec_merge(bv, v0),
            None => v0,
        };
        lemma_upsert_preserves_other_keys(acc, k0, merged, key);
        assert(o.drop_first() =~= o.subrange(1, o.len() as int));
        assert(forall|j: int| 0 <= j < o.drop_first().len() ==> (#[trigger] o.drop_first()[j]).0
            != key);
        lemma_merge_entries_preserves(spec_upsert(acc, k0, merged), o.drop_first(), key);
    }
}

/// With distinct overlay keys, the merged binding of each overlay key is the
/// merge of the base's binding with the overlay's.
proof fn lemma_merge_entries_get(
    be: Seq<(Seq<char>, JsonView)>,
    oe: Seq<(Seq<char>, JsonView)>,
    j: int,
)
    requires
        forall|a: int, b: int| 0 <= a < b < oe.len() ==> (#[trigger] oe[a]).0 != (#[trigger] oe[b]).0,
        0 <= j < oe.len(),
    ensures
        spec_get(spec_merge_entries(be, oe), oe[j].0) == Some(
            match spec_get(be, oe[j].0) {
                Some(bv) => spec_merge(bv, oe[j].1),
                None => oe[j].1,
            },
        ),
    decreases oe.len(),
{
    let k0 = oe[0].0;
    let v0 = oe[0].1;
    let merged = match spec_get(be, k0) {
        Some(bv) => spec_merge(bv, v0),
        None => v0,
    };
    let acc1 = spec_upsert(be, k0, merged);
    assert(oe.drop_first() =~= oe.subrange(1, oe.len() as int));
    if j == 0 {
        lemma_get_after_upsert(be, k0, merged);
        assert(forall|m: int| 0 <= m < oe.drop_first().len() ==> (#[trigger] oe.drop_first()[m]).0
            != k0);
        lemma_merge_entries_preserves(acc1, oe.drop_first(), k0);
    } else {
        let kj = oe[j].0;
        assert(kj != k0);
        lemma_upsert_preserves_other_keys(be, k0, merged, kj);
        assert(oe.drop_first()[j - 1] == oe[j]);
        lemma_merge_entries_get(acc1, oe.drop_first(), j - 1);
    }
}

/// Merging an overlay whose every binding is already absorbed leaves the
/// entries unchanged.
proof fn lemma_merge_entries_absorbed(
    acc: Seq<(Seq<char>, JsonView)>,
    o: Seq<(Seq<char>, JsonView)>,
)
    requires
        forall|j: int|
            0 <= j < o.len() ==> (spec_get(acc, (#[trigger] o[j]).0) matches Some(m)
                && spec_merge(m, o[j].1) == m),
    ensures
        spec_merge_entries(acc, o) == acc,
    decreases o.len(),
{
    if o.len() > 0 {
        let k0 = o[0].0;
        let v0 = o[0].1;
        let m = spec_get(acc, k0)->Some_0;
        assert(spec_get(acc, k0) == Some(m) && spec_merge(m, v0) == m);
        lemma_upsert_identity(acc, k0, m);
        assert(o.drop_first() =~= o.subrange(1, o.len() as int));
        assert(forall|j: int|
            0 <= j < o.drop_first().len() ==> (spec_get(acc, (#[trigger] o.drop_first()[j]).0)
                matches Some(m2) && spec_merge(m2, o.drop_first()[j].1) == m2));
        lemma_merge_entries_absorbed(acc, o.drop_first());
    }
}

/// With distinct keys, looking each entry's key up yields that entry.
proof fn lemma_get_unique(entries: Seq<(Seq<char>, JsonView)>, j: int)
    requires
        forall|a: int, b: int| 0 <= a < b < entries.len() ==> (#[trigger] entries[a]).0 != (
        #[trigger] entries[b]).0,
        0 <= j < entries.len(),
    ensures
        spec_get(entries, entries[j].0) == Some(entries[j].1),
    decreases j,
{
    if j == 0 {
    } else {
        assert(entries[0].0 != entries[j].0);
        assert(entries.drop_first()[j - 1] == entries[j]);
        lemma_get_unique(entries.drop_first(), j - 1);
        assert(spec_get(entries, entries[j].0) == spec_get(entries.drop_first(), entries[j].0));
    }
}

/// Merging a value into itself changes nothing, when no object in it binds
/// one key twice.
pub proof fn lemma_merge_self(v: JsonView)
    requires
        spec_unique_json_keys(v),
    ensures
        spec_merge(v, v) == v,
    decreases v,
{
    match v {
        JsonView::Object(entries) => {
            assert forall|j: int|
                0 <= j < entries.len() implies (spec_get(entries, (#[trigger] entries[j]).0)
                matches Some(m) && spec_merge(m, entries[j].1) == m) by {
                lemma_get_unique(entries, j);
                assert(spec_unique_json_keys(entries[j].1));
                lemma_merge_self(entries[j].1);
            }
            lemma_merge_entries_absorbed(entries, entries);
        },
        _ => {},
    }
}

/// Deep-merging the same overlay twice equals merging it once, when no
/// object of the overlay binds one key twice. (With a duplicated key the
/// second pass can reorder the duplicate's bindings, so that input is out.)
pub proof fn lemma_merge_idempotent(base: JsonView, overlay: JsonView)
    requires
        spec_unique_json_keys(overlay),
    ensures
        spec_merge(spec_merge(base, overlay), overlay) == spec_merge(base, overlay),
    decreases overlay,
{
    match overlay {
        JsonView::Object(oe) => {
            match base {
                JsonView::Object(be) => {
                    let x = spec_merge_entries(be, oe);
                    assert(spec_merge(base, overlay) == JsonView::Object(x));
                    assert forall|j: int|
                        0 <= j < oe.len() implies (spec_get(x, (#[trigger] oe[j]).0)
                        matches Some(m) && spec_merge(m, oe[j].1) == m) by {
                        lemma_merge_entries_get(be, oe, j);
                        assert(spec_unique_json_keys(oe[j].1));
                        match spec_get(be, oe[j].0) {
                            Some(bv) => {
                                lemma_merge_idempotent(bv, oe[j].1);
                            },
                            None => {
                                lemma_merge_self(oe[j].1);
                            },
                        }
                    }
                    lemma_merge_entries_absorbed(x, oe);
                },
                _ => {
                    lemma_merge_self(overlay);
                },
            }
        },
        _ => {},
    }
}

} // verus!
