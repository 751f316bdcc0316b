//! The ordered maps of the syntax tree are `indexmap::IndexMap`s. Verus sees
//! an `IndexMap` through a name for its entries, in order, and through the
//! contracts below, which restate what the `indexmap` documentation promises.
use vstd::prelude::*;
use indexmap::IndexMap;
use std::hash::RandomState;

use crate::ast::{Endpoint, HttpMethod, Path, Responses};
use crate::util::ReferenceOr;

verus! {

#[verifier::external_type_specification]
#[verifier::external_body]
#[verifier::reject_recursive_types(K)]
#[verifier::reject_recursive_types(V)]
#[verifier::reject_recursive_types(S)]
pub struct ExIndexMap<K, V, S>(IndexMap<K, V, S>);

/// The position of the first entry with key `k`, or -1 where there is none.
pub open spec fn key_position<K, V>(entries: Seq<(K, V)>, k: K) -> int
    decreases entries.len(),
{
    if entries.len() == 0 {
        -1
    } else {
        let p = key_position(entries.drop_last(), k);
        if p >= 0 {
            p
        } else if entries.last().0 == k {
            entries.len() - 1
        } else {
            -1
        }
    }
}

/// The entries after inserting `k` with `v`: an entry with an equal key keeps
/// its key and its place and takes the new value; otherwise the pair is
/// appended.
pub open spec fn map_insert<K, V>(entries: Seq<(K, V)>, k: K, v: V) -> Seq<(K, V)> {
    let p = key_position(entries, k);
    if p >= 0 {
        entries.update(p, (entries[p].0, v))
    } else {
        entries.push((k, v))
    }
}

/// The value stored under `k`, if any.
pub open spec fn map_get<K, V>(entries: Seq<(K, V)>, k: K) -> Option<V> {
    let p = key_position(entries, k);
    if p >= 0 {
        Some(entries[p].1)
    } else {
        None
    }
}

/// What `key_position` computes.
pub proof fn lemma_key_position<K, V>(entries: Seq<(K, V)>, k: K)
    ensures
        -1 <= key_position(entries, k) < entries.len(),
        key_position(entries, k) >= 0 ==> entries[key_position(entries, k)].0 == k,
        forall|j: int|
            0 <= j < entries.len() && (key_position(entries, k) < 0 || j < key_position(entries, k))
                ==> entries[j].0 != k,
    decreases entries.len(),
{
    if entries.len() > 0 {
        let prefix = entries.drop_last();
        lemma_key_position(prefix, k);
        assert forall|j: int| 0 <= j < prefix.len() implies prefix[j] == entries[j] by {}
    }
}

/// Two entry sequences with the same keys in the same order find keys at the same positions.
pub proof fn lemma_key_position_same_keys<K, V, W>(es: Seq<(K, V)>, ws: Seq<(K, W)>, k: K)
    requires
        es.len() == ws.len(),
        forall|i: int| 0 <= i < es.len() ==> #[trigger] es[i].0 == ws[i].0,
    ensures
        key_position(es, k) == key_position(ws, k),
    decreases es.len(),
{
    if es.len() > 0 {
        let (ep, wp) = (es.drop_last(), ws.drop_last());
        assert forall|i: int| 0 <= i < ep.len() implies #[trigger] ep[i].0 == wp[i].0 by {
            assert(ep[i] == es[i] && wp[i] == ws[i]);
        }
        lemma_key_position_same_keys(ep, wp, k);
        assert(es.last().0 == ws.last().0);
    }
}

/// No two entries have equal keys.
pub open spec fn keys_distinct<K, V>(entries: Seq<(K, V)>) -> bool {
    forall|i: int, j: int| 0 <= i < j < entries.len() ==> entries[i].0 != entries[j].0
}

/// Inserting into a map: the key then reads the new value, other keys read
/// what they read before, the map grows by one entry exactly when the key was
/// new, and keys stay distinct.
pub proof fn law_map_insert<K, V>(entries: Seq<(K, V)>, k: K, v: V, other: K)
    ensures
        map_get(map_insert(entries, k, v), k) == Some(v),
        other != k ==> map_get(map_insert(entries, k, v), other) == map_get(entries, other),
        map_insert(entries, k, v).len() == entries.len() + (if map_get(entries, k) is Some { 0int } else { 1int }),
        keys_distinct(entries) ==> keys_distinct(map_insert(entries, k, v)),
{
    lemma_key_position(entries, k);
    lemma_key_position(entries, other);
    let p = key_position(entries, k);
    let after = map_insert(entries, k, v);
    if p >= 0 {
        assert forall|i: int| 0 <= i < entries.len() implies #[trigger] entries[i].0 == after[i].0 by {}
        lemma_key_position_same_keys(entries, after, k);
        lemma_key_position_same_keys(entries, after, other);
        lemma_key_position(after, other);
    } else {
        assert(after.drop_last() == entries);
        lemma_key_position(after, other);
        lemma_key_position(after, k);
    }
}

/// Every value of a map after an insertion is the inserted value or a value
/// the map had: a property of all of those holds of all values after.
pub proof fn law_map_insert_values<K, V>(entries: Seq<(K, V)>, k: K, v: V, prop: spec_fn(V) -> bool)
    requires
        forall|i: int| 0 <= i < entries.len() ==> prop(#[trigger] entries[i].1),
        prop(v),
    ensures
        forall|i: int| 0 <= i < map_insert(entries, k, v).len() ==> prop(#[trigger] map_insert(entries, k, v)[i].1),
{
    lemma_key_position(entries, k);
    let after = map_insert(entries, k, v);
    assert forall|i: int| 0 <= i < after.len() implies prop(#[trigger] after[i].1) by {
        if i < entries.len() && after[i] != entries[i] {
            assert(after[i].1 == v);
        }
    }
}

/// `<IndexMap as Clone>::clone`, which the derived `Clone` of the document
/// types calls. It makes a map of clones of the entries in the same order;
/// nothing is stated of the copy, whose values come from the values' own
/// `clone`.
pub assume_specification<K, V, S>[ <IndexMap<K, V, S> as Clone>::clone ](map: &IndexMap<K, V, S>) -> (copy: IndexMap<K, V, S>)
    where
        K: Clone,
        V: Clone,
        S: Clone,
;

/// The entries of a map of paths by URL; keys are seen as character sequences.
pub uninterp spec fn path_entries(m: IndexMap<String, Path>) -> Seq<(Seq<char>, Path)>;

/// The entries of a map of endpoints by HTTP method.
pub uninterp spec fn endpoint_entries(m: IndexMap<HttpMethod, Endpoint>) -> Seq<(HttpMethod, Endpoint)>;

/// The entries of a map of responses by HTTP code.
pub uninterp spec fn response_entries(m: IndexMap<u16, Responses>) -> Seq<(u16, Responses)>;

/// The entries of a map of response bodies by media type; keys are seen as
/// character sequences.
pub uninterp spec fn content_entries(m: IndexMap<String, ReferenceOr>) -> Seq<(Seq<char>, ReferenceOr)>;

/// `IndexMap::new`: an empty map.
#[verifier::external_body]
pub(crate) fn new_path_map() -> (m: IndexMap<String, Path>)
    ensures
        path_entries(m) == Seq::<(Seq<char>, Path)>::empty(),
{
    IndexMap::new()
}

/// `IndexMap::insert`: keys are `String`s, equivalent when their texts are equal.
#[verifier::external_body]
pub(crate) fn insert_path(m: &mut IndexMap<String, Path>, k: String, v: Path)
    ensures
        path_entries(*final(m)) == map_insert(path_entries(*old(m)), k@, v),
{
    m.insert(k, v);
}

/// `IndexMap::len`: the number of entries.
#[verifier::external_body]
pub(crate) fn path_count(m: &IndexMap<String, Path>) -> (n: usize)
    ensures
        n == path_entries(*m).len(),
{
    m.len()
}

/// `IndexMap::get_index`: the entry at position `i`, if there is one.
#[verifier::external_body]
pub(crate) fn path_at(m: &IndexMap<String, Path>, i: usize) -> (r: Option<(&String, &Path)>)
    ensures
        i < path_entries(*m).len() ==> (r is Some && r.unwrap().0@ == path_entries(*m)[i as int].0
            && *r.unwrap().1 == path_entries(*m)[i as int].1),
        i >= path_entries(*m).len() ==> r is None,
{
    m.get_index(i)
}

/// `IndexMap::new`: an empty map.
#[verifier::external_body]
pub(crate) fn new_endpoint_map() -> (m: IndexMap<HttpMethod, Endpoint>)
    ensures
        endpoint_entries(m) == Seq::<(HttpMethod, Endpoint)>::empty(),
{
    IndexMap::new()
}

/// `IndexMap::insert`: methods are equivalent when they are the same variant.
#[verifier::external_body]
pub(crate) fn insert_endpoint(m: &mut IndexMap<HttpMethod, Endpoint>, k: HttpMethod, v: Endpoint)
    ensures
        endpoint_entries(*final(m)) == map_insert(endpoint_entries(*old(m)), k, v),
{
    m.insert(k, v);
}

/// `IndexMap::get`: the value stored under `k`, if any.
#[verifier::external_body]
pub(crate) fn endpoint_get<'a>(m: &'a IndexMap<HttpMethod, Endpoint>, k: &HttpMethod) -> (r: Option<&'a Endpoint>)
    ensures
        match map_get(endpoint_entries(*m), *k) {
            Some(v) => r matches Some(e) && *e == v,
            None => r is None,
        },
{
    m.get(k)
}

/// `IndexMap::new`: an empty map.
#[verifier::external_body]
pub(crate) fn new_response_map() -> (m: IndexMap<u16, Responses>)
    ensures
        response_entries(m) == Seq::<(u16, Responses)>::empty(),
{
    IndexMap::new()
}

/// `IndexMap::insert`: codes are equivalent when they are equal.
#[verifier::external_body]
pub(crate) fn insert_response(m: &mut IndexMap<u16, Responses>, k: u16, v: Responses)
    ensures
        response_entries(*final(m)) == map_insert(response_entries(*old(m)), k, v),
{
    m.insert(k, v);
}

/// `IndexMap::len`: the number of entries.
#[verifier::external_body]
pub(crate) fn response_count(m: &IndexMap<u16, Responses>) -> (n: usize)
    ensures
        n == response_entries(*m).len(),
{
    m.len()
}

/// `IndexMap::get_index`: the entry at position `i`, if there is one.
#[verifier::external_body]
pub(crate) fn response_at(m: &IndexMap<u16, Responses>, i: usize) -> (r: Option<(&u16, &Responses)>)
    ensures
        i < response_entries(*m).len() ==> (r is Some && *r.unwrap().0 == response_entries(*m)[i as int].0
            && *r.unwrap().1 == response_entries(*m)[i as int].1),
        i >= response_entries(*m).len() ==> r is None,
{
    m.get_index(i)
}

/// `IndexMap::new`: an empty map.
#[verifier::external_body]
pub(crate) fn new_content_map() -> (m: IndexMap<String, ReferenceOr>)
    ensures
        content_entries(m) == Seq::<(Seq<char>, ReferenceOr)>::empty(),
{
    IndexMap::new()
}

/// `IndexMap::insert`: keys are `String`s, equivalent when their texts are equal.
#[verifier::external_body]
pub(crate) fn insert_content(m: &mut IndexMap<String, ReferenceOr>, k: String, v: ReferenceOr)
    ensures
        content_entries(*final(m)) == map_insert(content_entries(*old(m)), k@, v),
{
    m.insert(k, v);
}

/// `IndexMap::len`: the number of entries.
#[verifier::external_body]
pub(crate) fn content_count(m: &IndexMap<String, ReferenceOr>) -> (n: usize)
    ensures
        n == content_entries(*m).len(),
{
    m.len()
}

/// `IndexMap::get_index`: the entry at position `i`, if there is one.
#[verifier::external_body]
pub(crate) fn content_at(m: &IndexMap<String, ReferenceOr>, i: usize) -> (r: Option<(&String, &ReferenceOr)>)
    ensures
        i < content_entries(*m).len() ==> (r is Some && r.unwrap().0@ == content_entries(*m)[i as int].0
            && *r.unwrap().1 == content_entries(*m)[i as int].1),
        i >= content_entries(*m).len() ==> r is None,
{
    m.get_index(i)
}

} // verus!
