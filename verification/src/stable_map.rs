//! Insertion-ordered maps from names to declarations, held in
//! `linked_hash_map::LinkedHashMap`.

use vstd::prelude::*;
use linked_hash_map::LinkedHashMap;
use crate::ast::{TyDecl, TyDeclV, FuncDecl, FuncDeclV};

verus! {

#[verifier::external_type_specification]
#[verifier::external_body]
#[verifier::reject_recursive_types(K)]
#[verifier::reject_recursive_types(V)]
#[verifier::reject_recursive_types(S)]
pub struct ExLinkedHashMap<K, V, S>(LinkedHashMap<K, V, S>);

/// The position of the entry with key `k`, if any.
pub open spec fn key_index<V>(es: Seq<(Seq<char>, V)>, k: Seq<char>) -> Option<int> {
    if exists|i: int| 0 <= i < es.len() && (#[trigger] es[i]).0 == k {
        Some(choose|i: int| 0 <= i < es.len() && (#[trigger] es[i]).0 == k)
    } else {
        None
    }
}

/// No two entries share a key.
pub open spec fn keys_distinct<V>(es: Seq<(Seq<char>, V)>) -> bool {
    forall|i: int, j: int| 0 <= i < es.len() && 0 <= j < es.len() && i != j
        ==> (#[trigger] es[i]).0 != (#[trigger] es[j]).0
}

/// The entries after inserting `(k, v)`: a new key goes last; an existing
/// key keeps its key, takes the new value and moves last.
pub open spec fn spec_insert<V>(es: Seq<(Seq<char>, V)>, k: Seq<char>, v: V) -> Seq<(Seq<char>, V)> {
    match key_index(es, k) {
        Some(i) => es.remove(i).push((es[i].0, v)),
        None => es.push((k, v)),
    }
}

/// The entries, in order, of a map from type names to type declarations.
pub uninterp spec fn ty_entries(m: LinkedHashMap<String, TyDecl>) -> Seq<(Seq<char>, TyDeclV)>;

/// The entries, in order, of a map from function names to function declarations.
pub uninterp spec fn func_entries(m: LinkedHashMap<String, FuncDecl>) -> Seq<(Seq<char>, FuncDeclV)>;

/// Trusted: `LinkedHashMap::new` makes an empty map.
#[verifier::external_body]
pub(crate) fn new_ty_map() -> (m: LinkedHashMap<String, TyDecl>)
    ensures
        ty_entries(m) == Seq::<(Seq<char>, TyDeclV)>::empty(),
{
    LinkedHashMap::new()
}

/// Trusted: `LinkedHashMap::insert` replaces the value of an existing key
/// (keeping the key) and moves the entry to the back, or appends a new
/// entry; it returns the value it replaced. Keys stay distinct.
#[verifier::external_body]
pub(crate) fn ty_map_insert(m: &mut LinkedHashMap<String, TyDecl>, k: String, v: TyDecl) -> (prev: Option<TyDecl>)
    ensures
        ty_entries(*final(m)) == spec_insert(ty_entries(*old(m)), k@, v@),
        prev is Some <==> key_index(ty_entries(*old(m)), k@) is Some,
        prev matches Some(o) ==> o@ == ty_entries(*old(m))[key_index(ty_entries(*old(m)), k@)->0].1,
        keys_distinct(ty_entries(*old(m))) ==> keys_distinct(ty_entries(*final(m))),
{
    m.insert(k, v)
}

/// Trusted: `LinkedHashMap::iter` visits the entries in order.
#[verifier::external_body]
pub(crate) fn ty_map_iter<'a>(m: &'a LinkedHashMap<String, TyDecl>) -> (r: Vec<(&'a String, &'a TyDecl)>)
    ensures
        r@.len() == ty_entries(*m).len(),
        forall|i: int| 0 <= i < r@.len() ==> ((#[trigger] r@[i]).0@, r@[i].1@) == ty_entries(*m)[i],
{
    m.iter().collect()
}

/// Trusted: `LinkedHashMap::into_iter` hands out the entries in order.
#[verifier::external_body]
pub(crate) fn ty_map_into_vec(m: LinkedHashMap<String, TyDecl>) -> (r: Vec<(String, TyDecl)>)
    ensures
        r@.len() == ty_entries(m).len(),
        forall|i: int| 0 <= i < r@.len() ==> ((#[trigger] r@[i]).0@, r@[i].1@) == ty_entries(m)[i],
{
    m.into_iter().collect()
}

/// Trusted: `LinkedHashMap::new` makes an empty map.
#[verifier::external_body]
pub(crate) fn new_func_map() -> (m: LinkedHashMap<String, FuncDecl>)
    ensures
        func_entries(m) == Seq::<(Seq<char>, FuncDeclV)>::empty(),
{
    LinkedHashMap::new()
}

/// Trusted: `LinkedHashMap::insert`, as for [`ty_map_insert`].
#[verifier::external_body]
pub(crate) fn func_map_insert(m: &mut LinkedHashMap<String, FuncDecl>, k: String, v: FuncDecl) -> (prev: Option<FuncDecl>)
    ensures
        func_entries(*final(m)) == spec_insert(func_entries(*old(m)), k@, v@),
        prev is Some <==> key_index(func_entries(*old(m)), k@) is Some,
        keys_distinct(func_entries(*old(m))) ==> keys_distinct(func_entries(*final(m))),
{
    m.insert(k, v)
}

/// Trusted: `LinkedHashMap::len` is the number of entries.
#[verifier::external_body]
pub(crate) fn func_map_len(m: &LinkedHashMap<String, FuncDecl>) -> (n: usize)
    ensures
        n == func_entries(*m).len(),
{
    m.len()
}

/// Trusted: `LinkedHashMap::iter` visits the entries in order.
#[verifier::external_body]
pub(crate) fn func_map_iter<'a>(m: &'a LinkedHashMap<String, FuncDecl>) -> (r: Vec<(&'a String, &'a FuncDecl)>)
    ensures
        r@.len() == func_entries(*m).len(),
        forall|i: int| 0 <= i < r@.len() ==> ((#[trigger] r@[i]).0@, r@[i].1@) == func_entries(*m)[i],
{
    m.iter().collect()
}

} // verus!
