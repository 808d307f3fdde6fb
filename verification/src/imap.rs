//! Trusted view of the insertion-ordered ingredient map.
//!
//! The deduplicated ingredient table is an `indexmap::IndexMap` keyed by
//! normalized ingredient name.  The map itself is outside code; everything
//! stated here about it is what `indexmap`'s documentation and source show,
//! phrased over an uninterpreted sequence of key-value pairs in insertion
//! order.  String keys are equivalent exactly when their character
//! sequences are equal.

use vstd::prelude::*;

use indexmap::IndexMap;

use crate::model::{has_pair_key, Ingredient};

verus! {

#[verifier::external_type_specification]
#[verifier::external_body]
#[verifier::reject_recursive_types(K)]
#[verifier::reject_recursive_types(V)]
#[verifier::reject_recursive_types(S)]
pub struct ExIndexMap<K, V, S>(IndexMap<K, V, S>);

/// The key-value pairs the map holds, in insertion order.
pub uninterp spec fn entries(m: IndexMap<String, Ingredient>) -> Seq<(Seq<char>, Ingredient)>;

/// Relies on `IndexMap::new`: it creates an empty map.
#[verifier::external_body]
pub(crate) fn imap_new() -> (m: IndexMap<String, Ingredient>)
    ensures
        entries(m) == Seq::<(Seq<char>, Ingredient)>::empty(),
{
    IndexMap::new()
}

/// Relies on `IndexMap::len`: it returns the number of key-value pairs.
#[verifier::external_body]
pub(crate) fn imap_len(m: &IndexMap<String, Ingredient>) -> (n: usize)
    ensures
        n as nat == entries(*m).len(),
{
    m.len()
}

/// Relies on `IndexMap::contains_key`: it tells whether a key equivalent to
/// the argument exists; for `String` keys, equivalent means equal character
/// sequences.
#[verifier::external_body]
pub(crate) fn imap_contains_key(m: &IndexMap<String, Ingredient>, k: &String) -> (r: bool)
    ensures
        r == has_pair_key(entries(*m), k@),
{
    m.contains_key(k.as_str())
}

/// Relies on `IndexMap::get`: it returns a reference to the value stored
/// for the key if one is present, else `None`.
#[verifier::external_body]
pub(crate) fn imap_get<'a>(m: &'a IndexMap<String, Ingredient>, k: &String) -> (r: Option<
    &'a Ingredient,
>)
    ensures
        match r {
            Some(v) => exists|i: int|
                0 <= i < entries(*m).len() && entries(*m)[i].0 == k@ && entries(*m)[i].1 == *v,
            None => !has_pair_key(entries(*m), k@),
        },
{
    m.get(k.as_str())
}

/// Relies on `IndexMap::insert`: an existing equivalent key remains, keeps
/// its place in the order and has its value replaced; a new key is appended
/// last in order.
#[verifier::external_body]
pub(crate) fn imap_insert(m: &mut IndexMap<String, Ingredient>, k: String, v: Ingredient)
    ensures
        ({
            let s0 = entries(*old(m));
            let s1 = entries(*final(m));
            if has_pair_key(s0, k@) {
                exists|i: int|
                    0 <= i < s0.len() && s0[i].0 == k@ && s1 == s0.update(i, (k@, v))
            } else {
                s1 == s0.push((k@, v))
            }
        }),
{
    m.insert(k, v);
}

} // verus!
