//! The two persistent maps, taken on trust from `near_sdk`.
//!
//! Nothing in this module is proved. Each function makes one call into
//! `near_sdk::collections::UnorderedMap` and states what that call does to
//! the map's content, as the source of the map shows it.
//!
//! A map keeps its entries in two stored vectors, one of keys and one of
//! values, and the position of each key under the key's serialised form. Its
//! content is therefore a sequence of entries with distinct keys: a new key
//! is appended, and a key that leaves is replaced by the last one.
//!
//! The map does not hash its keys: the storage key of an entry is the map's
//! prefix, one byte, and the serialised name, and the host aborts a call
//! with a storage key above 2048 bytes. So a map is made with a prefix of at
//! most [`MAX_PREFIX_LEN`] bytes, and every function that takes a key
//! requires it to be [`storable`]: at most 64 characters, which are at most
//! 256 bytes after a length of four.
//!
//! Beyond that the statements hold where the map's own assumptions hold:
//! storage under its prefix holds what the map wrote there and nothing else,
//! and the call has the gas to finish.

use near_sdk::collections::UnorderedMap;
use near_sdk::PromiseError;
use vstd::prelude::*;
use crate::entries::{put, take, value_of};
use crate::types::{storable, MAX_PREFIX_LEN};

verus! {

/// `near_sdk::collections::UnorderedMap`, a map kept in contract storage.
#[verifier::external_type_specification]
#[verifier::external_body]
#[verifier::reject_recursive_types(K)]
#[verifier::reject_recursive_types(V)]
pub struct ExUnorderedMap<K, V>(UnorderedMap<K, V>);

/// `near_sdk::PromiseError`, the reason why a promise did not deliver.
#[verifier::external_type_specification]
#[verifier::external_body]
pub struct ExPromiseError(PromiseError);

/// The entries of a balance map, in the order in which the map lists them
/// (`UnorderedMap::iter`).
pub uninterp spec fn balance_entries(map: UnorderedMap<String, (u128, u64)>) -> Seq<
    (Seq<char>, (u128, u64)),
>;

/// The operation states that a state map holds, each as its stored byte.
pub uninterp spec fn state_tags(map: UnorderedMap<String, u8>) -> Map<Seq<char>, u8>;

/// `UnorderedMap::new`: a map under `prefix` that lists no entry.
#[verifier::external_body]
pub(crate) fn balances_new(prefix: Vec<u8>) -> (map: UnorderedMap<String, (u128, u64)>)
    requires
        prefix@.len() <= MAX_PREFIX_LEN,
    ensures
        balance_entries(map) == Seq::<(Seq<char>, (u128, u64))>::empty(),
{
    UnorderedMap::new(prefix)
}

/// `UnorderedMap::len`: the number of entries.
#[verifier::external_body]
pub(crate) fn balances_len(map: &UnorderedMap<String, (u128, u64)>) -> (len: u64)
    ensures
        len == balance_entries(*map).len(),
{
    map.len()
}

/// `UnorderedMap::get`: the value stored under `key`, if any.
#[verifier::external_body]
pub(crate) fn balances_get(map: &UnorderedMap<String, (u128, u64)>, key: &String) -> (value:
    Option<(u128, u64)>)
    requires
        storable(key@),
    ensures
        value == value_of(balance_entries(*map), key@),
{
    map.get(key)
}

/// `UnorderedMap::insert`: an entry under `key` takes the new value where it
/// stands; a new key is appended.
#[verifier::external_body]
pub(crate) fn balances_insert(
    map: &mut UnorderedMap<String, (u128, u64)>,
    key: &String,
    value: &(u128, u64),
)
    requires
        storable(key@),
    ensures
        balance_entries(*final(map)) == put(balance_entries(*old(map)), key@, *value),
{
    map.insert(key, value);
}

/// `UnorderedMap::remove`: the entry under `key` leaves and the last entry
/// moves into its place; without such an entry nothing changes.
#[verifier::external_body]
pub(crate) fn balances_remove(map: &mut UnorderedMap<String, (u128, u64)>, key: &String)
    requires
        storable(key@),
    ensures
        balance_entries(*final(map)) == take(balance_entries(*old(map)), key@),
{
    map.remove(key);
}

/// `Vector::get` on `UnorderedMap::keys_as_vector`: the key of the entry at
/// `index`, `None` from the map's length on.
#[verifier::external_body]
pub(crate) fn balances_key_at(map: &UnorderedMap<String, (u128, u64)>, index: u64) -> (key:
    Option<String>)
    ensures
        index < balance_entries(*map).len() ==> key.is_some() && key.unwrap()@
            == balance_entries(*map)[index as int].0,
        index >= balance_entries(*map).len() ==> key.is_none(),
{
    map.keys_as_vector().get(index)
}

/// `Vector::get` on `UnorderedMap::values_as_vector`: the value of the entry
/// at `index`, `None` from the map's length on.
#[verifier::external_body]
pub(crate) fn balances_value_at(map: &UnorderedMap<String, (u128, u64)>, index: u64) -> (value:
    Option<(u128, u64)>)
    ensures
        index < balance_entries(*map).len() ==> value == Some(
            balance_entries(*map)[index as int].1,
        ),
        index >= balance_entries(*map).len() ==> value.is_none(),
{
    map.values_as_vector().get(index)
}

/// `UnorderedMap::new`: a map under `prefix` that holds no state.
#[verifier::external_body]
pub(crate) fn states_new(prefix: Vec<u8>) -> (map: UnorderedMap<String, u8>)
    requires
        prefix@.len() <= MAX_PREFIX_LEN,
    ensures
        state_tags(map) == (Map::<Seq<char>, u8>::empty()),
{
    UnorderedMap::new(prefix)
}

/// `UnorderedMap::get`: the byte stored for `key`, if any.
#[verifier::external_body]
pub(crate) fn states_get(map: &UnorderedMap<String, u8>, key: &String) -> (tag: Option<u8>)
    requires
        storable(key@),
    ensures
        tag == (if state_tags(*map).contains_key(key@) {
            Some(state_tags(*map)[key@])
        } else {
            None
        }),
{
    map.get(key)
}

/// `UnorderedMap::insert`: `key` now holds `tag`, every other key what it held.
#[verifier::external_body]
pub(crate) fn states_insert(map: &mut UnorderedMap<String, u8>, key: &String, tag: u8)
    requires
        storable(key@),
    ensures
        state_tags(*final(map)) == state_tags(*old(map)).insert(key@, tag),
{
    map.insert(key, &tag);
}

} // verus!
