//! Hash tables that hash with `rustc_hash`'s `FxHasher`.
//!
//! `rustc_hash::FxHashMap` is std's `HashMap` with that hasher. vstd states
//! what the map's methods do only for keys and hashers that it knows to
//! behave, and it knows neither `FxHasher` nor tuples. The functions of this
//! file call those methods and state the same of them for the keys of
//! [`PlainKey`]; Verus takes these contracts on trust. They rest on two
//! things: a new `FxHasher` always starts from the same state and takes in
//! nothing but what is written to it, so that equal keys hash alike; and the
//! keys are compared and hashed by their value.
//!
//! A table's contents are its view, the `Map` that vstd gives every
//! `HashMap`. An empty table comes from `FxHashMap::default()`, and whether a
//! table is empty from `HashMap::is_empty`: of both vstd states what is
//! needed for any hasher.

use vstd::prelude::*;
use rustc_hash::FxHashMap;
use rustc_hash::FxHasher;
use std::hash::Hash;

verus! {

/// `rustc_hash::FxHasher`, the hasher of every table here. Nothing is stated
/// of it: the type is only named, in the type of the tables.
#[verifier::external_type_specification]
#[verifier::external_body]
pub struct ExFxHasher(FxHasher);

/// `std::hash::BuildHasherDefault`, through which `FxHashMap` names its
/// hasher. Nothing is stated of it.
#[verifier::external_type_specification]
#[verifier::external_body]
#[verifier::reject_recursive_types(H)]
pub struct ExBuildHasherDefault<H>(std::hash::BuildHasherDefault<H>);

/// The key types of the tables: an integer, and a tuple of integers and an
/// optional integer; no other type has this mark. For these std's `==` is
/// equality of the values and std's `Hash` depends on the value alone, which
/// is what the contracts below rest on.
pub(crate) trait PlainKey {
}

impl PlainKey for u32 {
}

impl PlainKey for (u32, u64, Option<u64>) {
}

/// `HashMap::insert` on a table: afterwards the table maps `k` to `v` and is
/// otherwise as before; the result is what `k` was mapped to before, if
/// anything.
#[verifier::external_body]
pub(crate) fn table_insert<K: PlainKey + Copy + Eq + Hash, V>(
    m: &mut FxHashMap<K, V>,
    k: K,
    v: V,
) -> (prev: Option<V>)
    ensures
        final(m)@ == old(m)@.insert(k, v),
        prev == (if old(m)@.contains_key(k) {
            Some(old(m)@[k])
        } else {
            None::<V>
        }),
{
    m.insert(k, v)
}

/// `HashMap::remove` on a table: afterwards the table has no entry for `k`
/// and is otherwise as before; the result is what `k` was mapped to before,
/// if anything.
#[verifier::external_body]
pub(crate) fn table_remove<K: PlainKey + Copy + Eq + Hash, V>(
    m: &mut FxHashMap<K, V>,
    k: &K,
) -> (prev: Option<V>)
    ensures
        final(m)@ == old(m)@.remove(*k),
        prev == (if old(m)@.contains_key(*k) {
            Some(old(m)@[*k])
        } else {
            None::<V>
        }),
{
    m.remove(k)
}

/// `HashMap::get` on a table: the value that `k` is mapped to, if any.
#[verifier::external_body]
pub(crate) fn table_get<'a, K: PlainKey + Copy + Eq + Hash, V>(
    m: &'a FxHashMap<K, V>,
    k: &K,
) -> (found: Option<&'a V>)
    ensures
        found == (if m@.contains_key(*k) {
            Some(&m@[*k])
        } else {
            None::<&V>
        }),
{
    m.get(k)
}

/// `HashMap::get_mut` on a table: the value that `k` is mapped to, if any,
/// to be changed in place. The table ends as it began but for what the caller
/// leaves in that value.
#[verifier::external_body]
pub(crate) fn table_get_mut<'a, K: PlainKey + Copy + Eq + Hash, V>(
    m: &'a mut FxHashMap<K, V>,
    k: &K,
) -> (found: Option<&'a mut V>)
    ensures
        match found {
            Some(v) => old(m)@.contains_key(*k) && *v == old(m)@[*k] && final(m)@ == old(m)@.insert(
                *k,
                *final(v),
            ),
            None => !old(m)@.contains_key(*k) && final(m)@ == old(m)@,
        },
{
    m.get_mut(k)
}

/// `HashMap::keys` on a table, copied out: every key of the table once, in
/// an order that nothing is stated of.
#[verifier::external_body]
pub(crate) fn table_keys<K: PlainKey + Copy + Eq + Hash, V>(
    m: &FxHashMap<K, V>,
) -> (keys: Vec<K>)
    ensures
        keys@.no_duplicates(),
        keys@.to_set() == m@.dom(),
{
    m.keys().copied().collect()
}

} // verus!
