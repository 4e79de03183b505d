//! Tables keyed by name: `dashmap::DashMap` with `String` keys.
//!
//! A `DashMap` changes through shared references. Every function here that
//! changes a table takes it by exclusive reference, so that what the table
//! holds before and after the call can be said.

use crate::connection::Connection;
use crate::names::{has_size, texts, NameSet};
use dashmap::DashMap;
use vstd::prelude::*;

verus! {

/// `dashmap::DashMap`, a hash map split into locked shards.
#[verifier::external_type_specification]
#[verifier::external_body]
#[verifier::reject_recursive_types(K)]
#[verifier::reject_recursive_types(V)]
#[verifier::reject_recursive_types(S)]
pub struct ExDashMap<K, V, S>(DashMap<K, V, S>);

/// What a table of bare names holds.
pub uninterp spec fn name_entries(table: DashMap<String, ()>) -> Map<Seq<char>, ()>;

/// What a table of positions holds.
pub uninterp spec fn position_entries(table: DashMap<String, usize>) -> Map<Seq<char>, usize>;

/// What a table of name sets holds.
pub uninterp spec fn name_set_entries(table: DashMap<String, NameSet>) -> Map<Seq<char>, NameSet>;

/// What a table of connections holds.
pub uninterp spec fn connection_entries(
    table: DashMap<String, Connection>,
) -> Map<Seq<char>, Connection>;

/// Values that are kept in tables. `entries` picks the name for what a table
/// of them holds: the functions below speak of every such table alike.
pub(crate) trait Tabled: Sized {
    /// What a table of these values holds.
    spec fn entries(table: DashMap<String, Self>) -> Map<Seq<char>, Self>;
}

impl Tabled for () {
    open spec fn entries(table: DashMap<String, ()>) -> Map<Seq<char>, ()> {
        name_entries(table)
    }
}

impl Tabled for usize {
    open spec fn entries(table: DashMap<String, usize>) -> Map<Seq<char>, usize> {
        position_entries(table)
    }
}

impl Tabled for NameSet {
    open spec fn entries(table: DashMap<String, NameSet>) -> Map<Seq<char>, NameSet> {
        name_set_entries(table)
    }
}

impl Tabled for Connection {
    open spec fn entries(table: DashMap<String, Connection>) -> Map<Seq<char>, Connection> {
        connection_entries(table)
    }
}

/// `DashMap::new`, for bare names: an empty table.
#[verifier::external_body]
pub(crate) fn new_name_table() -> (table: DashMap<String, ()>)
    ensures
        (name_entries(table) == Map::<Seq<char>, ()>::empty()),
{
    DashMap::new()
}

/// `DashMap::new`, for positions: an empty table.
#[verifier::external_body]
pub(crate) fn new_position_table() -> (table: DashMap<String, usize>)
    ensures
        (position_entries(table) == Map::<Seq<char>, usize>::empty()),
{
    DashMap::new()
}

/// `DashMap::new`, for name sets: an empty table.
#[verifier::external_body]
pub(crate) fn new_name_set_table() -> (table: DashMap<String, NameSet>)
    ensures
        (name_set_entries(table) == Map::<Seq<char>, NameSet>::empty()),
{
    DashMap::new()
}

/// `DashMap::new`, for connections: an empty table.
#[verifier::external_body]
pub(crate) fn new_connection_table() -> (table: DashMap<String, Connection>)
    ensures
        (connection_entries(table) == Map::<Seq<char>, Connection>::empty()),
{
    DashMap::new()
}

/// `DashMap::insert`: the key now stands for the value, and for no other. The
/// value that it stood for before is given back.
#[verifier::external_body]
pub(crate) fn insert<V: Tabled>(
    table: &mut DashMap<String, V>,
    key: String,
    value: V,
) -> (replaced: Option<V>)
    ensures
        V::entries(*final(table)) == V::entries(*old(table)).insert(key@, value),
        replaced == V::entries(*old(table)).get(key@),
{
    table.insert(key, value)
}

/// `DashMap::entry`, then `or_insert`: a copy of the value that the key stands
/// for, which is the given one if it stood for nothing.
#[verifier::external_body]
pub(crate) fn get_or_insert<V: Tabled + Copy>(
    table: &mut DashMap<String, V>,
    key: String,
    value: V,
) -> (found: V)
    ensures
        V::entries(*final(table)) == V::entries(*old(table)).insert(key@, found),
        found == match V::entries(*old(table)).get(key@) {
            Some(present) => present,
            None => value,
        },
{
    *table.entry(key).or_insert(value)
}

/// `DashMap::remove`: the key stands for nothing any more. The value that it
/// stood for is given back.
#[verifier::external_body]
pub(crate) fn remove<V: Tabled>(table: &mut DashMap<String, V>, key: &str) -> (removed: Option<V>)
    ensures
        V::entries(*final(table)) == V::entries(*old(table)).remove(key@),
        removed == V::entries(*old(table)).get(key@),
{
    table.remove(key).map(|entry| entry.1)
}

/// `DashMap::get`: a clone of the value that the key stands for.
#[verifier::external_body]
pub(crate) fn get<V: Tabled + Clone>(table: &DashMap<String, V>, key: &str) -> (value: Option<V>)
    ensures
        match value {
            Some(value) => {
                &&& V::entries(*table).contains_key(key@)
                &&& cloned(V::entries(*table)[key@], value)
            },
            None => !V::entries(*table).contains_key(key@),
        },
{
    table.get(key).map(|entry| entry.value().clone())
}

/// `DashMap::contains_key`: whether the key stands for anything.
#[verifier::external_body]
pub(crate) fn contains<V: Tabled>(table: &DashMap<String, V>, key: &str) -> (yes: bool)
    ensures
        yes == V::entries(*table).contains_key(key@),
{
    table.contains_key(key)
}

/// `DashMap::len`: how many keys there are.
#[verifier::external_body]
pub(crate) fn len<V: Tabled>(table: &DashMap<String, V>) -> (count: usize)
    ensures
        has_size(V::entries(*table).dom(), count as nat),
{
    table.len()
}

/// `DashMap::is_empty`: whether there are no keys.
#[verifier::external_body]
pub(crate) fn is_empty<V: Tabled>(table: &DashMap<String, V>) -> (yes: bool)
    ensures
        (yes == (V::entries(*table) == Map::<Seq<char>, V>::empty())),
{
    table.is_empty()
}

/// `DashMap::iter`, of which the keys are kept: each key once, in no
/// particular order.
#[verifier::external_body]
pub(crate) fn keys<V: Tabled>(table: &DashMap<String, V>) -> (keys: Vec<String>)
    ensures
        texts(keys@).no_duplicates(),
        texts(keys@).to_set() == V::entries(*table).dom(),
{
    table.iter().map(|entry| entry.key().clone()).collect()
}

} // verus!
