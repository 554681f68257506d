//! Table of connected clients by server name. A client is named by a number.

use dashmap::DashMap;
use vstd::prelude::*;

use crate::text::views;

verus! {

#[verifier::external_type_specification]
#[verifier::external_body]
#[verifier::reject_recursive_types(K)]
#[verifier::reject_recursive_types(V)]
#[verifier::reject_recursive_types(S)]
pub struct ExDashMap<K, V, S>(DashMap<K, V, S>);

/// What a table holds.
pub uninterp spec fn table_map(table: DashMap<String, u64>) -> Map<Seq<char>, u64>;

/// The contents of an empty table.
pub open spec fn no_clients() -> Map<Seq<char>, u64> {
    Map::empty()
}

/// Makes a table by `DashMap::new`: it is empty.
#[verifier::external_body]
fn table_new() -> (table: DashMap<String, u64>)
    ensures
        table_map(table) == no_clients(),
{
    DashMap::new()
}

/// Puts a client in by `DashMap::insert`, in place of the one of that name.
#[verifier::external_body]
fn table_insert(table: &mut DashMap<String, u64>, name: String, client: u64)
    ensures
        table_map(*final(table)) == table_map(*old(table)).insert(name@, client),
{
    table.insert(name, client);
}

/// Looks a client up by `DashMap::get`.
#[verifier::external_body]
fn table_get(table: &DashMap<String, u64>, name: &str) -> (client: Option<u64>)
    ensures
        client == (if table_map(*table).contains_key(name@) {
            Some(table_map(*table)[name@])
        } else {
            None
        }),
{
    table.get(name).map(|entry| *entry)
}

/// Takes a client out by `DashMap::remove`.
#[verifier::external_body]
fn table_remove(table: &mut DashMap<String, u64>, name: &str)
    ensures
        table_map(*final(table)) == table_map(*old(table)).remove(name@),
{
    table.remove(name);
}

/// Takes all clients out by `DashMap::clear`.
#[verifier::external_body]
fn table_clear(table: &mut DashMap<String, u64>)
    ensures
        table_map(*final(table)) == no_clients(),
{
    table.clear();
}

/// Lists the names by `DashMap::iter`: each one once, in no particular order.
#[verifier::external_body]
fn table_names(table: &DashMap<String, u64>) -> (names: Vec<String>)
    ensures
        views(names@).no_duplicates(),
        forall|name: Seq<char>| #[trigger]
            views(names@).contains(name) <==> table_map(*table).contains_key(name),
{
    table.iter().map(|entry| entry.key().clone()).collect()
}

/// The connected clients by server name.
pub struct ClientTable {
    table: DashMap<String, u64>,
}

impl View for ClientTable {
    type V = Map<Seq<char>, u64>;

    closed spec fn view(&self) -> Map<Seq<char>, u64> {
        table_map(self.table)
    }
}

impl ClientTable {
    /// A table without clients.
    pub fn new() -> (r: ClientTable)
        ensures
            r@ == no_clients(),
    {
        ClientTable { table: table_new() }
    }

    /// Puts a client in, in place of the one of that name.
    pub fn insert(&mut self, name: &str, client: u64)
        ensures
            final(self)@ == old(self)@.insert(name@, client),
    {
        table_insert(&mut self.table, name.to_owned(), client);
    }

    /// The client of a server.
    pub fn get(&self, name: &str) -> (client: Option<u64>)
        ensures
            client == (if self@.contains_key(name@) {
                Some(self@[name@])
            } else {
                None
            }),
    {
        table_get(&self.table, name)
    }

    /// Whether a server has a client.
    pub fn contains(&self, name: &str) -> (r: bool)
        ensures
            r == self@.contains_key(name@),
    {
        self.get(name).is_some()
    }

    /// Takes a client out.
    pub fn remove(&mut self, name: &str)
        ensures
            final(self)@ == old(self)@.remove(name@),
    {
        table_remove(&mut self.table, name);
    }

    /// Takes all clients out.
    pub fn clear(&mut self)
        ensures
            final(self)@ == no_clients(),
    {
        table_clear(&mut self.table);
    }

    /// The names of the servers: each one once, in no particular order.
    pub fn names(&self) -> (names: Vec<String>)
        ensures
            views(names@).no_duplicates(),
            forall|name: Seq<char>| #[trigger]
                views(names@).contains(name) <==> self@.contains_key(name),
    {
        table_names(&self.table)
    }

    /// A table of its own with the same clients.
    pub fn copy(&self) -> (copy: ClientTable)
        ensures
            copy@ == self@,
    {
        let names = self.names();
        let mut copy = ClientTable::new();
        for i in 0..names.len()
            invariant
                forall|name: Seq<char>| #[trigger]
                    views(names@).contains(name) <==> self@.contains_key(name),
                forall|name: Seq<char>| #[trigger]
                    copy@.contains_key(name) <==> views(names@).take(i as int).contains(name),
                forall|name: Seq<char>| #[trigger]
                    copy@.contains_key(name) ==> self@.contains_key(name) && copy@[name]
                        == self@[name],
        {
            let ghost before = copy@;
            assert(views(names@)[i as int] == names@[i as int]@);
            assert(views(names@).contains(names@[i as int]@));
            match self.get(names[i].as_str()) {
                Some(client) => {
                    copy.insert(names[i].as_str(), client);
                },
                None => {},
            }
            proof {
                let next = views(names@).take(i + 1);
                assert(next =~= views(names@).take(i as int).push(names@[i as int]@));
                assert forall|name: Seq<char>| #[trigger]
                    copy@.contains_key(name) <==> next.contains(name) by {
                    assert(before.contains_key(name) <==> views(names@).take(i as int).contains(
                        name,
                    ));
                    if next.contains(name) {
                        let j = choose|j: int| 0 <= j < next.len() && next[j] == name;
                        if j < i {
                            assert(views(names@).take(i as int)[j] == name);
                        }
                    }
                    if views(names@).take(i as int).contains(name) {
                        let j = choose|j: int|
                            0 <= j < i && views(names@).take(i as int)[j] == name;
                        assert(next[j] == name);
                    }
                    assert(next[i as int] == names@[i as int]@);
                }
            }
        }
        proof {
            assert(views(names@).take(names@.len() as int) =~= views(names@));
            assert forall|name: Seq<char>| self@.contains_key(name) implies copy@.contains_key(
                name,
            ) by {
                assert(views(names@).contains(name));
            }
            assert(copy@ =~= self@);
        }
        copy
    }
}

} // verus!
