//! Concurrent maps: what a `dashmap::DashMap` holds and how its methods change that.
//!
//! The methods of `DashMap` take a shared reference. Here each change takes the map exclusively,
//! so that what a map holds is fixed while it is only read.

use crate::bridge::{FileAction, OpenFile, Running, ServerRef};
use crate::handlers::HandlerState;
use crate::text;
use dashmap::DashMap;
use std::sync::Arc;
use vstd::prelude::*;

verus! {

/// A map that can be shared between threads.
#[verifier::external_type_specification]
#[verifier::external_body]
#[verifier::reject_recursive_types(K)]
#[verifier::reject_recursive_types(V)]
#[verifier::reject_recursive_types(S)]
pub struct ExDashMap<K, V, S>(dashmap::DashMap<K, V, S>);

/// The numbers that a map holds as its keys.
pub uninterp spec fn ids(m: DashMap<u64, ()>) -> Set<u64>;

/// The texts that a map holds as its keys.
pub uninterp spec fn names(m: DashMap<String, ()>) -> Set<Seq<char>>;

/// `DashMap::new` gives an empty map.
#[verifier::external_body]
pub(crate) fn no_ids() -> (r: DashMap<u64, ()>)
    ensures
        ids(r) == Set::<u64>::empty(),
{
    DashMap::new()
}

/// `DashMap::insert` adds the key, and tells whether it was there.
#[verifier::external_body]
pub(crate) fn insert_id(m: &mut DashMap<u64, ()>, id: u64) -> (r: bool)
    ensures
        ids(*final(m)) == ids(*old(m)).insert(id),
        r == ids(*old(m)).contains(id),
{
    m.insert(id, ()).is_some()
}

/// `DashMap::remove` takes the key out, and tells whether it was there.
#[verifier::external_body]
pub(crate) fn remove_id(m: &mut DashMap<u64, ()>, id: u64) -> (r: bool)
    ensures
        ids(*final(m)) == ids(*old(m)).remove(id),
        r == ids(*old(m)).contains(id),
{
    m.remove(&id).is_some()
}

/// `DashMap::new` gives an empty map.
#[verifier::external_body]
pub(crate) fn no_names() -> (r: DashMap<String, ()>)
    ensures
        names(r) == Set::<Seq<char>>::empty(),
{
    DashMap::new()
}

/// `DashMap::insert` adds the key, and tells whether it was there.
#[verifier::external_body]
pub(crate) fn insert_name(m: &mut DashMap<String, ()>, name: String) -> (r: bool)
    ensures
        names(*final(m)) == names(*old(m)).insert(name@),
        r == names(*old(m)).contains(name@),
{
    m.insert(name, ()).is_some()
}

/// `DashMap::contains_key` tells whether the key is there.
#[verifier::external_body]
pub(crate) fn contains_name(m: &DashMap<String, ()>, name: &str) -> (r: bool)
    ensures
        r == names(*m).contains(name@),
{
    m.contains_key(name)
}

/// Whether a list holds the members of a set, each once.
pub open spec fn lists(listed: Seq<Seq<char>>, set: Set<Seq<char>>) -> bool {
    listed.no_duplicates() && listed.to_set() == set
}

/// `DashMap::iter` walks the keys, each once, in an order that is left open.
#[verifier::external_body]
pub(crate) fn list_names(m: &DashMap<String, ()>) -> (r: Vec<String>)
    ensures
        lists(text::texts(r@), names(*m)),
{
    m.iter().map(|entry| entry.key().clone()).collect()
}

/// Whether nothing stands under any key.
pub open spec fn holds_nothing<K, V>(m: Map<K, V>) -> bool {
    m == Map::<K, V>::empty()
}

/// The open files that a map holds, by their paths.
pub uninterp spec fn files(m: DashMap<String, Arc<FileAction>>) -> Map<Seq<char>, OpenFile>;

/// The running servers that a map holds, by their keys.
pub uninterp spec fn servers(m: DashMap<String, Arc<ServerRef>>) -> Map<Seq<char>, Running>;

/// The states that a map holds, by the names of a server and a handler.
pub uninterp spec fn states(m: DashMap<(String, String), HandlerState>) -> Map<
    (Seq<char>, Seq<char>),
    HandlerState,
>;

/// `DashMap::new` gives an empty map.
#[verifier::external_body]
pub(crate) fn no_files() -> (r: DashMap<String, Arc<FileAction>>)
    ensures
        holds_nothing(files(r)),
{
    DashMap::new()
}

/// `DashMap::insert` puts the file under the path, in place of what stood there.
#[verifier::external_body]
pub(crate) fn insert_file(
    m: &mut DashMap<String, Arc<FileAction>>,
    path: String,
    file: Arc<FileAction>,
)
    ensures
        files(*final(m)) == files(*old(m)).insert(path@, file@),
{
    m.insert(path, file);
}

/// `DashMap::remove` takes out what stands under the path, and hands it over.
#[verifier::external_body]
pub(crate) fn remove_file(m: &mut DashMap<String, Arc<FileAction>>, path: &str) -> (r: Option<
    Arc<FileAction>,
>)
    ensures
        files(*final(m)) == files(*old(m)).remove(path@),
        match files(*old(m)).get(path@) {
            Some(file) => r is Some && (r->0)@ == file,
            None => r is None,
        },
{
    m.remove(path).map(|e| e.1)
}

/// `DashMap::get` lends what stands under the path, of which a shared copy is made.
#[verifier::external_body]
pub(crate) fn get_file(m: &DashMap<String, Arc<FileAction>>, path: &str) -> (r: Option<
    Arc<FileAction>,
>)
    ensures
        match files(*m).get(path@) {
            Some(file) => r is Some && (r->0)@ == file,
            None => r is None,
        },
{
    m.get(path).map(|e| Arc::clone(e.value()))
}

/// `DashMap::contains_key` tells whether a file stands under the path.
#[verifier::external_body]
pub(crate) fn contains_file(m: &DashMap<String, Arc<FileAction>>, path: &str) -> (r: bool)
    ensures
        r == files(*m).contains_key(path@),
{
    m.contains_key(path)
}

/// `DashMap::new` gives an empty map.
#[verifier::external_body]
pub(crate) fn no_servers() -> (r: DashMap<String, Arc<ServerRef>>)
    ensures
        holds_nothing(servers(r)),
{
    DashMap::new()
}

/// `DashMap::insert` puts the server under the key, in place of what stood there.
#[verifier::external_body]
pub(crate) fn insert_server(
    m: &mut DashMap<String, Arc<ServerRef>>,
    key: String,
    server: Arc<ServerRef>,
)
    ensures
        servers(*final(m)) == servers(*old(m)).insert(key@, server@),
{
    m.insert(key, server);
}

/// `DashMap::get` lends what stands under the key, of which a shared copy is made.
#[verifier::external_body]
pub(crate) fn get_server(m: &DashMap<String, Arc<ServerRef>>, key: &str) -> (r: Option<
    Arc<ServerRef>,
>)
    ensures
        match servers(*m).get(key@) {
            Some(server) => r is Some && (r->0)@ == server,
            None => r is None,
        },
{
    m.get(key).map(|e| Arc::clone(e.value()))
}

/// `DashMap::new` gives an empty map.
#[verifier::external_body]
pub(crate) fn no_states() -> (r: DashMap<(String, String), HandlerState>)
    ensures
        holds_nothing(states(r)),
{
    DashMap::new()
}

} // verus!
