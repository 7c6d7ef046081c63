//! The connection registry: live sessions keyed by their identifier, each
//! carrying the rate-limit bookkeeping of `rate`.

use vstd::prelude::*;
use std::collections::hash_map::RandomState;
use dashmap::DashMap;
use crate::rate::{check_rate_limit, spec_rate_limited, spec_rate_next, Client};

verus! {

/// The session records a concurrent map currently holds, keyed by session
/// identifier. What the trusted operations below say of it is all that is
/// known.
pub uninterp spec fn registry_records(m: DashMap<String, Client, RandomState>) -> Map<
    Seq<char>,
    Client,
>;

/// Relies on DashMap::new: a freshly created map holds no entries.
#[verifier::external_body]
fn reg_new() -> (m: DashMap<String, Client, RandomState>)
    ensures
        registry_records(m).dom() == Set::<Seq<char>>::empty(),
{
    DashMap::new()
}

/// Relies on DashMap::insert: puts the record under the key, replacing
/// any previous one.
#[verifier::external_body]
fn reg_insert(m: &mut DashMap<String, Client, RandomState>, id: &String, c: Client)
    ensures
        registry_records(*final(m)) == registry_records(*old(m)).insert(id@, c),
{
    m.insert(id.clone(), c);
}

/// Relies on DashMap::get: returns the record under the key if there is
/// one; the record is plain data and is handed out by value.
#[verifier::external_body]
fn reg_get(m: &DashMap<String, Client, RandomState>, id: &String) -> (r: Option<Client>)
    ensures
        match r {
            Some(c) => registry_records(*m).dom().contains(id@) && c == registry_records(*m)[id@],
            None => !registry_records(*m).dom().contains(id@),
        },
{
    match m.get(id) {
        Some(entry) => Some(*entry.value()),
        None => None,
    }
}

/// Relies on DashMap::remove: takes the entry out and returns it if it
/// existed, so `Some` means the key was present.
#[verifier::external_body]
fn reg_remove(m: &mut DashMap<String, Client, RandomState>, id: &String) -> (r: bool)
    ensures
        registry_records(*final(m)) == registry_records(*old(m)).remove(id@),
        r == registry_records(*old(m)).dom().contains(id@),
{
    m.remove(id).is_some()
}

/// Relies on DashMap::contains_key: whether the map holds the key.
#[verifier::external_body]
fn reg_contains(m: &DashMap<String, Client, RandomState>, id: &String) -> (r: bool)
    ensures
        r == registry_records(*m).dom().contains(id@),
{
    m.contains_key(id)
}

/// Relies on DashMap::len: the number of entries in the map.
#[verifier::external_body]
fn reg_len(m: &DashMap<String, Client, RandomState>) -> (n: usize)
    ensures
        n == registry_records(*m).dom().len(),
{
    m.len()
}

/// Tracks the live sessions. An entry exists exactly from a session's
/// successful handshake to its teardown, whatever path ends it.
pub struct Registry {
    clients: DashMap<String, Client, RandomState>,
}

impl Registry {
    /// The live session records, keyed by session identifier.
    pub closed spec fn sessions(&self) -> Map<Seq<char>, Client> {
        registry_records(self.clients)
    }

    /// An empty registry: no session is live.
    pub fn new() -> (r: Registry)
        ensures
            r.sessions() == Map::<Seq<char>, Client>::empty(),
    {
        let r = Registry { clients: reg_new() };
        proof {
            assert(r.sessions() =~= Map::<Seq<char>, Client>::empty());
        }
        r
    }

    /// Creates the session's record with a fresh window starting at `now`
    /// and a zero counter.
    pub fn register(&mut self, id: &String, now: i64)
        ensures
            final(self).sessions() == old(self).sessions().insert(
                id@,
                Client { request_count: 0, window_start: Some(now) },
            ),
    {
        reg_insert(&mut self.clients, id, Client { request_count: 0, window_start: Some(now) });
    }

    /// Removes the session's record unconditionally; true exactly when a
    /// record existed. Run once on every exit path of a session.
    pub fn unregister(&mut self, id: &String) -> (r: bool)
        ensures
            final(self).sessions() == old(self).sessions().remove(id@),
            r == old(self).sessions().dom().contains(id@),
    {
        reg_remove(&mut self.clients, id)
    }

    /// Whether the session is live.
    pub fn contains(&self, id: &String) -> (r: bool)
        ensures
            r == self.sessions().dom().contains(id@),
    {
        reg_contains(&self.clients, id)
    }

    /// How many sessions are live.
    pub fn len(&self) -> (n: usize)
        ensures
            n == self.sessions().dom().len(),
    {
        reg_len(&self.clients)
    }

    /// Records one inbound message from the session at instant `now` and
    /// returns the quota verdict, or `None` for a session that is not
    /// registered, which leaves everything unchanged.
    pub fn check_and_record(&mut self, id: &String, now: i64) -> (r: Option<bool>)
        ensures
            !old(self).sessions().dom().contains(id@) ==> r is None && final(self).sessions()
                == old(self).sessions(),
            old(self).sessions().dom().contains(id@) ==> {
                let c = old(self).sessions()[id@];
                &&& r == Some(spec_rate_limited(c, now as int))
                &&& final(self).sessions() == old(self).sessions().insert(
                    id@,
                    spec_rate_next(c, now),
                )
            },
    {
        match reg_get(&self.clients, id) {
            Some(c) => {
                let mut record = c;
                let limited = check_rate_limit(&mut record, now);
                reg_insert(&mut self.clients, id, record);
                Some(limited)
            },
            None => None,
        }
    }
}

} // verus!
