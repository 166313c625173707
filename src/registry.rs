//! The server's session registry: who is connected, keyed by the address of
//! the client's tick socket. It is the single source of truth for
//! authenticating datagrams.
use vstd::prelude::*;
use dashmap::DashMap;

verus! {

/// A network address: an IPv6 address (IPv4 ones in their IPv6-mapped form)
/// as a 128-bit number, and a port.
pub type Endpoint = (u128, u16);

/// What the registry keeps of a client: the id it was given and the number
/// of its control-channel writer.
pub type SessionEntry = (u128, u64);

#[verifier::external_type_specification]
#[verifier::external_body]
#[verifier::reject_recursive_types(K)]
#[verifier::reject_recursive_types(V)]
#[verifier::reject_recursive_types(S)]
pub struct ExDashMap<K, V, S>(DashMap<K, V, S>);

/// A concurrent map from client address to session.
pub type SessionMap = DashMap<(u128, u16), (u128, u64)>;

/// The entries that a concurrent session map holds.
pub uninterp spec fn sessions_in(m: SessionMap) -> Map<
    (u128, u16),
    (u128, u64),
>;

/// Relies on dashmap::DashMap::new: a new map holds no entry.
#[verifier::external_body]
fn session_map_new() -> (r: SessionMap)
    ensures
        sessions_in(r).dom() == Set::<Endpoint>::empty(),
{
    DashMap::new()
}

/// Relies on dashmap::DashMap::insert: the key maps to the value afterwards,
/// and the value it had before, if any, is returned.
#[verifier::external_body]
fn session_map_insert(m: &mut SessionMap, k: Endpoint, v: SessionEntry) -> (r:
    Option<SessionEntry>)
    ensures
        sessions_in(*final(m)) == sessions_in(*old(m)).insert(k, v),
        r == (if sessions_in(*old(m)).contains_key(k) {
            Some(sessions_in(*old(m))[k])
        } else {
            None
        }),
{
    m.insert(k, v)
}

/// Relies on dashmap::DashMap::remove: the key is gone afterwards, and its
/// entry, if it had one, is returned.
#[verifier::external_body]
fn session_map_remove(m: &mut SessionMap, k: Endpoint) -> (r: Option<
    (Endpoint, SessionEntry),
>)
    ensures
        sessions_in(*final(m)) == sessions_in(*old(m)).remove(k),
        r == (if sessions_in(*old(m)).contains_key(k) {
            Some((k, sessions_in(*old(m))[k]))
        } else {
            None
        }),
{
    m.remove(&k)
}

/// Relies on dashmap::DashMap::get: the value the key maps to, if any.
#[verifier::external_body]
fn session_map_get(m: &SessionMap, k: Endpoint) -> (r: Option<SessionEntry>)
    ensures
        r == (if sessions_in(*m).contains_key(k) {
            Some(sessions_in(*m)[k])
        } else {
            None
        }),
{
    m.get(&k).map(|e| *e.value())
}

/// Relies on dashmap::DashMap::len: the number of entries.
#[verifier::external_body]
fn session_map_len(m: &SessionMap) -> (r: usize)
    ensures
        r == sessions_in(*m).dom().len(),
{
    m.len()
}

/// Relies on dashmap::DashMap::iter: it visits every entry once.
#[verifier::external_body]
fn session_map_keys(m: &SessionMap) -> (r: Vec<Endpoint>)
    ensures
        r@.no_duplicates(),
        r@.to_set() == sessions_in(*m).dom(),
{
    m.iter().map(|e| *e.key()).collect()
}

/// The connected clients, by the address of their tick socket.
pub struct SessionRegistry {
    sessions: SessionMap,
}

impl SessionRegistry {
    /// The registry's entries.
    pub closed spec fn view(&self) -> Map<Endpoint, SessionEntry> {
        sessions_in(self.sessions)
    }

    /// A registry with nobody in it.
    pub fn new() -> (r: SessionRegistry)
        ensures
            r@.dom() == Set::<Endpoint>::empty(),
    {
        SessionRegistry { sessions: session_map_new() }
    }

    /// Records the client that finished its handshake. An entry already
    /// under that address is stale: it is replaced and handed back.
    pub fn register(&mut self, endpoint: Endpoint, client_uuid: u128, handle: u64) -> (r: Option<
        SessionEntry,
    >)
        ensures
            final(self)@ == old(self)@.insert(endpoint, (client_uuid, handle)),
            r == (if old(self)@.contains_key(endpoint) {
                Some(old(self)@[endpoint])
            } else {
                None
            }),
    {
        session_map_insert(&mut self.sessions, endpoint, (client_uuid, handle))
    }

    /// The session registered under `endpoint`.
    pub fn lookup_by_endpoint(&self, endpoint: Endpoint) -> (r: Option<SessionEntry>)
        ensures
            r == (if self@.contains_key(endpoint) {
                Some(self@[endpoint])
            } else {
                None
            }),
    {
        session_map_get(&self.sessions, endpoint)
    }

    /// Whether `endpoint` belongs to a connected client.
    pub fn contains(&self, endpoint: Endpoint) -> (r: bool)
        ensures
            r == self@.contains_key(endpoint),
    {
        session_map_get(&self.sessions, endpoint).is_some()
    }

    /// Whether a datagram from `endpoint` that claims to come from the
    /// client `claimed_id` may be handed to the simulation.
    pub fn authenticate(&self, endpoint: Endpoint, claimed_id: u128) -> (r: bool)
        ensures
            r == (self@.contains_key(endpoint) && self@[endpoint].0 == claimed_id),
    {
        match session_map_get(&self.sessions, endpoint) {
            Some((id, _)) => id == claimed_id,
            None => false,
        }
    }

    /// Takes the session of `endpoint` out of the registry.
    pub fn remove(&mut self, endpoint: Endpoint) -> (r: Option<SessionEntry>)
        ensures
            final(self)@ == old(self)@.remove(endpoint),
            r == (if old(self)@.contains_key(endpoint) {
                Some(old(self)@[endpoint])
            } else {
                None
            }),
    {
        match session_map_remove(&mut self.sessions, endpoint) {
            Some((_, entry)) => Some(entry),
            None => None,
        }
    }

    /// The addresses of every connected client, each once.
    pub fn endpoints(&self) -> (r: Vec<Endpoint>)
        ensures
            r@.no_duplicates(),
            r@.to_set() == self@.dom(),
    {
        session_map_keys(&self.sessions)
    }

    /// Whether some session belongs to the client `client_uuid`.
    pub fn has_client(&self, client_uuid: u128) -> (r: bool)
        ensures
            r == exists|e: Endpoint| #[trigger] self@.contains_key(e) && self@[e].0 == client_uuid,
    {
        let keys = self.endpoints();
        let mut i: usize = 0;
        while i < keys.len()
            invariant
                0 <= i <= keys@.len(),
                keys@.to_set() == self@.dom(),
                forall|k: int| 0 <= k < i ==> #[trigger] self@[keys@[k]].0 != client_uuid,
            decreases keys@.len() - i,
        {
            assert(keys@.to_set().contains(keys@[i as int]));
            match self.lookup_by_endpoint(keys[i]) {
                Some((id, _)) => {
                    if id == client_uuid {
                        return true;
                    }
                },
                None => {},
            }
            i = i + 1;
        }
        proof {
            assert forall|e: Endpoint| #[trigger] self@.contains_key(e) implies self@[e].0 != client_uuid by {
                assert(keys@.to_set().contains(e));
                let k = choose|k: int| 0 <= k < keys@.len() && keys@[k] == e;
            }
        }
        false
    }

    /// The number of connected clients.
    pub fn len(&self) -> (r: usize)
        ensures
            r == self@.dom().len(),
    {
        session_map_len(&self.sessions)
    }
}

} // verus!
