//! Sessions: the state of one connection, and the registry that finds it by
//! the connection's identity.

use ahash::AHashMap;
use vstd::prelude::*;

verus! {

/// The state of one connection.
#[derive(Clone, Copy, Debug, PartialEq, Eq, Structural)]
pub struct Session {
    pub selected_database: usize,
    pub authenticated: bool,
}

impl Session {
    /// The session of a fresh connection: database `0`, not authenticated.
    pub fn new() -> (s: Session)
        ensures
            s == (Session { selected_database: 0, authenticated: false }),
    {
        Session { selected_database: 0, authenticated: false }
    }

    /// The index of the database that commands of this session work on.
    pub fn get_selected_database(&self) -> (index: usize)
        ensures
            index == self.selected_database,
    {
        self.selected_database
    }

    /// Selects the database that commands of this session work on.
    pub fn set_selected_database(&mut self, index: usize)
        ensures
            *final(self) == (Session { selected_database: index, ..*old(self) }),
    {
        self.selected_database = index;
    }

    /// Whether this session is authenticated.
    pub fn is_authenticated(&self) -> (flag: bool)
        ensures
            flag == self.authenticated,
    {
        self.authenticated
    }

    /// Marks this session as authenticated, or not.
    pub fn set_authenticated(&mut self, flag: bool)
        ensures
            *final(self) == (Session { authenticated: flag, ..*old(self) }),
    {
        self.authenticated = flag;
    }
}

/// The hash map of the `ahash` crate, taken as opaque: what verified code
/// knows of a map is what the functions below state.
#[verifier::external_type_specification]
#[verifier::external_body]
#[verifier::reject_recursive_types(K)]
#[verifier::reject_recursive_types(V)]
#[verifier::reject_recursive_types(S)]
pub struct ExAHashMap<K, V, S>(ahash::AHashMap<K, V, S>);

/// The hasher state of the `ahash` crate, taken as opaque. It only stands
/// in the map's type.
#[verifier::external_type_specification]
#[verifier::external_body]
pub struct ExRandomState(ahash::RandomState);

/// The sessions that a hash map holds, by connection identity.
pub uninterp spec fn sessions_of(m: AHashMap<String, Session>) -> Map<Seq<char>, Session>;

/// No sessions at all.
pub open spec fn no_sessions() -> Map<Seq<char>, Session> {
    Map::empty()
}

/// Calls `AHashMap::new`, which makes a map without entries.
#[verifier::external_body]
fn map_new() -> (made: AHashMap<String, Session>)
    ensures
        sessions_of(made) == no_sessions(),
{
    AHashMap::new()
}

/// Calls `AHashMap::get`, which hands out the value stored under a key equal
/// to `id`, if there is one. The session is copied out.
#[verifier::external_body]
fn map_get(m: &AHashMap<String, Session>, id: &str) -> (r: Option<Session>)
    ensures
        r == if sessions_of(*m).contains_key(id@) {
            Some(sessions_of(*m)[id@])
        } else {
            None::<Session>
        },
{
    m.get(id).copied()
}

/// Calls `AHashMap::insert`, which stores the value under the key, over a
/// value that was stored under an equal key, and leaves the other entries.
#[verifier::external_body]
fn map_insert(m: &mut AHashMap<String, Session>, id: String, session: Session)
    ensures
        sessions_of(*final(m)) == sessions_of(*old(m)).insert(id@, session),
{
    m.insert(id, session);
}

/// Calls `AHashMap::remove`, which drops the entry under a key equal to `id`,
/// if there is one, and leaves the other entries.
#[verifier::external_body]
fn map_remove(m: &mut AHashMap<String, Session>, id: &str)
    ensures
        sessions_of(*final(m)) == sessions_of(*old(m)).remove(id@),
{
    m.remove(id);
}

/// The sessions of all open connections, by connection identity.
pub struct SessionRegistry {
    sessions: AHashMap<String, Session>,
}

impl View for SessionRegistry {
    type V = Map<Seq<char>, Session>;

    closed spec fn view(&self) -> Map<Seq<char>, Session> {
        sessions_of(self.sessions)
    }
}

impl SessionRegistry {
    /// A registry without sessions.
    pub fn new() -> (registry: SessionRegistry)
        ensures
            registry@ == Map::<Seq<char>, Session>::empty(),
    {
        SessionRegistry { sessions: map_new() }
    }

    /// Registers a fresh session for the connection `id`, over a session
    /// that was registered for it.
    pub fn connect(&mut self, id: &str)
        ensures
            final(self)@ == old(self)@.insert(
                id@,
                Session { selected_database: 0, authenticated: false },
            ),
    {
        map_insert(&mut self.sessions, id.to_owned(), Session::new());
    }

    /// Registers `session` for the connection `id`, over a session that was
    /// registered for it.
    pub fn insert(&mut self, id: &str, session: Session)
        ensures
            final(self)@ == old(self)@.insert(id@, session),
    {
        map_insert(&mut self.sessions, id.to_owned(), session);
    }

    /// The session of the connection `id`, if one is registered.
    pub fn get(&self, id: &str) -> (r: Option<Session>)
        ensures
            r == if self@.contains_key(id@) {
                Some(self@[id@])
            } else {
                None::<Session>
            },
    {
        map_get(&self.sessions, id)
    }

    /// The database that the connection `id` has selected, if a session is
    /// registered for it.
    pub fn selected_database(&self, id: &str) -> (r: Option<usize>)
        ensures
            r == if self@.contains_key(id@) {
                Some(self@[id@].selected_database)
            } else {
                None::<usize>
            },
    {
        match map_get(&self.sessions, id) {
            Some(session) => Some(session.selected_database),
            None => None,
        }
    }

    /// Selects database `index` for the connection `id`. Says whether a
    /// session is registered for it; changes nothing where none is.
    pub fn select_database(&mut self, id: &str, index: usize) -> (found: bool)
        ensures
            found == old(self)@.contains_key(id@),
            final(self)@ == if found {
                old(self)@.insert(id@, Session { selected_database: index, ..old(self)@[id@] })
            } else {
                old(self)@
            },
    {
        match map_get(&self.sessions, id) {
            Some(session) => {
                let mut session = session;
                session.set_selected_database(index);
                map_insert(&mut self.sessions, id.to_owned(), session);
                true
            },
            None => false,
        }
    }

    /// Marks the connection `id` as authenticated, or not. Says whether a
    /// session is registered for it; changes nothing where none is.
    pub fn set_authenticated(&mut self, id: &str, flag: bool) -> (found: bool)
        ensures
            found == old(self)@.contains_key(id@),
            final(self)@ == if found {
                old(self)@.insert(id@, Session { authenticated: flag, ..old(self)@[id@] })
            } else {
                old(self)@
            },
    {
        match map_get(&self.sessions, id) {
            Some(session) => {
                let mut session = session;
                session.set_authenticated(flag);
                map_insert(&mut self.sessions, id.to_owned(), session);
                true
            },
            None => false,
        }
    }

    /// Drops the session of the connection `id`, if one is registered.
    pub fn disconnect(&mut self, id: &str)
        ensures
            final(self)@ == old(self)@.remove(id@),
    {
        map_remove(&mut self.sessions, id);
    }
}

} // verus!
