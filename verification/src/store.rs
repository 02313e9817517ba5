//! The keyspace store: a fixed number of databases, each a mapping from key
//! to entry, with expiration enforced when a key is next touched.

use crate::text::texts;
use crate::value::{
    distinct_members, duplicate_texts, in_rank_order, scores_of, Entry, EntryView, ScoredMember,
    SortedSet, Value, ValueView,
};
use vstd::hash_map::StringHashMap;
use vstd::prelude::*;
use vstd::string::*;

verus! {

/// Why a store operation did not take place.
#[derive(Clone, Copy, Debug, PartialEq, Eq, Structural)]
pub enum StoreError {
    /// The key holds a value of another kind than the operation works on.
    WrongType,
    /// The operation needs a key that is there, and the key is not.
    NotFound,
}

/// The message that reports a store error to a client.
pub open spec fn error_text(e: StoreError) -> Seq<char> {
    match e {
        StoreError::WrongType => "WRONGTYPE Operation against a key holding the wrong kind of value"@,
        StoreError::NotFound => "ERR no such key"@,
    }
}

impl StoreError {
    /// The message that reports this error to a client.
    pub fn message(&self) -> (text: String)
        ensures
            text@ == error_text(*self),
    {
        match self {
            StoreError::WrongType => "WRONGTYPE Operation against a key holding the wrong kind of value".to_owned(),
            StoreError::NotFound => "ERR no such key".to_owned(),
        }
    }
}

/// The mathematical content of one database.
pub type Keyspace = Map<Seq<char>, EntryView>;

/// The entry is due at `now`: it has an expiration, at or before `now`.
pub open spec fn is_expired(e: EntryView, now: i64) -> bool {
    e.expires_at matches Some(t) && t <= now
}

/// The database after the expiration check on `key` at `now`: the key is
/// gone if its entry was due, and nothing else changes.
pub open spec fn expire_key(ks: Keyspace, key: Seq<char>, now: i64) -> Keyspace {
    if ks.contains_key(key) && is_expired(ks[key], now) {
        ks.remove(key)
    } else {
        ks
    }
}

/// The expiration that a timestamp-or-sentinel stands for: `-1` is "never".
pub open spec fn expiry_of(expire_at: i64) -> Option<i64> {
    if expire_at == -1 {
        None
    } else {
        Some(expire_at)
    }
}

/// The database after `key` is set to a text.
pub open spec fn with_scalar(
    ks: Keyspace,
    key: Seq<char>,
    value: Seq<char>,
    expires_at: Option<i64>,
) -> Keyspace {
    ks.insert(key, EntryView { value: ValueView::Scalar(value), expires_at })
}

/// What pushing `values` at the head of the list at `key` gives: the new
/// database, or `WrongType` where the key holds something else than a list.
/// The values keep their order, the first of them becoming the head; a key
/// that is not there gets a fresh list that never expires.
pub open spec fn push_left_result(ks: Keyspace, key: Seq<char>, values: Seq<Seq<char>>) -> Result<
    Keyspace,
    StoreError,
> {
    if !ks.contains_key(key) {
        Ok(ks.insert(key, EntryView { value: ValueView::List(values), expires_at: None }))
    } else {
        match ks[key].value {
            ValueView::List(items) => Ok(
                ks.insert(
                    key,
                    EntryView {
                        value: ValueView::List(values + items),
                        expires_at: ks[key].expires_at,
                    },
                ),
            ),
            _ => Err(StoreError::WrongType),
        }
    }
}

/// The list at `key`; empty where the key is not there or holds something
/// else.
pub open spec fn list_at(ks: Keyspace, key: Seq<char>) -> Seq<Seq<char>> {
    if ks.contains_key(key) && ks[key].value is List {
        ks[key].value->List_0
    } else {
        Seq::empty()
    }
}

/// The sorted set at `key`; empty where the key is not there or holds
/// something else.
pub open spec fn sorted_set_at(ks: Keyspace, key: Seq<char>) -> Map<Seq<char>, usize> {
    if ks.contains_key(key) && ks[key].value is SortedSet {
        ks[key].value->SortedSet_0
    } else {
        Map::empty()
    }
}

/// What adding `member` with `score` to the sorted set at `key` gives: the
/// new database, or `WrongType` where the key holds something else than a
/// sorted set. A member that is in the set gets the new score; a key that is
/// not there gets a fresh set that never expires.
pub open spec fn sorted_set_add_result(
    ks: Keyspace,
    key: Seq<char>,
    member: Seq<char>,
    score: usize,
) -> Result<Keyspace, StoreError> {
    if !ks.contains_key(key) {
        Ok(
            ks.insert(
                key,
                EntryView {
                    value: ValueView::SortedSet(Map::<Seq<char>, usize>::empty().insert(member, score)),
                    expires_at: None,
                },
            ),
        )
    } else {
        match ks[key].value {
            ValueView::SortedSet(set) => Ok(
                ks.insert(
                    key,
                    EntryView {
                        value: ValueView::SortedSet(set.insert(member, score)),
                        expires_at: ks[key].expires_at,
                    },
                ),
            ),
            _ => Err(StoreError::WrongType),
        }
    }
}

/// What reading the text at `key` gives: the text, nothing where the key is
/// not there, or `WrongType` where the key holds something else than a text.
pub open spec fn scalar_result(ks: Keyspace, key: Seq<char>) -> Result<Option<Seq<char>>, StoreError> {
    if !ks.contains_key(key) {
        Ok(None)
    } else {
        match ks[key].value {
            ValueView::Scalar(s) => Ok(Some(s)),
            _ => Err(StoreError::WrongType),
        }
    }
}

/// What reading the list at `key` gives: its items, head first, none where
/// the key is not there, or `WrongType` where the key holds something else
/// than a list.
pub open spec fn list_result(ks: Keyspace, key: Seq<char>) -> Result<Seq<Seq<char>>, StoreError> {
    if !ks.contains_key(key) {
        Ok(Seq::empty())
    } else {
        match ks[key].value {
            ValueView::List(items) => Ok(items),
            _ => Err(StoreError::WrongType),
        }
    }
}

/// What reading the score of `member` in the sorted set at `key` gives: the
/// score, nothing where the key or the member is not there, or `WrongType`
/// where the key holds something else than a sorted set.
pub open spec fn score_result(ks: Keyspace, key: Seq<char>, member: Seq<char>) -> Result<
    Option<usize>,
    StoreError,
> {
    if !ks.contains_key(key) {
        Ok(None)
    } else {
        match ks[key].value {
            ValueView::SortedSet(set) => Ok(
                if set.contains_key(member) {
                    Some(set[member])
                } else {
                    None
                },
            ),
            _ => Err(StoreError::WrongType),
        }
    }
}

/// What reading the sorted set at `key` gives: its scores by member, none
/// where the key is not there, or `WrongType` where the key holds something
/// else than a sorted set.
pub open spec fn members_result(ks: Keyspace, key: Seq<char>) -> Result<
    Map<Seq<char>, usize>,
    StoreError,
> {
    if !ks.contains_key(key) {
        Ok(Map::empty())
    } else {
        match ks[key].value {
            ValueView::SortedSet(set) => Ok(set),
            _ => Err(StoreError::WrongType),
        }
    }
}

/// What giving the entry at `key` a new expiration gives: the new database,
/// or `NotFound` where the key is not there.
pub open spec fn set_expiration_result(
    ks: Keyspace,
    key: Seq<char>,
    expires_at: Option<i64>,
) -> Result<Keyspace, StoreError> {
    if ks.contains_key(key) {
        Ok(ks.insert(key, EntryView { value: ks[key].value, expires_at }))
    } else {
        Err(StoreError::NotFound)
    }
}

/// The views of the entries of a database.
pub open spec fn keyspace_of(m: Map<Seq<char>, Entry>) -> Keyspace {
    m.map_values(|e: Entry| e@)
}

/// The store: a fixed number of databases, indexed from zero.
pub struct Db {
    databases: Vec<StringHashMap<Entry>>,
}

impl View for Db {
    type V = Seq<Keyspace>;

    closed spec fn view(&self) -> Seq<Keyspace> {
        self.databases@.map_values(|m: StringHashMap<Entry>| keyspace_of(m@))
    }
}

impl Db {
    /// A store of `count` empty databases.
    pub fn new(count: usize) -> (db: Db)
        ensures
            db@.len() == count,
            forall|i: int| 0 <= i < count ==> #[trigger] db@[i] == Map::<Seq<char>, EntryView>::empty(),
    {
        let mut databases: Vec<StringHashMap<Entry>> = Vec::new();
        let mut i: usize = 0;
        while i < count
            invariant
                i <= count,
                databases@.len() == i,
                forall|j: int| 0 <= j < i ==> (#[trigger] databases@[j])@ == Map::<Seq<char>, Entry>::empty(),
            decreases count - i,
        {
            databases.push(StringHashMap::new());
            i += 1;
        }
        let db = Db { databases };
        assert forall|i: int| 0 <= i < count implies #[trigger] db@[i] == Map::<
            Seq<char>,
            EntryView,
        >::empty() by {
            assert(db@[i] =~= Map::<Seq<char>, EntryView>::empty());
        }
        db
    }

    /// The number of databases.
    pub fn database_count(&self) -> (count: usize)
        ensures
            count == self@.len(),
    {
        self.databases.len()
    }

    /// Whether `key` is in database `db`.
    pub fn key_exists(&self, db: usize, key: &str) -> (found: bool)
        requires
            db < self@.len(),
        ensures
            found == self@[db as int].contains_key(key@),
    {
        self.databases[db].contains_key(key)
    }

    /// The expiration check: removes `key` from database `db` if its entry is
    /// due at `now`.
    pub fn check_and_expire(&mut self, db: usize, key: &str, now: i64)
        requires
            db < old(self)@.len(),
        ensures
            final(self)@ == old(self)@.update(db as int, expire_key(old(self)@[db as int], key@, now)),
    {
        let due = match self.databases[db].get(key) {
            Some(entry) => match entry.expires_at {
                Some(t) => t <= now,
                None => false,
            },
            None => false,
        };
        if due {
            self.databases[db].remove(key);
            assert(keyspace_of(self.databases@[db as int]@) =~= old(self)@[db as int].remove(key@));
        }
        assert(final(self)@ =~= old(self)@.update(
            db as int,
            expire_key(old(self)@[db as int], key@, now),
        ));
    }

    /// Puts `entry` at `key` in database `db`, over whatever was there.
    fn put(&mut self, db: usize, key: String, entry: Entry)
        requires
            db < old(self)@.len(),
        ensures
            final(self)@ == old(self)@.update(db as int, old(self)@[db as int].insert(key@, entry@)),
    {
        self.databases[db].insert(key, entry);
        assert(keyspace_of(self.databases@[db as int]@) =~= old(self)@[db as int].insert(
            key@,
            entry@,
        ));
        assert(final(self)@ =~= old(self)@.update(
            db as int,
            old(self)@[db as int].insert(key@, entry@),
        ));
    }

    /// Sets `key` in database `db` to the text `value`, over whatever was
    /// there, with the given expiration.
    pub fn set(&mut self, db: usize, key: String, value: String, expires_at: Option<i64>)
        requires
            db < old(self)@.len(),
        ensures
            final(self)@ == old(self)@.update(
                db as int,
                with_scalar(old(self)@[db as int], key@, value@, expires_at),
            ),
    {
        self.put(db, key, Entry { value: Value::Scalar(value), expires_at });
    }

    /// Sets `key` in database `db` to the text `value`, over whatever was
    /// there. `expire_at` is the moment of expiration, or `-1` for none.
    pub fn set_with_ttl(&mut self, db: usize, key: String, value: String, expire_at: i64)
        requires
            db < old(self)@.len(),
        ensures
            final(self)@ == old(self)@.update(
                db as int,
                with_scalar(old(self)@[db as int], key@, value@, expiry_of(expire_at)),
            ),
    {
        let expires_at = if expire_at == -1 {
            None
        } else {
            Some(expire_at)
        };
        self.set(db, key, value, expires_at);
    }

    /// Pushes `values` at the head of the list at `key` in database `db`, in
    /// their order, and returns the new length. Creates the list where the
    /// key is not there; fails with `WrongType`, changing nothing, where the
    /// key holds something else.
    pub fn push_left(&mut self, db: usize, key: &str, values: &Vec<String>) -> (r: Result<
        usize,
        StoreError,
    >)
        requires
            db < old(self)@.len(),
        ensures
            match push_left_result(old(self)@[db as int], key@, texts(values@)) {
                Ok(ks) => final(self)@ == old(self)@.update(db as int, ks) && r == Ok::<
                    usize,
                    StoreError,
                >(list_at(ks, key@).len() as usize) && list_at(ks, key@).len() <= usize::MAX,
                Err(e) => final(self)@ == old(self)@ && r == Err::<usize, StoreError>(e),
            },
    {
        let mut items = duplicate_texts(values);
        let mut expires_at: Option<i64> = None;
        match self.databases[db].get(key) {
            Some(entry) => {
                match &entry.value {
                    Value::List(present) => {
                        let mut i: usize = 0;
                        while i < present.len()
                            invariant
                                i <= present.len(),
                                items@ == values@ + present@.subrange(0, i as int),
                            decreases present.len() - i,
                        {
                            items.push(present[i].clone());
                            assert(items@ =~= values@ + present@.subrange(0, i + 1));
                            i += 1;
                        }
                        assert(present@.subrange(0, i as int) =~= present@);
                        expires_at = entry.expires_at;
                        assert(texts(items@) =~= texts(values@) + texts(present@));
                    },
                    _ => {
                        return Err(StoreError::WrongType);
                    },
                }
            },
            None => {},
        }
        let length = items.len();
        self.put(db, key.to_owned(), Entry { value: Value::List(items), expires_at });
        Ok(length)
    }

    /// Adds `member` with `score` to the sorted set at `key` in database
    /// `db`, and returns how many members are new: `1`, or `0` where the
    /// member was in the set and only its score changed. Creates the set
    /// where the key is not there; fails with `WrongType`, changing nothing,
    /// where the key holds something else.
    pub fn sorted_set_add(&mut self, db: usize, key: &str, member: &str, score: usize) -> (r:
        Result<usize, StoreError>)
        requires
            db < old(self)@.len(),
        ensures
            match sorted_set_add_result(old(self)@[db as int], key@, member@, score) {
                Ok(ks) => final(self)@ == old(self)@.update(db as int, ks) && r == Ok::<
                    usize,
                    StoreError,
                >(
                    if sorted_set_at(old(self)@[db as int], key@).contains_key(member@) {
                        0usize
                    } else {
                        1usize
                    },
                ),
                Err(e) => final(self)@ == old(self)@ && r == Err::<usize, StoreError>(e),
            },
    {
        let (set, expires_at, fresh) = match self.databases[db].get(key) {
            Some(entry) => {
                match &entry.value {
                    Value::SortedSet(present) => {
                        let (set, fresh) = present.with_member(member, score);
                        (set, entry.expires_at, fresh)
                    },
                    _ => {
                        return Err(StoreError::WrongType);
                    },
                }
            },
            None => {
                let (set, fresh) = SortedSet::new().with_member(member, score);
                (set, None, fresh)
            },
        };
        self.put(db, key.to_owned(), Entry { value: Value::SortedSet(set), expires_at });
        if fresh {
            Ok(1)
        } else {
            Ok(0)
        }
    }

    /// Removes `key` from database `db`, and says whether it was there.
    pub fn remove(&mut self, db: usize, key: &str) -> (found: bool)
        requires
            db < old(self)@.len(),
        ensures
            found == old(self)@[db as int].contains_key(key@),
            final(self)@ == old(self)@.update(db as int, old(self)@[db as int].remove(key@)),
    {
        let found = self.databases[db].contains_key(key);
        self.databases[db].remove(key);
        assert(keyspace_of(self.databases@[db as int]@) =~= old(self)@[db as int].remove(key@));
        assert(final(self)@ =~= old(self)@.update(db as int, old(self)@[db as int].remove(key@)));
        found
    }

    /// The moment at which `key` in database `db` expires, if the key is
    /// there and has one.
    pub fn expiration(&self, db: usize, key: &str) -> (r: Option<i64>)
        requires
            db < self@.len(),
        ensures
            r == if self@[db as int].contains_key(key@) {
                self@[db as int][key@].expires_at
            } else {
                None::<i64>
            },
    {
        match self.databases[db].get(key) {
            Some(entry) => entry.expires_at,
            None => None,
        }
    }

    /// The text at `key` in database `db`.
    pub fn get_scalar(&self, db: usize, key: &str) -> (r: Result<Option<String>, StoreError>)
        requires
            db < self@.len(),
        ensures
            match r {
                Ok(Some(s)) => scalar_result(self@[db as int], key@) == Ok::<
                    Option<Seq<char>>,
                    StoreError,
                >(Some(s@)),
                Ok(None) => scalar_result(self@[db as int], key@) == Ok::<
                    Option<Seq<char>>,
                    StoreError,
                >(None),
                Err(e) => scalar_result(self@[db as int], key@) == Err::<
                    Option<Seq<char>>,
                    StoreError,
                >(e),
            },
    {
        match self.databases[db].get(key) {
            Some(entry) => match &entry.value {
                Value::Scalar(s) => Ok(Some(s.clone())),
                _ => Err(StoreError::WrongType),
            },
            None => Ok(None),
        }
    }

    /// The items of the list at `key` in database `db`, head first.
    pub fn list_items(&self, db: usize, key: &str) -> (r: Result<Vec<String>, StoreError>)
        requires
            db < self@.len(),
        ensures
            match r {
                Ok(items) => list_result(self@[db as int], key@) == Ok::<
                    Seq<Seq<char>>,
                    StoreError,
                >(texts(items@)),
                Err(e) => list_result(self@[db as int], key@) == Err::<Seq<Seq<char>>, StoreError>(
                    e,
                ),
            },
    {
        match self.databases[db].get(key) {
            Some(entry) => match &entry.value {
                Value::List(items) => Ok(duplicate_texts(items)),
                _ => Err(StoreError::WrongType),
            },
            None => {
                let items: Vec<String> = Vec::new();
                assert(texts(items@) =~= Seq::<Seq<char>>::empty());
                Ok(items)
            },
        }
    }

    /// The score of `member` in the sorted set at `key` in database `db`.
    pub fn sorted_set_score(&self, db: usize, key: &str, member: &str) -> (r: Result<
        Option<usize>,
        StoreError,
    >)
        requires
            db < self@.len(),
        ensures
            r == score_result(self@[db as int], key@, member@),
    {
        match self.databases[db].get(key) {
            Some(entry) => match &entry.value {
                Value::SortedSet(set) => Ok(set.score(member)),
                _ => Err(StoreError::WrongType),
            },
            None => Ok(None),
        }
    }

    /// The members of the sorted set at `key` in database `db` with their
    /// scores, in rank order: by score, and among equal scores by member.
    pub fn sorted_set_members(&self, db: usize, key: &str) -> (r: Result<
        Vec<ScoredMember>,
        StoreError,
    >)
        requires
            db < self@.len(),
        ensures
            match r {
                Ok(items) => in_rank_order(items@) && distinct_members(items@) && members_result(
                    self@[db as int],
                    key@,
                ) == Ok::<Map<Seq<char>, usize>, StoreError>(scores_of(items@)),
                Err(e) => members_result(self@[db as int], key@) == Err::<
                    Map<Seq<char>, usize>,
                    StoreError,
                >(e),
            },
    {
        match self.databases[db].get(key) {
            Some(entry) => match &entry.value {
                Value::SortedSet(set) => Ok(set.ordered()),
                _ => Err(StoreError::WrongType),
            },
            None => {
                let items: Vec<ScoredMember> = Vec::new();
                assert(scores_of(items@) =~= Map::<Seq<char>, usize>::empty());
                Ok(items)
            },
        }
    }

    /// Gives the entry at `key` in database `db` a new expiration, or none.
    /// Fails with `NotFound`, changing nothing, where the key is not there.
    pub fn set_expiration(&mut self, db: usize, key: &str, expires_at: Option<i64>) -> (r: Result<
        (),
        StoreError,
    >)
        requires
            db < old(self)@.len(),
        ensures
            match set_expiration_result(old(self)@[db as int], key@, expires_at) {
                Ok(ks) => final(self)@ == old(self)@.update(db as int, ks) && r is Ok,
                Err(e) => final(self)@ == old(self)@ && r == Err::<(), StoreError>(e),
            },
    {
        let value = match self.databases[db].get(key) {
            Some(entry) => match &entry.value {
                Value::Scalar(s) => Value::Scalar(s.clone()),
                Value::List(items) => Value::List(duplicate_texts(items)),
                Value::SortedSet(set) => Value::SortedSet(set.duplicate()),
            },
            None => {
                return Err(StoreError::NotFound);
            },
        };
        self.put(db, key.to_owned(), Entry { value, expires_at });
        Ok(())
    }
}

} // verus!
