//! The append-only log: the format of its records, what is appended, and
//! the replay that rebuilds the store from the records.
//!
//! One record is one request on one line: the request's text with every
//! field separator rewritten to a visible marker. Replay splits a record on
//! that marker, which gives back the request's fragments, and dispatches
//! them for a session of its own.

use crate::command::Outcome;
use crate::config::RudisConfig;
use crate::registry::{dispatch, dispatch_effect};
use crate::session::{Session, SessionRegistry};
use crate::store::{Db, Keyspace};
use crate::text::{replace, replace_text, split, split_text, texts};
use vstd::prelude::*;
use vstd::string::*;

verus! {

/// The field separator of a request: carriage return, line feed.
pub open spec fn separator() -> Seq<char> {
    seq!['\r', '\n']
}

/// The marker that stands for a field separator in a record: a backslash,
/// `r`, a backslash, `n`.
pub open spec fn marker() -> Seq<char> {
    seq!['\\', 'r', '\\', 'n']
}

/// The fragments of a request: its text split on the field separator.
pub open spec fn fragments_of(request: Seq<char>) -> Seq<Seq<char>> {
    split(request, separator())
}

/// The record of a request: its text with every field separator rewritten
/// to the marker.
pub open spec fn record_of(request: Seq<char>) -> Seq<char> {
    replace(request, separator(), marker())
}

/// The fragments that a record holds: its text split on the marker.
pub open spec fn fragments_of_record(line: Seq<char>) -> Seq<Seq<char>> {
    split(line, marker())
}

/// Splits a request into its fragments.
pub fn split_request(request: &str) -> (fragments: Vec<String>)
    ensures
        texts(fragments@) == fragments_of(request@),
{
    proof {
        reveal_strlit("\r\n");
        assert("\r\n"@ =~= separator());
    }
    split_text(request, "\r\n")
}

/// Writes a request as a record.
pub fn encode_record(request: &str) -> (line: String)
    ensures
        line@ == record_of(request@),
{
    proof {
        reveal_strlit("\r\n");
        reveal_strlit("\\r\\n");
        assert("\r\n"@ =~= separator());
        assert("\\r\\n"@ =~= marker());
    }
    replace_text(request, "\r\n", "\\r\\n")
}

/// Splits a record into the fragments that it holds.
pub fn decode_record(line: &str) -> (fragments: Vec<String>)
    ensures
        texts(fragments@) == fragments_of_record(line@),
{
    proof {
        reveal_strlit("\\r\\n");
        assert("\\r\\n"@ =~= marker());
    }
    split_text(line, "\\r\\n")
}

/// The identity of the session that replay acts for.
pub open spec fn replay_identity() -> Seq<char> {
    "0.0.0.0:0"@
}

/// The sessions during replay: one, which has selected database `0` and is
/// authenticated.
pub open spec fn replay_sessions_view() -> Map<Seq<char>, Session> {
    Map::<Seq<char>, Session>::empty().insert(
        replay_identity(),
        Session { selected_database: 0, authenticated: true },
    )
}

/// Makes the registry that replay uses.
pub fn replay_sessions() -> (sessions: SessionRegistry)
    ensures
        sessions@ == replay_sessions_view(),
{
    let mut sessions = SessionRegistry::new();
    let mut session = Session::new();
    session.set_selected_database(0);
    session.set_authenticated(true);
    sessions.insert("0.0.0.0:0", session);
    sessions
}

/// The store after one record is replayed at the moment `now`: the record's
/// fragments are dispatched for the replay session. A record that names no
/// registered command changes nothing.
pub open spec fn replay_record(store: Seq<Keyspace>, line: Seq<char>, now: i64) -> Seq<Keyspace> {
    dispatch_effect(
        fragments_of_record(line),
        store,
        replay_sessions_view(),
        replay_identity(),
        now,
    ).0
}

/// The store after the records `lines` are replayed in order, each at the
/// moment that `clock` gives for it.
pub open spec fn replay(store: Seq<Keyspace>, lines: Seq<Seq<char>>, clock: Seq<i64>) -> Seq<
    Keyspace,
>
    decreases lines.len(),
{
    if lines.len() == 0 {
        store
    } else {
        replay_record(
            replay(store, lines.drop_last(), clock.drop_last()),
            lines.last(),
            clock.last(),
        )
    }
}

/// The clock that shows `now` for each of `n` records.
pub open spec fn steady_clock(n: nat, now: i64) -> Seq<i64> {
    Seq::new(n, |i: int| now)
}

/// The append-only log of one store.
pub struct Aof {
    /// The server's settings.
    pub rudis_config: RudisConfig,
    /// The path of the log file where commands are recorded, none where
    /// they are not.
    pub path: Option<String>,
}

impl Aof {
    /// Whether commands are recorded.
    pub open spec fn enabled(&self) -> bool {
        self.path is Some
    }

    /// The log that the settings ask for: commands are recorded where
    /// `appendonly` is set and the file has a name, and the file's path is
    /// the directory followed by the name.
    pub fn new(rudis_config: RudisConfig) -> (aof: Aof)
        ensures
            aof.rudis_config == rudis_config,
            aof.enabled() == (rudis_config.appendonly && rudis_config.appendfilename is Some),
            aof.enabled() ==> aof.path->0@ == rudis_config.dir@ + rudis_config.appendfilename->0@,
    {
        let path = if rudis_config.appendonly {
            match &rudis_config.appendfilename {
                Some(name) => {
                    let mut path = rudis_config.dir.clone();
                    path.append(name.as_str());
                    Some(path)
                },
                None => None,
            }
        } else {
            None
        };
        Aof { rudis_config, path }
    }

    /// The text to append to the log file for the record `command`: the
    /// record and a line feed; nothing where commands are not recorded.
    pub fn save(&self, command: &str) -> (line: Option<String>)
        ensures
            line is Some == self.enabled(),
            line is Some ==> line->0@ == command@ + seq!['\n'],
    {
        match &self.path {
            Some(_) => {
                proof {
                    reveal_strlit("\n");
                    assert("\n"@ =~= seq!['\n']);
                }
                let mut line = command.to_owned();
                line.append("\n");
                Some(line)
            },
            None => None,
        }
    }

    /// Replays one record at the moment `now`, for the replay session that
    /// `sessions` holds, and says how its command ended.
    pub fn replay_line(
        &self,
        db: &mut Db,
        sessions: &SessionRegistry,
        line: &str,
        now: i64,
    ) -> (outcome: Outcome)
        ensures
            (final(db)@, outcome@) == dispatch_effect(
                fragments_of_record(line@),
                old(db)@,
                sessions@,
                replay_identity(),
                now,
            ),
            sessions@ == replay_sessions_view() ==> final(db)@ == replay_record(
                old(db)@,
                line@,
                now,
            ),
    {
        let fragments = decode_record(line);
        dispatch(&fragments, db, &self.rudis_config, sessions, "0.0.0.0:0", now)
    }

    /// Replays the records `lines` in order at the moment `now`. Does
    /// nothing where commands are not recorded.
    pub fn load(&self, db: &mut Db, lines: &Vec<String>, now: i64)
        ensures
            final(db)@ == if self.enabled() {
                replay(old(db)@, texts(lines@), steady_clock(lines@.len(), now))
            } else {
                old(db)@
            },
    {
        if self.path.is_none() {
            return ;
        }
        let sessions = replay_sessions();
        let ghost all = texts(lines@);
        let ghost clock = steady_clock(lines@.len(), now);
        let mut i: usize = 0;
        assert(all.subrange(0, 0) =~= Seq::<Seq<char>>::empty());
        while i < lines.len()
            invariant
                i <= lines.len(),
                all == texts(lines@),
                clock == steady_clock(lines@.len(), now),
                sessions@ == replay_sessions_view(),
                db@ == replay(old(db)@, all.subrange(0, i as int), clock.subrange(0, i as int)),
            decreases lines.len() - i,
        {
            proof {
                let done = all.subrange(0, i as int);
                let next = all.subrange(0, i + 1);
                assert(next.drop_last() =~= done);
                assert(next.last() == lines@[i as int]@);
                assert(clock.subrange(0, i + 1).drop_last() =~= clock.subrange(0, i as int));
                assert(clock.subrange(0, i + 1).last() == now);
            }
            self.replay_line(db, &sessions, lines[i].as_str(), now);
            i += 1;
        }
        assert(all.subrange(0, i as int) =~= all);
        assert(clock.subrange(0, i as int) =~= clock);
    }
}

} // verus!
