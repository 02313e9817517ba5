//! The command registry and the dispatcher: from a request's fragments to
//! the command that goes by its name, and to what executing it does.

use crate::command::lpush::{lpush_apply, LpushCommand};
use crate::command::set::{set_apply, SetCommand};
use crate::command::zadd::{zadd_apply, ZaddCommand};
use crate::command::{
    refusal, refuse, resolve, target_of, upper_all, uppercased, CommandStrategy, CommandType,
    Outcome, OutcomeView, Target,
};
use crate::config::RudisConfig;
use crate::resp::{Reply, RespValue};
use crate::session::{Session, SessionRegistry};
use crate::store::{Db, Keyspace};
use crate::text::{text_eq, texts, to_uppercase, uppercase};
use vstd::prelude::*;
use vstd::string::*;

verus! {

/// The commands of the registry.
#[derive(Clone, Copy, Debug, PartialEq, Eq, Structural)]
pub enum Command {
    SetValue,
    ListPush,
    SortedSetAdd,
}

/// The command registered under the upper-case name `upper`.
pub open spec fn registered(upper: Seq<char>) -> Option<Command> {
    if upper == "SET"@ {
        Some(Command::SetValue)
    } else if upper == "LPUSH"@ {
        Some(Command::ListPush)
    } else if upper == "ZADD"@ {
        Some(Command::SortedSetAdd)
    } else {
        None
    }
}

/// Looks a command up by its upper-case name.
pub fn lookup_upper(upper: &str) -> (r: Option<Command>)
    ensures
        r == registered(upper@),
{
    if text_eq(upper, "SET") {
        Some(Command::SetValue)
    } else if text_eq(upper, "LPUSH") {
        Some(Command::ListPush)
    } else if text_eq(upper, "ZADD") {
        Some(Command::SortedSetAdd)
    } else {
        None
    }
}

/// Looks a command up by its name, in any letter case.
pub fn lookup(name: &str) -> (r: Option<Command>)
    ensures
        r == registered(uppercase(name@)),
{
    let upper = to_uppercase(name);
    lookup_upper(upper.as_str())
}

impl CommandStrategy for Command {
    open spec fn apply(
        &self,
        fragments: Seq<Seq<char>>,
        upper: Seq<Seq<char>>,
        ks: Keyspace,
        now: i64,
    ) -> (Keyspace, Reply) {
        match self {
            Command::SetValue => set_apply(fragments, upper, ks, now),
            Command::ListPush => lpush_apply(fragments, ks, now),
            Command::SortedSetAdd => zadd_apply(fragments, ks, now),
        }
    }

    open spec fn argument_error(&self, fragments: Seq<Seq<char>>) -> Option<Reply> {
        match self {
            Command::SetValue => (SetCommand {  }).argument_error(fragments),
            Command::ListPush => (LpushCommand {  }).argument_error(fragments),
            Command::SortedSetAdd => (ZaddCommand {  }).argument_error(fragments),
        }
    }

    open spec fn kind(&self) -> CommandType {
        CommandType::Write
    }

    fn check_arguments(&self, fragments: &Vec<String>) -> (r: Option<RespValue>) {
        match self {
            Command::SetValue => (SetCommand {  }).check_arguments(fragments),
            Command::ListPush => (LpushCommand {  }).check_arguments(fragments),
            Command::SortedSetAdd => (ZaddCommand {  }).check_arguments(fragments),
        }
    }

    fn run(
        &self,
        fragments: &Vec<String>,
        upper: &Vec<String>,
        db: &mut Db,
        index: usize,
        now: i64,
    ) -> (reply: RespValue) {
        match self {
            Command::SetValue => (SetCommand {  }).run(fragments, upper, db, index, now),
            Command::ListPush => (LpushCommand {  }).run(fragments, upper, db, index, now),
            Command::SortedSetAdd => (ZaddCommand {  }).run(fragments, upper, db, index, now),
        }
    }

    fn execute(
        &self,
        fragments: &Vec<String>,
        db: &mut Db,
        _rudis_config: &RudisConfig,
        sessions: &SessionRegistry,
        session_id: &str,
        now: i64,
    ) -> (outcome: Outcome) {
        match resolve(db, sessions, session_id) {
            Target::Missing => Outcome::SessionMissing,
            Target::OutOfRange => Outcome::Replied(refuse(self.check_arguments(fragments))),
            Target::Database(index) => {
                let upper = uppercased(fragments);
                Outcome::Replied(self.run(fragments, &upper, db, index, now))
            },
        }
    }

    fn command_type(&self) -> (t: CommandType) {
        match self {
            Command::SetValue => (SetCommand {  }).command_type(),
            Command::ListPush => (LpushCommand {  }).command_type(),
            Command::SortedSetAdd => (ZaddCommand {  }).command_type(),
        }
    }
}

/// The command that a request names, given the upper-case forms of its
/// fragments: the one registered under fragment `2`.
pub open spec fn command_in(upper: Seq<Seq<char>>) -> Option<Command> {
    if upper.len() > 2 {
        registered(upper[2])
    } else {
        None
    }
}

/// What dispatching a request does to the store, and how it ends, given
/// the upper-case forms of the request's fragments.
///
/// * A request that names no registered command does nothing.
/// * A caller without a session gets no reply, and nothing changes.
/// * For a caller with a session the number of arguments decides first: a
///   request that lacks arguments gets the reply that says so, and nothing
///   changes, whatever database the session has selected.
/// * A caller whose session selects a database that is not there gets an
///   error, and nothing changes.
/// * Otherwise the command works on the database that the session has
///   selected, and on no other.
pub open spec fn effect_with(
    fragments: Seq<Seq<char>>,
    upper: Seq<Seq<char>>,
    store: Seq<Keyspace>,
    sessions: Map<Seq<char>, Session>,
    session_id: Seq<char>,
    now: i64,
) -> (Seq<Keyspace>, OutcomeView) {
    match command_in(upper) {
        None => (store, OutcomeView::UnknownCommand),
        Some(command) => match target_of(store, sessions, session_id) {
            Target::Missing => (store, OutcomeView::SessionMissing),
            Target::OutOfRange => (
                store,
                OutcomeView::Replied(refusal(command.argument_error(fragments))),
            ),
            Target::Database(index) => (
                store.update(
                    index as int,
                    command.apply(fragments, upper, store[index as int], now).0,
                ),
                OutcomeView::Replied(command.apply(fragments, upper, store[index as int], now).1),
            ),
        },
    }
}

/// What dispatching a request does to the store, and how it ends.
pub open spec fn dispatch_effect(
    fragments: Seq<Seq<char>>,
    store: Seq<Keyspace>,
    sessions: Map<Seq<char>, Session>,
    session_id: Seq<char>,
    now: i64,
) -> (Seq<Keyspace>, OutcomeView) {
    effect_with(fragments, upper_all(fragments), store, sessions, session_id, now)
}

/// Dispatches a request whose upper-case forms are at hand: finds the
/// command that it names and executes it for the caller `session_id` at the
/// moment `now`.
pub fn dispatch_with(
    fragments: &Vec<String>,
    upper: &Vec<String>,
    db: &mut Db,
    sessions: &SessionRegistry,
    session_id: &str,
    now: i64,
) -> (outcome: Outcome)
    ensures
        (final(db)@, outcome@) == effect_with(
            texts(fragments@),
            texts(upper@),
            old(db)@,
            sessions@,
            session_id@,
            now,
        ),
{
    if upper.len() <= 2 {
        return Outcome::UnknownCommand;
    }
    assert(texts(upper@)[2] == upper@[2]@);
    match lookup_upper(upper[2].as_str()) {
        None => Outcome::UnknownCommand,
        Some(command) => match resolve(db, sessions, session_id) {
            Target::Missing => Outcome::SessionMissing,
            Target::OutOfRange => Outcome::Replied(refuse(command.check_arguments(fragments))),
            Target::Database(index) => Outcome::Replied(
                command.run(fragments, upper, db, index, now),
            ),
        },
    }
}

/// Dispatches a request: finds the command that it names, in any letter
/// case, and executes it for the caller `session_id` at the moment `now`.
pub fn dispatch(
    fragments: &Vec<String>,
    db: &mut Db,
    rudis_config: &RudisConfig,
    sessions: &SessionRegistry,
    session_id: &str,
    now: i64,
) -> (outcome: Outcome)
    ensures
        (final(db)@, outcome@) == dispatch_effect(
            texts(fragments@),
            old(db)@,
            sessions@,
            session_id@,
            now,
        ),
{
    let upper = uppercased(fragments);
    dispatch_with(fragments, &upper, db, sessions, session_id, now)
}

/// Whether a request that ended with `outcome` belongs in the log: it named
/// a command that writes, the command ran, and it did not reply an error.
pub open spec fn persists(fragments: Seq<Seq<char>>, outcome: OutcomeView) -> bool {
    &&& command_in(upper_all(fragments)) matches Some(command)
    &&& command.kind() == CommandType::Write
    &&& outcome matches OutcomeView::Replied(reply)
    &&& !(reply is Error)
}

/// Whether a request that ended with `outcome` belongs in the log.
pub fn should_persist(fragments: &Vec<String>, outcome: &Outcome) -> (b: bool)
    ensures
        b == persists(texts(fragments@), outcome@),
{
    if fragments.len() <= 2 {
        return false;
    }
    assert(upper_all(texts(fragments@))[2] == uppercase(fragments@[2]@));
    match lookup(fragments[2].as_str()) {
        None => false,
        Some(command) => match command.command_type() {
            CommandType::Write => match outcome {
                Outcome::Replied(reply) => match reply {
                    RespValue::Error(_) => false,
                    _ => true,
                },
                _ => false,
            },
            _ => false,
        },
    }
}

} // verus!
