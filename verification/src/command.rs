//! The command contract: what every command does with the request's
//! fragments, the store and the caller's session, and the three commands
//! `SET`, `LPUSH` and `ZADD`.
//!
//! A request arrives as a sequence of fragments. Fragment `2` is the
//! command's name; argument `i`, counting from zero, is fragment `4 + 2 * i`.
//! The fragments in between carry framing and are skipped.

use crate::config::RudisConfig;
use crate::number::{parse_i64, parse_i64_spec};
use crate::resp::{encode, Reply, RespValue};
use crate::session::{Session, SessionRegistry};
use crate::store::{Db, Keyspace};
use crate::text::{text_eq, texts, to_uppercase, uppercase};
use vstd::prelude::*;
use vstd::string::*;

pub mod lpush;
pub mod set;
pub mod zadd;

verus! {

/// What a command does to the store, for the caller that decides whether to
/// record it in the log.
#[derive(Clone, Copy, Debug, PartialEq, Eq, Structural)]
pub enum CommandType {
    Read,
    Write,
    Admin,
}

/// How the execution of a request ended.
#[derive(Debug, PartialEq, Eq)]
pub enum Outcome {
    /// No command goes by the request's name: nothing was done.
    UnknownCommand,
    /// No session is registered for the caller: nothing was done.
    SessionMissing,
    /// The command ran and gives this reply.
    Replied(RespValue),
}

/// The mathematical content of an outcome.
pub enum OutcomeView {
    UnknownCommand,
    SessionMissing,
    Replied(Reply),
}

impl View for Outcome {
    type V = OutcomeView;

    open spec fn view(&self) -> OutcomeView {
        match self {
            Outcome::UnknownCommand => OutcomeView::UnknownCommand,
            Outcome::SessionMissing => OutcomeView::SessionMissing,
            Outcome::Replied(r) => OutcomeView::Replied(r@),
        }
    }
}

impl Outcome {
    /// What goes to the caller's reply channel: the bytes of the one reply,
    /// or nothing where the request ended without a reply.
    pub fn reply_bytes(&self) -> (bytes: Option<Vec<u8>>)
        ensures
            match self@ {
                OutcomeView::Replied(reply) => bytes is Some && bytes->0@ == encode(reply),
                _ => bytes is None,
            },
    {
        match self {
            Outcome::Replied(reply) => Some(reply.to_bytes()),
            _ => None,
        }
    }
}

/// The database that a caller's commands work on.
#[derive(Clone, Copy, Debug, PartialEq, Eq, Structural)]
pub enum Target {
    /// No session is registered for the caller.
    Missing,
    /// The session has selected an index that the store does not have.
    OutOfRange,
    /// The session has selected this database.
    Database(usize),
}

/// The database that the caller `session_id` works on: the one its session
/// has selected at this moment.
pub open spec fn target_of(
    store: Seq<Keyspace>,
    sessions: Map<Seq<char>, Session>,
    session_id: Seq<char>,
) -> Target {
    if !sessions.contains_key(session_id) {
        Target::Missing
    } else if sessions[session_id].selected_database >= store.len() {
        Target::OutOfRange
    } else {
        Target::Database(sessions[session_id].selected_database)
    }
}

/// Finds the database that the caller `session_id` works on.
pub fn resolve(db: &Db, sessions: &SessionRegistry, session_id: &str) -> (target: Target)
    ensures
        target == target_of(db@, sessions@, session_id@),
{
    match sessions.selected_database(session_id) {
        None => Target::Missing,
        Some(index) => if index >= db.database_count() {
            Target::OutOfRange
        } else {
            Target::Database(index)
        },
    }
}

/// The reply to a caller whose session has selected a database that the
/// store does not have.
pub open spec fn out_of_range_text() -> Seq<char> {
    "ERR DB index is out of range"@
}

/// The reply to a request that lacks an argument or carries one that cannot
/// be used.
pub open spec fn syntax_error_text() -> Seq<char> {
    "ERR syntax error"@
}

/// The reply to a request with an argument that is no integer, or none that
/// fits.
pub open spec fn not_an_integer_text() -> Seq<char> {
    "ERR value is not an integer or out of range"@
}

/// The upper-case forms of the fragments of a request, one for one.
pub open spec fn upper_all(fragments: Seq<Seq<char>>) -> Seq<Seq<char>> {
    Seq::new(fragments.len(), |i: int| uppercase(fragments[i]))
}

/// Makes the upper-case form of every fragment.
pub fn uppercased(fragments: &Vec<String>) -> (upper: Vec<String>)
    ensures
        texts(upper@) == upper_all(texts(fragments@)),
{
    let mut upper: Vec<String> = Vec::new();
    let mut i: usize = 0;
    while i < fragments.len()
        invariant
            i <= fragments.len(),
            upper@.len() == i,
            forall|j: int| 0 <= j < i ==> (#[trigger] upper@[j])@ == uppercase(fragments@[j]@),
        decreases fragments.len() - i,
    {
        upper.push(to_uppercase(fragments[i].as_str()));
        i += 1;
    }
    assert(texts(upper@) =~= upper_all(texts(fragments@)));
    upper
}

/// A command: a unit that executes a request against the store on behalf of
/// a session.
pub trait CommandStrategy {
    /// What the command makes of the selected database `ks` at the moment
    /// `now`, and what it replies. `upper` holds the upper-case forms of the
    /// fragments, in which the command looks for its options.
    spec fn apply(
        &self,
        fragments: Seq<Seq<char>>,
        upper: Seq<Seq<char>>,
        ks: Keyspace,
        now: i64,
    ) -> (Keyspace, Reply);

    /// The reply to a request that lacks arguments of the command; none
    /// where the request has them all.
    spec fn argument_error(&self, fragments: Seq<Seq<char>>) -> Option<Reply>;

    /// The command's classification.
    spec fn kind(&self) -> CommandType;

    /// Checks that the request has the arguments of the command, and gives
    /// the reply for the request that lacks some.
    fn check_arguments(&self, fragments: &Vec<String>) -> (r: Option<RespValue>)
        ensures
            match r {
                Some(reply) => self.argument_error(texts(fragments@)) == Some(reply@),
                None => self.argument_error(texts(fragments@)) is None,
            },
    ;

    /// Runs the command on database `index` at the moment `now`, in
    /// milliseconds, and returns its reply. `upper` holds the upper-case
    /// forms of the fragments. A request that lacks arguments gets the
    /// reply that says so, and changes nothing.
    fn run(
        &self,
        fragments: &Vec<String>,
        upper: &Vec<String>,
        db: &mut Db,
        index: usize,
        now: i64,
    ) -> (reply: RespValue)
        requires
            index < old(db)@.len(),
        ensures
            final(db)@ == old(db)@.update(
                index as int,
                self.apply(texts(fragments@), texts(upper@), old(db)@[index as int], now).0,
            ),
            reply@ == self.apply(texts(fragments@), texts(upper@), old(db)@[index as int], now).1,
            self.argument_error(texts(fragments@)) matches Some(lacking) ==> reply@ == lacking
                && final(db)@ == old(db)@,
    ;

    /// Executes the request `fragments` for the caller `session_id` at the
    /// moment `now`, in milliseconds, under the server's settings.
    ///
    /// * A caller without a session gets no reply, and nothing changes.
    /// * For a caller with a session the number of arguments decides first:
    ///   a request that lacks arguments gets the reply that says so, and
    ///   nothing changes, whatever database the session has selected.
    /// * A caller whose session selects a database that is not there gets
    ///   an error, and nothing changes.
    /// * Otherwise the command works on the database that the session has
    ///   selected at this moment, and on no other, as `apply` says.
    fn execute(
        &self,
        fragments: &Vec<String>,
        db: &mut Db,
        rudis_config: &RudisConfig,
        sessions: &SessionRegistry,
        session_id: &str,
        now: i64,
    ) -> (outcome: Outcome)
        ensures
            match target_of(old(db)@, sessions@, session_id@) {
                Target::Missing => final(db)@ == old(db)@ && outcome@
                    == OutcomeView::SessionMissing,
                Target::OutOfRange => final(db)@ == old(db)@ && outcome@ == OutcomeView::Replied(
                    refusal(self.argument_error(texts(fragments@))),
                ),
                Target::Database(index) => {
                    let result = self.apply(
                        texts(fragments@),
                        upper_all(texts(fragments@)),
                        old(db)@[index as int],
                        now,
                    );
                    final(db)@ == old(db)@.update(index as int, result.0) && outcome@
                        == OutcomeView::Replied(result.1)
                },
            },
            self.argument_error(texts(fragments@)) is Some && target_of(
                old(db)@,
                sessions@,
                session_id@,
            ) != Target::Missing ==> final(db)@ == old(db)@ && outcome@ == OutcomeView::Replied(
                self.argument_error(texts(fragments@))->0,
            ),
    ;

    /// The command's classification.
    fn command_type(&self) -> (t: CommandType)
        ensures
            t == self.kind(),
    ;
}

/// The reply to a caller whose session has selected a database that the
/// store does not have: the reply for lacking arguments where the request
/// lacks some, and else the error that names the database index.
pub open spec fn refusal(argument_error: Option<Reply>) -> Reply {
    match argument_error {
        Some(lacking) => lacking,
        None => Reply::Error(out_of_range_text()),
    }
}

/// Makes the reply to a caller whose session has selected a database that
/// the store does not have, from what the check of the arguments gave.
pub fn refuse(argument_error: Option<RespValue>) -> (reply: RespValue)
    ensures
        reply@ == refusal(
            match argument_error {
                Some(lacking) => Some(lacking@),
                None => None,
            },
        ),
{
    match argument_error {
        Some(lacking) => lacking,
        None => RespValue::Error("ERR DB index is out of range".to_owned()),
    }
}

/// The reply to a request with fewer than `needed` fragments for the
/// command `name`; none where the request has that many.
pub open spec fn count_error(name: Seq<char>, needed: nat, fragments: Seq<Seq<char>>) -> Option<
    Reply,
> {
    if fragments.len() < needed {
        Some(Reply::Error(arity_text(name)))
    } else {
        None
    }
}

/// Checks that the request has `needed` fragments, and gives the reply for
/// the command `name` where it has fewer.
pub fn check_count(name: &str, needed: usize, fragments: &Vec<String>) -> (r: Option<RespValue>)
    ensures
        match r {
            Some(reply) => count_error(name@, needed as nat, texts(fragments@)) == Some(reply@),
            None => count_error(name@, needed as nat, texts(fragments@)) is None,
        },
{
    if fragments.len() < needed {
        Some(arity_error(name))
    } else {
        None
    }
}

/// The reply to a request that has too few arguments for the command
/// `name`.
pub open spec fn arity_text(name: Seq<char>) -> Seq<char> {
    "ERR wrong number of arguments for '"@ + name + "' command"@
}

/// The reply to a request that has too few arguments for the command
/// `name`.
pub fn arity_error(name: &str) -> (r: RespValue)
    ensures
        r@ == Reply::Error(arity_text(name@)),
{
    let mut text = "ERR wrong number of arguments for '".to_owned();
    text.append(name);
    text.append("' command");
    RespValue::Error(text)
}

/// The option `word` stands in the request: at some fragment other than
/// the key's and the value's, whose upper-case form is `word`.
pub open spec fn has_option(upper: Seq<Seq<char>>, word: Seq<char>) -> bool {
    exists|i: int| 0 <= i < upper.len() && i != 4 && i != 6 && #[trigger] upper[i] == word
}

/// Whether the option `word` stands in the request with the upper-case
/// fragments `upper`.
pub fn find_option(upper: &Vec<String>, word: &str) -> (found: bool)
    ensures
        found == has_option(texts(upper@), word@),
{
    let mut i: usize = 0;
    while i < upper.len()
        invariant
            i <= upper.len(),
            forall|j: int| 0 <= j < i && j != 4 && j != 6 ==> #[trigger] texts(upper@)[j] != word@,
        decreases upper.len() - i,
    {
        if i != 4 && i != 6 && text_eq(upper[i].as_str(), word) {
            assert(texts(upper@)[i as int] == word@);
            return true;
        }
        i += 1;
    }
    false
}

/// The upper-case fragment names a unit of time to live: `EX`, seconds, or
/// `PX`, milliseconds.
pub open spec fn is_ttl_unit(s: Seq<char>) -> bool {
    s == "EX"@ || s == "PX"@
}

/// The greatest index below `below`, and after the value's, at which the
/// upper-case fragments name a unit of time to live; `-1` where there is
/// none.
pub open spec fn last_ttl_unit(upper: Seq<Seq<char>>, below: int) -> int
    decreases below,
{
    if below <= 7 || below > upper.len() {
        -1
    } else if is_ttl_unit(upper[below - 1]) {
        below - 1
    } else {
        last_ttl_unit(upper, below - 1)
    }
}

/// The expiration that a `SET` request asks for at the moment `now`.
///
/// The last unit in the request counts. The fragment two places after it
/// is the amount, a decimal integer, in seconds after `EX` and in
/// milliseconds after `PX`; the expiration is `now` plus that time. A
/// request without a unit asks for no expiration. A unit without an
/// amount, or with one that is no integer or leads out of the range of
/// `i64`, is an error, given by its message.
pub open spec fn requested_expiration(
    fragments: Seq<Seq<char>>,
    upper: Seq<Seq<char>>,
    now: i64,
) -> Result<Option<i64>, Seq<char>> {
    let i = last_ttl_unit(upper, upper.len() as int);
    if i < 0 {
        Ok(None)
    } else if i + 2 >= fragments.len() {
        Err(syntax_error_text())
    } else {
        match parse_i64_spec(fragments[i + 2]) {
            None => Err(not_an_integer_text()),
            Some(amount) => {
                let at = if upper[i] == "EX"@ {
                    now + amount * 1000
                } else {
                    now + amount
                };
                if i64::MIN <= at <= i64::MAX {
                    Ok(Some(at as i64))
                } else {
                    Err(not_an_integer_text())
                }
            },
        }
    }
}

/// Reads the expiration that a `SET` request asks for at the moment `now`.
/// `upper` holds the upper-case forms of the fragments.
pub fn read_expiration(fragments: &Vec<String>, upper: &Vec<String>, now: i64) -> (r: Result<
    Option<i64>,
    String,
>)
    ensures
        match r {
            Ok(at) => requested_expiration(texts(fragments@), texts(upper@), now) == Ok::<
                Option<i64>,
                Seq<char>,
            >(at),
            Err(text) => requested_expiration(texts(fragments@), texts(upper@), now) == Err::<
                Option<i64>,
                Seq<char>,
            >(text@),
        },
{
    let ghost u = texts(upper@);
    let mut i: usize = upper.len();
    while i > 7
        invariant
            i <= upper.len(),
            u == texts(upper@),
            last_ttl_unit(u, u.len() as int) == last_ttl_unit(u, i as int),
        decreases i,
    {
        let unit = upper[i - 1].as_str();
        assert(u[i - 1] == unit@);
        let seconds = text_eq(unit, "EX");
        if seconds || text_eq(unit, "PX") {
            if fragments.len() < 2 || i > fragments.len() - 2 {
                return Err("ERR syntax error".to_owned());
            }
            assert(texts(fragments@)[i + 1] == fragments@[i + 1]@);
            let amount: i64 = match parse_i64(fragments[i + 1].as_str()) {
                Some(n) => n,
                None => {
                    return Err("ERR value is not an integer or out of range".to_owned());
                },
            };
            let at: i128 = if seconds {
                now as i128 + amount as i128 * 1000
            } else {
                now as i128 + amount as i128
            };
            if at < i64::MIN as i128 || at > i64::MAX as i128 {
                return Err("ERR value is not an integer or out of range".to_owned());
            }
            return Ok(Some(at as i64));
        }
        i -= 1;
    }
    Ok(None)
}

/// Every other fragment from index `from` on: `from`, `from + 2`, and so
/// on to the end.
pub open spec fn every_other(fragments: Seq<Seq<char>>, from: int) -> Seq<Seq<char>> {
    Seq::new(
        if from <= fragments.len() {
            ((fragments.len() - from + 1) / 2) as nat
        } else {
            0nat
        },
        |k: int| fragments[from + 2 * k],
    )
}

/// Collects every other fragment from index `from` on.
pub fn collect_every_other(fragments: &Vec<String>, from: usize) -> (values: Vec<String>)
    ensures
        texts(values@) == every_other(texts(fragments@), from as int),
{
    let mut values: Vec<String> = Vec::new();
    if from > fragments.len() {
        assert(texts(values@) =~= every_other(texts(fragments@), from as int));
        return values;
    }
    let rest: usize = fragments.len() - from;
    let count: usize = rest / 2 + rest % 2;
    let mut k: usize = 0;
    while k < count
        invariant
            from <= fragments.len(),
            rest == fragments.len() - from,
            count == (rest + 1) / 2,
            k <= count,
            values@.len() == k,
            forall|j: int|
                0 <= j < k ==> (#[trigger] values@[j])@ == fragments@[from + 2 * j]@,
        decreases count - k,
    {
        values.push(fragments[from + 2 * k].clone());
        k += 1;
    }
    assert(texts(values@) =~= every_other(texts(fragments@), from as int));
    values
}

} // verus!
