//! `SET key value [NX|XX] [EX seconds | PX milliseconds]`.

use crate::command::{
    check_count, count_error, find_option, has_option, read_expiration, refuse,
    requested_expiration, resolve, uppercased, CommandStrategy, CommandType, Outcome, Target,
};
use crate::config::RudisConfig;
use crate::resp::{Reply, RespValue};
use crate::session::SessionRegistry;
use crate::store::{expire_key, with_scalar, Db, Keyspace};
use crate::text::texts;
use vstd::prelude::*;
use vstd::string::*;

verus! {

/// The command that sets a key to a text.
pub struct SetCommand {}

/// What `SET` makes of the selected database, and what it replies.
///
/// * Without a key and a value: an error, and nothing changes.
/// * Otherwise the key is first checked for expiration. With `NX` and the
///   key there, or with `XX` and the key not there, the reply is `Null` and
///   nothing more changes.
/// * Only then is the time to live read. Where it cannot be read, the reply
///   is an error and the database is left as it was, the key unchecked.
/// * Else the key holds the value, with the expiration that the request
///   asks for, and the reply is success.
pub open spec fn set_apply(
    fragments: Seq<Seq<char>>,
    upper: Seq<Seq<char>>,
    ks: Keyspace,
    now: i64,
) -> (Keyspace, Reply) {
    match count_error("set"@, 7, fragments) {
        Some(lacking) => (ks, lacking),
        None => {
            let live = expire_key(ks, fragments[4], now);
            if has_option(upper, "NX"@) && live.contains_key(fragments[4]) {
                (live, Reply::Null)
            } else if has_option(upper, "XX"@) && !live.contains_key(fragments[4]) {
                (live, Reply::Null)
            } else {
                match requested_expiration(fragments, upper, now) {
                    Err(text) => (ks, Reply::Error(text)),
                    Ok(expires_at) => (
                        with_scalar(live, fragments[4], fragments[6], expires_at),
                        Reply::Okay,
                    ),
                }
            }
        },
    }
}

impl CommandStrategy for SetCommand {
    open spec fn apply(
        &self,
        fragments: Seq<Seq<char>>,
        upper: Seq<Seq<char>>,
        ks: Keyspace,
        now: i64,
    ) -> (Keyspace, Reply) {
        set_apply(fragments, upper, ks, now)
    }

    open spec fn argument_error(&self, fragments: Seq<Seq<char>>) -> Option<Reply> {
        count_error("set"@, 7, fragments)
    }

    open spec fn kind(&self) -> CommandType {
        CommandType::Write
    }

    fn check_arguments(&self, fragments: &Vec<String>) -> (r: Option<RespValue>) {
        check_count("set", 7, fragments)
    }

    fn run(
        &self,
        fragments: &Vec<String>,
        upper: &Vec<String>,
        db: &mut Db,
        index: usize,
        now: i64,
    ) -> (reply: RespValue) {
        let ghost f = texts(fragments@);
        let ghost ks = db@[index as int];
        match self.check_arguments(fragments) {
            Some(lacking) => {
                assert(db@ =~= old(db)@.update(index as int, ks));
                return lacking;
            },
            None => {},
        }
        let key = fragments[4].as_str();
        assert(f[4] == key@ && f[6] == fragments@[6]@);
        let due = match db.expiration(index, key) {
            Some(at) => at <= now,
            None => false,
        };
        let present = db.key_exists(index, key) && !due;
        assert(present == expire_key(ks, f[4], now).contains_key(f[4]));
        if present && find_option(upper, "NX") {
            assert(db@ =~= old(db)@.update(index as int, expire_key(ks, f[4], now)));
            return RespValue::Null;
        }
        if !present && find_option(upper, "XX") {
            db.check_and_expire(index, key, now);
            return RespValue::Null;
        }
        let expires_at = match read_expiration(fragments, upper, now) {
            Ok(at) => at,
            Err(text) => {
                assert(db@ =~= old(db)@.update(index as int, ks));
                return RespValue::Error(text);
            },
        };
        db.check_and_expire(index, key, now);
        db.set(index, fragments[4].clone(), fragments[6].clone(), expires_at);
        assert(db@ =~= old(db)@.update(
            index as int,
            with_scalar(expire_key(ks, f[4], now), f[4], f[6], expires_at),
        ));
        RespValue::Okay
    }

    fn execute(
        &self,
        fragments: &Vec<String>,
        db: &mut Db,
        _rudis_config: &RudisConfig,
        sessions: &SessionRegistry,
        session_id: &str,
        now: i64,
    ) -> (outcome: Outcome) {
        match resolve(db, sessions, session_id) {
            Target::Missing => Outcome::SessionMissing,
            Target::OutOfRange => Outcome::Replied(refuse(self.check_arguments(fragments))),
            Target::Database(index) => {
                let upper = uppercased(fragments);
                Outcome::Replied(self.run(fragments, &upper, db, index, now))
            },
        }
    }

    fn command_type(&self) -> (t: CommandType) {
        CommandType::Write
    }
}

} // verus!
