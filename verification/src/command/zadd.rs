//! `ZADD key score member`.

use crate::command::{
    check_count, count_error, not_an_integer_text, refuse, resolve, uppercased,
    CommandStrategy, CommandType, Outcome, Target,
};
use crate::number::{parse_usize, parse_usize_spec};
use crate::config::RudisConfig;
use crate::resp::{Reply, RespValue};
use crate::session::SessionRegistry;
use crate::store::{error_text, expire_key, sorted_set_add_result, sorted_set_at, Db, Keyspace};
use crate::text::texts;
use vstd::prelude::*;
use vstd::string::*;

verus! {

/// The command that adds a member to a sorted set, or gives it a new score.
pub struct ZaddCommand {}

/// What `ZADD` makes of the selected database, and what it replies.
///
/// * Without a key, a score and a member: an error, and nothing changes.
/// * With a score that is no natural number, or none that fits: an error,
///   and nothing changes.
/// * Otherwise the key is first checked for expiration. Then the member is
///   in the set with the score, and the reply counts the members that are
///   new: `1`, or `0` where the member was there. Where the key holds
///   something else than a sorted set, the reply is an error and nothing
///   more changes.
pub open spec fn zadd_apply(fragments: Seq<Seq<char>>, ks: Keyspace, now: i64) -> (
    Keyspace,
    Reply,
) {
    if count_error("zadd"@, 9, fragments) is Some {
        (ks, count_error("zadd"@, 9, fragments)->0)
    } else {
        match parse_usize_spec(fragments[6]) {
            None => (ks, Reply::Error(not_an_integer_text())),
            Some(score) => {
                let live = expire_key(ks, fragments[4], now);
                match sorted_set_add_result(live, fragments[4], fragments[8], score) {
                    Ok(after) => (
                        after,
                        Reply::Integer(
                            if sorted_set_at(live, fragments[4]).contains_key(fragments[8]) {
                                0
                            } else {
                                1
                            },
                        ),
                    ),
                    Err(e) => (live, Reply::Error(error_text(e))),
                }
            },
        }
    }
}

impl CommandStrategy for ZaddCommand {
    open spec fn apply(
        &self,
        fragments: Seq<Seq<char>>,
        upper: Seq<Seq<char>>,
        ks: Keyspace,
        now: i64,
    ) -> (Keyspace, Reply) {
        zadd_apply(fragments, ks, now)
    }

    open spec fn argument_error(&self, fragments: Seq<Seq<char>>) -> Option<Reply> {
        count_error("zadd"@, 9, fragments)
    }

    open spec fn kind(&self) -> CommandType {
        CommandType::Write
    }

    fn check_arguments(&self, fragments: &Vec<String>) -> (r: Option<RespValue>) {
        check_count("zadd", 9, fragments)
    }

    fn run(
        &self,
        fragments: &Vec<String>,
        _upper: &Vec<String>,
        db: &mut Db,
        index: usize,
        now: i64,
    ) -> (reply: RespValue) {
        let ghost f = texts(fragments@);
        let ghost ks = db@[index as int];
        match self.check_arguments(fragments) {
            Some(lacking) => {
                assert(db@ =~= old(db)@.update(index as int, ks));
                return lacking;
            },
            None => {},
        }
        let key = fragments[4].as_str();
        let member = fragments[8].as_str();
        assert(f[4] == key@ && f[8] == member@ && f[6] == fragments@[6]@);
        let score: usize = match parse_usize(fragments[6].as_str()) {
            Some(score) => score,
            None => {
                assert(db@ =~= old(db)@.update(index as int, ks));
                return RespValue::Error("ERR value is not an integer or out of range".to_owned());
            },
        };
        db.check_and_expire(index, key, now);
        let ghost live = expire_key(ks, f[4], now);
        match db.sorted_set_add(index, key, member, score) {
            Ok(added) => {
                let ghost after = sorted_set_add_result(live, f[4], f[8], score)->Ok_0;
                assert(db@ =~= old(db)@.update(index as int, after));
                let n: i64 = if added == 0 {
                    0
                } else {
                    1
                };
                RespValue::Integer(n)
            },
            Err(e) => RespValue::Error(e.message()),
        }
    }

    fn execute(
        &self,
        fragments: &Vec<String>,
        db: &mut Db,
        _rudis_config: &RudisConfig,
        sessions: &SessionRegistry,
        session_id: &str,
        now: i64,
    ) -> (outcome: Outcome) {
        match resolve(db, sessions, session_id) {
            Target::Missing => Outcome::SessionMissing,
            Target::OutOfRange => Outcome::Replied(refuse(self.check_arguments(fragments))),
            Target::Database(index) => {
                let upper = uppercased(fragments);
                Outcome::Replied(self.run(fragments, &upper, db, index, now))
            },
        }
    }

    fn command_type(&self) -> (t: CommandType) {
        CommandType::Write
    }
}

} // verus!
