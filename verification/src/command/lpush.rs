//! `LPUSH key value [value ...]`.

use crate::command::{
    check_count, collect_every_other, count_error, every_other, refuse, resolve, uppercased,
    CommandStrategy, CommandType, Outcome, Target,
};
use crate::config::RudisConfig;
use crate::resp::{Reply, RespValue};
use crate::session::SessionRegistry;
use crate::store::{error_text, expire_key, list_at, push_left_result, Db, Keyspace};
use crate::text::texts;
use vstd::prelude::*;
use vstd::string::*;

verus! {

/// The command that pushes values at the head of a list.
pub struct LpushCommand {}

/// A length as the number of a reply: itself, or the greatest `i64` where
/// it does not fit.
pub open spec fn length_reply(n: nat) -> int {
    if n <= i64::MAX {
        n as int
    } else {
        i64::MAX as int
    }
}

/// What `LPUSH` makes of the selected database, and what it replies.
///
/// * Without a key and one value: an error, and nothing changes.
/// * Otherwise the key is first checked for expiration. Then the values are
///   pushed at the head one after the other, so that the last of them
///   becomes the head, and the reply is the list's new length. Where the
///   key holds something else than a list, the reply is an error and
///   nothing more changes.
pub open spec fn lpush_apply(fragments: Seq<Seq<char>>, ks: Keyspace, now: i64) -> (
    Keyspace,
    Reply,
) {
    match count_error("lpush"@, 7, fragments) {
        Some(lacking) => (ks, lacking),
        None => {
            let live = expire_key(ks, fragments[4], now);
            match push_left_result(live, fragments[4], every_other(fragments, 6).reverse()) {
                Ok(after) => (
                    after,
                    Reply::Integer(length_reply(list_at(after, fragments[4]).len())),
                ),
                Err(e) => (live, Reply::Error(error_text(e))),
            }
        },
    }
}

/// The items of `items`, last first.
pub fn reversed(items: &Vec<String>) -> (r: Vec<String>)
    ensures
        texts(r@) == texts(items@).reverse(),
{
    let mut r: Vec<String> = Vec::new();
    let n: usize = items.len();
    let mut i: usize = 0;
    while i < n
        invariant
            n == items.len(),
            i <= n,
            r@.len() == i,
            forall|j: int| 0 <= j < i ==> (#[trigger] r@[j])@ == items@[n - 1 - j]@,
        decreases n - i,
    {
        r.push(items[n - 1 - i].clone());
        i += 1;
    }
    assert(texts(r@) =~= texts(items@).reverse());
    r
}

impl CommandStrategy for LpushCommand {
    open spec fn apply(
        &self,
        fragments: Seq<Seq<char>>,
        upper: Seq<Seq<char>>,
        ks: Keyspace,
        now: i64,
    ) -> (Keyspace, Reply) {
        lpush_apply(fragments, ks, now)
    }

    open spec fn argument_error(&self, fragments: Seq<Seq<char>>) -> Option<Reply> {
        count_error("lpush"@, 7, fragments)
    }

    open spec fn kind(&self) -> CommandType {
        CommandType::Write
    }

    fn check_arguments(&self, fragments: &Vec<String>) -> (r: Option<RespValue>) {
        check_count("lpush", 7, fragments)
    }

    fn run(
        &self,
        fragments: &Vec<String>,
        _upper: &Vec<String>,
        db: &mut Db,
        index: usize,
        now: i64,
    ) -> (reply: RespValue) {
        let ghost f = texts(fragments@);
        let ghost ks = db@[index as int];
        match self.check_arguments(fragments) {
            Some(lacking) => {
                assert(db@ =~= old(db)@.update(index as int, ks));
                return lacking;
            },
            None => {},
        }
        let key = fragments[4].as_str();
        assert(f[4] == key@);
        let values = reversed(&collect_every_other(fragments, 6));
        db.check_and_expire(index, key, now);
        let ghost live = expire_key(ks, f[4], now);
        match db.push_left(index, key, &values) {
            Ok(length) => {
                let ghost after = push_left_result(live, f[4], texts(values@))->Ok_0;
                assert(db@ =~= old(db)@.update(index as int, after));
                let n: i64 = if length as u64 <= i64::MAX as u64 {
                    length as i64
                } else {
                    i64::MAX
                };
                RespValue::Integer(n)
            },
            Err(e) => RespValue::Error(e.message()),
        }
    }

    fn execute(
        &self,
        fragments: &Vec<String>,
        db: &mut Db,
        _rudis_config: &RudisConfig,
        sessions: &SessionRegistry,
        session_id: &str,
        now: i64,
    ) -> (outcome: Outcome) {
        match resolve(db, sessions, session_id) {
            Target::Missing => Outcome::SessionMissing,
            Target::OutOfRange => Outcome::Replied(refuse(self.check_arguments(fragments))),
            Target::Database(index) => {
                let upper = uppercased(fragments);
                Outcome::Replied(self.run(fragments, &upper, db, index, now))
            },
        }
    }

    fn command_type(&self) -> (t: CommandType) {
        CommandType::Write
    }
}

} // verus!
