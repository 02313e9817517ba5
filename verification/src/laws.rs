//! Laws that relate the functions of this crate to one another.

use crate::aof::{
    fragments_of, fragments_of_record, marker, record_of, replay, replay_identity,
    replay_sessions_view, separator,
};
use crate::command::lpush::{length_reply, lpush_apply};
use crate::command::set::set_apply;
use crate::command::zadd::zadd_apply;
use crate::command::{
    arity_text, every_other, has_option, is_ttl_unit, last_ttl_unit, not_an_integer_text,
    out_of_range_text, requested_expiration, syntax_error_text, target_of, upper_all,
    CommandStrategy, OutcomeView, Target,
};
use crate::number::{parse_i64_spec, parse_usize_spec};
use crate::registry::{command_in, dispatch_effect, effect_with, persists, Command};
use crate::resp::Reply;
use crate::session::Session;
use crate::store::{
    error_text, expire_key, is_expired, list_at, sorted_set_add_result, sorted_set_at, Keyspace,
    StoreError,
};
use crate::text::{
    contains_pattern, find_from, lemma_find_from, lemma_find_from_skip,
    lemma_occurs_in_suffix, occurs_at,
};
use crate::value::{EntryView, ValueView};
use vstd::prelude::*;
use vstd::string::*;

verus! {

/// Expiration precedes access, in the store: after the expiration check at
/// `now`, a key whose entry was due at `now` is not there.
pub proof fn lemma_expired_key_is_absent(ks: Keyspace, key: Seq<char>, now: i64)
    requires
        ks.contains_key(key),
        is_expired(ks[key], now),
    ensures
        !expire_key(ks, key, now).contains_key(key),
{
}

/// Expiration precedes access, in the commands: a command replies to a
/// request whose key is due as if the key were not there, and leaves the
/// database as if the key had not been there, unless it replies an error and
/// leaves the database as it was.
pub proof fn lemma_command_sees_expired_key_as_absent(
    command: Command,
    fragments: Seq<Seq<char>>,
    upper: Seq<Seq<char>>,
    ks: Keyspace,
    now: i64,
)
    requires
        fragments.len() > 4,
        ks.contains_key(fragments[4]),
        is_expired(ks[fragments[4]], now),
    ensures
        command.apply(fragments, upper, ks, now).1 == command.apply(
            fragments,
            upper,
            ks.remove(fragments[4]),
            now,
        ).1,
        command.apply(fragments, upper, ks, now).0 == command.apply(
            fragments,
            upper,
            ks.remove(fragments[4]),
            now,
        ).0 || (command.apply(fragments, upper, ks, now).1 is Error && command.apply(
            fragments,
            upper,
            ks,
            now,
        ).0 == ks),
{
    let gone = ks.remove(fragments[4]);
    assert(expire_key(ks, fragments[4], now) == gone);
    assert(expire_key(gone, fragments[4], now) == gone);
}

/// An error reply means that nothing changed: a command that replies an
/// error leaves the database as it was.
pub proof fn lemma_error_reply_changes_nothing(
    command: Command,
    fragments: Seq<Seq<char>>,
    upper: Seq<Seq<char>>,
    ks: Keyspace,
    now: i64,
)
    requires
        command.apply(fragments, upper, ks, now).1 is Error,
    ensures
        command.apply(fragments, upper, ks, now).0 == ks,
{
}

/// A request that does not belong in the log changed nothing.
pub proof fn lemma_unrecorded_request_changes_nothing(
    fragments: Seq<Seq<char>>,
    store: Seq<Keyspace>,
    sessions: Map<Seq<char>, Session>,
    session_id: Seq<char>,
    now: i64,
)
    requires
        !persists(fragments, dispatch_effect(fragments, store, sessions, session_id, now).1),
    ensures
        dispatch_effect(fragments, store, sessions, session_id, now).0 == store,
{
    match command_in(upper_all(fragments)) {
        None => {},
        Some(command) => {
            match target_of(store, sessions, session_id) {
                Target::Database(index) => {
                    lemma_error_reply_changes_nothing(
                        command,
                        fragments,
                        upper_all(fragments),
                        store[index as int],
                        now,
                    );
                    assert(store.update(index as int, store[index as int]) =~= store);
                },
                _ => {},
            }
        },
    }
}

/// A record holds the fragments of its request: splitting the record of a
/// request on the marker gives what splitting the request on the field
/// separator gives, for every request that does not itself contain the
/// marker.
pub proof fn lemma_record_round_trip(request: Seq<char>)
    requires
        !contains_pattern(request, marker()),
    ensures
        fragments_of_record(record_of(request)) == fragments_of(request),
    decreases request.len(),
{
    let sep = separator();
    let mark = marker();
    let i = find_from(request, sep, 0);
    lemma_find_from(request, sep, 0);
    if i < 0 {
        lemma_find_from(request, mark, 0);
    } else {
        let n = request.len() as int;
        let rest = request.subrange(i + 2, n);
        let record = request.subrange(0, i) + mark + record_of(rest);
        assert(record_of(request) == record);
        assert(!contains_pattern(rest, mark)) by {
            if contains_pattern(rest, mark) {
                let j = choose|j: int| occurs_at(rest, mark, j);
                lemma_occurs_in_suffix(request, mark, i + 2, j);
                assert(occurs_at(request, mark, i + 2 + j));
            }
        }
        lemma_record_round_trip(rest);
        assert(occurs_at(record, mark, i)) by {
            assert(record.subrange(i, i + 4) =~= mark);
        }
        assert forall|j: int| 0 <= j < i implies !occurs_at(record, mark, j) by {
            if occurs_at(record, mark, j) {
                let found = record.subrange(j, j + 4);
                assert(found == mark);
                if j + 4 <= i {
                    assert(request.subrange(j, j + 4) =~= found);
                    assert(occurs_at(request, mark, j));
                } else {
                    assert(record[i] == mark[0]);
                    assert(record[i + 1] == mark[1]);
                    assert(found[i - j] == record[i]);
                    if i - j == 2 {
                        assert(found[3] == record[i + 1]);
                    }
                }
            }
        }
        lemma_find_from_skip(record, mark, 0, i);
        assert(find_from(record, mark, 0) == i);
        assert(record.subrange(0, i) =~= request.subrange(0, i));
        assert(record.subrange(i + 4, record.len() as int) =~= record_of(rest));
    }
}

/// One request of a live run: who sent it, its text, and the moment at
/// which it was handled.
pub struct LiveStep {
    pub session_id: Seq<char>,
    pub request: Seq<char>,
    pub now: i64,
}

/// The state of a live run: the store, the records in the log, and the
/// moment at which each record's request was handled.
pub struct LiveState {
    pub store: Seq<Keyspace>,
    pub lines: Seq<Seq<char>>,
    pub clock: Seq<i64>,
}

/// The state after one request is handled: the request is dispatched, and
/// its record is appended to the log if it belongs there.
pub open spec fn live_step(
    state: LiveState,
    sessions: Map<Seq<char>, Session>,
    step: LiveStep,
) -> LiveState {
    let fragments = fragments_of(step.request);
    let effect = dispatch_effect(fragments, state.store, sessions, step.session_id, step.now);
    if persists(fragments, effect.1) {
        LiveState {
            store: effect.0,
            lines: state.lines.push(record_of(step.request)),
            clock: state.clock.push(step.now),
        }
    } else {
        LiveState { store: effect.0, lines: state.lines, clock: state.clock }
    }
}

/// The state after the requests `steps` are handled in order.
pub open spec fn run_live(
    state: LiveState,
    sessions: Map<Seq<char>, Session>,
    steps: Seq<LiveStep>,
) -> LiveState
    decreases steps.len(),
{
    if steps.len() == 0 {
        state
    } else {
        live_step(run_live(state, sessions, steps.drop_last()), sessions, steps.last())
    }
}

/// Replay rebuilds the store: after any sequence of requests is handled
/// live, starting with an empty log, replaying the log against the store
/// that the run started from gives the store that the run ended with: the
/// same keys, values and expirations in every database.
///
/// This holds where every session that sends a request works on database
/// `0`, as the replay session does, where no request contains the marker that stands for a field
/// separator in a record, and where replay reads, for each record, the
/// clock that the live run read for its request.
pub proof fn lemma_replay_rebuilds_store(
    start: Seq<Keyspace>,
    sessions: Map<Seq<char>, Session>,
    steps: Seq<LiveStep>,
)
    requires
        forall|i: int|
            0 <= i < steps.len() && sessions.contains_key((#[trigger] steps[i]).session_id)
                ==> sessions[steps[i].session_id].selected_database == 0,
        forall|i: int|
            0 <= i < steps.len() ==> !contains_pattern((#[trigger] steps[i]).request, marker()),
    ensures
        ({
            let fresh = LiveState { store: start, lines: Seq::empty(), clock: Seq::empty() };
            let end = run_live(fresh, sessions, steps);
            &&& end.lines.len() == end.clock.len()
            &&& replay(start, end.lines, end.clock) == end.store
        }),
    decreases steps.len(),
{
    let fresh = LiveState { store: start, lines: Seq::empty(), clock: Seq::empty() };
    if steps.len() > 0 {
        let earlier = steps.drop_last();
        let step = steps.last();
        assert forall|i: int| 0 <= i < earlier.len() implies !contains_pattern(
            (#[trigger] earlier[i]).request,
            marker(),
        ) by {
            assert(earlier[i] == steps[i]);
        }
        assert forall|i: int|
            0 <= i < earlier.len() && sessions.contains_key(
                (#[trigger] earlier[i]).session_id,
            ) implies sessions[earlier[i].session_id].selected_database == 0 by {
            assert(earlier[i] == steps[i]);
        }
        lemma_replay_rebuilds_store(start, sessions, earlier);
        let before = run_live(fresh, sessions, earlier);
        let fragments = fragments_of(step.request);
        let effect = dispatch_effect(fragments, before.store, sessions, step.session_id, step.now);
        assert(steps[steps.len() - 1] == step);
        if persists(fragments, effect.1) {
            lemma_record_round_trip(step.request);
            let lines = before.lines.push(record_of(step.request));
            let clock = before.clock.push(step.now);
            assert(lines.drop_last() =~= before.lines);
            assert(clock.drop_last() =~= before.clock);
            assert(sessions.contains_key(step.session_id));
            assert(sessions[step.session_id].selected_database == 0);
            assert(replay_sessions_view()[replay_identity()].selected_database == 0);
            assert(replay_sessions_view().contains_key(replay_identity()));
        } else {
            lemma_unrecorded_request_changes_nothing(
                fragments,
                before.store,
                sessions,
                step.session_id,
                step.now,
            );
        }
    }
}

/// `NX` holds a `SET` back where the key is there: nothing changes, and the
/// reply is `Null`, whatever the request says of a time to live.
pub proof fn lemma_set_nx_on_present_key(
    fragments: Seq<Seq<char>>,
    upper: Seq<Seq<char>>,
    ks: Keyspace,
    now: i64,
)
    requires
        fragments.len() > 6,
        has_option(upper, "NX"@),
        ks.contains_key(fragments[4]),
        !is_expired(ks[fragments[4]], now),
    ensures
        set_apply(fragments, upper, ks, now) == (ks, Reply::Null),
{
}

/// `XX` holds a `SET` back where the key is not there: nothing changes, and
/// the reply is `Null`, whatever the request says of a time to live.
pub proof fn lemma_set_xx_on_missing_key(
    fragments: Seq<Seq<char>>,
    upper: Seq<Seq<char>>,
    ks: Keyspace,
    now: i64,
)
    requires
        fragments.len() > 6,
        has_option(upper, "XX"@),
        !ks.contains_key(fragments[4]),
    ensures
        set_apply(fragments, upper, ks, now) == (ks, Reply::Null),
{
}

/// `NX` lets a `SET` through where the key is not there: the key then holds
/// the value, and the reply is success.
pub proof fn lemma_set_nx_on_missing_key(
    fragments: Seq<Seq<char>>,
    upper: Seq<Seq<char>>,
    ks: Keyspace,
    now: i64,
)
    requires
        fragments.len() > 6,
        requested_expiration(fragments, upper, now) is Ok,
        has_option(upper, "NX"@),
        !has_option(upper, "XX"@),
        !ks.contains_key(fragments[4]),
    ensures
        set_apply(fragments, upper, ks, now).1 == Reply::Okay,
        set_apply(fragments, upper, ks, now).0 == ks.insert(
            fragments[4],
            EntryView {
                value: ValueView::Scalar(fragments[6]),
                expires_at: requested_expiration(fragments, upper, now)->Ok_0,
            },
        ),
{
}

/// The unit at index `i` is the last one below `below`.
proof fn lemma_last_ttl_unit(upper: Seq<Seq<char>>, below: int, i: int)
    requires
        6 < i < below <= upper.len(),
        is_ttl_unit(upper[i]),
        forall|j: int| i < j < below ==> !is_ttl_unit(#[trigger] upper[j]),
    ensures
        last_ttl_unit(upper, below) == i,
    decreases below,
{
    if below - 1 > i {
        lemma_last_ttl_unit(upper, below - 1, i);
    }
}

/// The time to live of a `SET`: where the last unit in the request is `EX`
/// and its amount is `amount`, the key expires `1000 * amount` milliseconds
/// after `now`; where it is `PX`, `amount` milliseconds after `now`. This is
/// stated for every request that `NX` or `XX` does not hold back, and for
/// every amount that leads to a moment in the range of `i64`.
pub proof fn lemma_set_time_to_live(
    fragments: Seq<Seq<char>>,
    upper: Seq<Seq<char>>,
    ks: Keyspace,
    now: i64,
    i: int,
    amount: i64,
)
    requires
        6 < i < upper.len(),
        i + 2 < fragments.len(),
        is_ttl_unit(upper[i]),
        forall|j: int| i < j < upper.len() ==> !is_ttl_unit(#[trigger] upper[j]),
        parse_i64_spec(fragments[i + 2]) == Some(amount),
        i64::MIN <= now + amount * (if upper[i] == "EX"@ {
            1000int
        } else {
            1int
        }) <= i64::MAX,
        set_apply(fragments, upper, ks, now).1 == Reply::Okay,
    ensures
        set_apply(fragments, upper, ks, now).0.contains_key(fragments[4]),
        upper[i] == "EX"@ ==> set_apply(fragments, upper, ks, now).0[fragments[4]].expires_at
            == Some((now + 1000 * amount) as i64),
        upper[i] == "PX"@ ==> set_apply(fragments, upper, ks, now).0[fragments[4]].expires_at
            == Some((now + amount) as i64),
{
    lemma_last_ttl_unit(upper, upper.len() as int, i);
    reveal_strlit("EX");
    reveal_strlit("PX");
    assert("EX"@[0] != "PX"@[0]);
}

/// The order of `LPUSH`: the values of the request stand at the head of the
/// list, the last of them first, before what the list held; and the reply is
/// the list's new length.
pub proof fn lemma_lpush_order(fragments: Seq<Seq<char>>, ks: Keyspace, now: i64)
    requires
        fragments.len() > 6,
        ({
            let live = expire_key(ks, fragments[4], now);
            !live.contains_key(fragments[4]) || live[fragments[4]].value is List
        }),
    ensures
        ({
            let live = expire_key(ks, fragments[4], now);
            let after = lpush_apply(fragments, ks, now).0;
            &&& list_at(after, fragments[4]) == every_other(fragments, 6).reverse() + list_at(
                live,
                fragments[4],
            )
            &&& lpush_apply(fragments, ks, now).1 == Reply::Integer(
                length_reply(list_at(after, fragments[4]).len()),
            )
        }),
{
    let live = expire_key(ks, fragments[4], now);
    let values = every_other(fragments, 6).reverse();
    if !live.contains_key(fragments[4]) {
        assert(values + Seq::<Seq<char>>::empty() =~= values);
    }
}

/// Adding a member twice: after a member is added to a sorted set, adding
/// it again succeeds, finds the member there, and leaves it with the second
/// score.
pub proof fn lemma_sorted_set_add_twice(
    ks: Keyspace,
    key: Seq<char>,
    member: Seq<char>,
    first: usize,
    second: usize,
)
    requires
        sorted_set_add_result(ks, key, member, first) is Ok,
    ensures
        ({
            let once = sorted_set_add_result(ks, key, member, first)->Ok_0;
            let again = sorted_set_add_result(once, key, member, second);
            &&& sorted_set_at(once, key).contains_key(member)
            &&& sorted_set_at(once, key)[member] == first
            &&& again is Ok
            &&& sorted_set_at(again->Ok_0, key).contains_key(member)
            &&& sorted_set_at(again->Ok_0, key)[member] == second
            &&& sorted_set_at(again->Ok_0, key).dom() == sorted_set_at(once, key).dom()
        }),
{
    let once = sorted_set_add_result(ks, key, member, first)->Ok_0;
    let again = sorted_set_add_result(once, key, member, second);
    assert(sorted_set_at(again->Ok_0, key).dom() =~= sorted_set_at(once, key).dom());
}

/// The count of `ZADD`: the reply is `1` where the member is new and `0`
/// where it was in the set. So after one `ZADD` of a member has succeeded, a
/// second one for the same key and member replies `0` and leaves the member
/// with the second score, provided the set is not due when the second
/// request arrives.
pub proof fn lemma_zadd_counts_new_members(
    first: Seq<Seq<char>>,
    second: Seq<Seq<char>>,
    ks: Keyspace,
    now: i64,
    later: i64,
)
    requires
        first.len() > 8,
        second.len() > 8,
        first[4] == second[4],
        first[8] == second[8],
        parse_usize_spec(second[6]) is Some,
        zadd_apply(first, ks, now).1 is Integer,
        !is_expired(zadd_apply(first, ks, now).0[first[4]], later),
    ensures
        ({
            let live = expire_key(ks, first[4], now);
            let once = zadd_apply(first, ks, now).0;
            let twice = zadd_apply(second, once, later).0;
            &&& zadd_apply(first, ks, now).1 == Reply::Integer(
                if sorted_set_at(live, first[4]).contains_key(first[8]) {
                    0int
                } else {
                    1int
                },
            )
            &&& zadd_apply(second, once, later).1 == Reply::Integer(0)
            &&& sorted_set_at(twice, first[4])[first[8]] == parse_usize_spec(second[6])->0
        }),
{
}

/// A command for another kind of value changes nothing: `ZADD` on a key
/// that holds a text or a list replies the error for a wrong type and leaves
/// the database as it was.
pub proof fn lemma_zadd_wrong_type(fragments: Seq<Seq<char>>, ks: Keyspace, now: i64)
    requires
        fragments.len() > 8,
        parse_usize_spec(fragments[6]) is Some,
        ks.contains_key(fragments[4]),
        !is_expired(ks[fragments[4]], now),
        !(ks[fragments[4]].value is SortedSet),
    ensures
        zadd_apply(fragments, ks, now) == (ks, Reply::Error(error_text(StoreError::WrongType))),
{
}

/// A caller without a session: dispatching for an identity that the
/// registry does not hold gives no reply and leaves the store as it was.
pub proof fn lemma_unknown_session(
    fragments: Seq<Seq<char>>,
    store: Seq<Keyspace>,
    sessions: Map<Seq<char>, Session>,
    session_id: Seq<char>,
    now: i64,
)
    requires
        !sessions.contains_key(session_id),
    ensures
        dispatch_effect(fragments, store, sessions, session_id, now).0 == store,
        !(dispatch_effect(fragments, store, sessions, session_id, now).1 is Replied),
{
}

/// The number of arguments decides first, in a command: a request that
/// lacks arguments gets the reply that says so and leaves the database as it
/// was, whatever the database holds.
pub proof fn lemma_argument_count_decides_first(
    command: Command,
    fragments: Seq<Seq<char>>,
    upper: Seq<Seq<char>>,
    ks: Keyspace,
    now: i64,
)
    requires
        command.argument_error(fragments) is Some,
    ensures
        command.apply(fragments, upper, ks, now) == (ks, command.argument_error(fragments)->0),
{
}

/// The number of arguments decides first, in the dispatcher: for a caller
/// with a session, a request that lacks arguments gets the reply that says
/// so and leaves the store as it was, whether or not the store has the
/// database that the session has selected.
pub proof fn lemma_lacking_arguments_are_reported(
    fragments: Seq<Seq<char>>,
    upper: Seq<Seq<char>>,
    store: Seq<Keyspace>,
    sessions: Map<Seq<char>, Session>,
    session_id: Seq<char>,
    now: i64,
)
    requires
        sessions.contains_key(session_id),
        command_in(upper) matches Some(command) && command.argument_error(fragments) is Some,
    ensures
        effect_with(fragments, upper, store, sessions, session_id, now) == (
            store,
            OutcomeView::Replied(command_in(upper)->0.argument_error(fragments)->0),
        ),
{
    let command = command_in(upper)->0;
    match target_of(store, sessions, session_id) {
        Target::Database(index) => {
            lemma_argument_count_decides_first(
                command,
                fragments,
                upper,
                store[index as int],
                now,
            );
            assert(store.update(index as int, store[index as int]) =~= store);
        },
        _ => {},
    }
}

/// The argument count of `SET`: for a caller with a session, the reply is
/// the error for a wrong number of arguments exactly where the request has
/// no key or no value, and the store is then left as it was.
pub proof fn lemma_set_argument_count(
    fragments: Seq<Seq<char>>,
    upper: Seq<Seq<char>>,
    store: Seq<Keyspace>,
    sessions: Map<Seq<char>, Session>,
    session_id: Seq<char>,
    now: i64,
)
    requires
        sessions.contains_key(session_id),
        command_in(upper) == Some(Command::SetValue),
    ensures
        effect_with(fragments, upper, store, sessions, session_id, now).1 == OutcomeView::Replied(
            Reply::Error(arity_text("set"@)),
        ) <==> fragments.len() < 7,
        fragments.len() < 7 ==> effect_with(
            fragments,
            upper,
            store,
            sessions,
            session_id,
            now,
        ).0 == store,
{
    if fragments.len() < 7 {
        lemma_lacking_arguments_are_reported(fragments, upper, store, sessions, session_id, now);
    } else {
        reveal_strlit("ERR wrong number of arguments for '");
        reveal_strlit("ERR DB index is out of range");
        reveal_strlit("ERR syntax error");
        reveal_strlit("ERR value is not an integer or out of range");
        let lacking = arity_text("set"@);
        assert(lacking[4] == 'w');
        assert(out_of_range_text()[4] == 'D');
        assert(syntax_error_text()[4] == 's');
        assert(not_an_integer_text()[4] == 'v');
    }
}

} // verus!
