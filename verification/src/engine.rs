//! The path of one request: from its text to the store's new state, the
//! reply, and the line that goes to the log.

use crate::aof::{encode_record, fragments_of, record_of, split_request, Aof};
use crate::command::Outcome;
use crate::registry::{dispatch, dispatch_effect, persists, should_persist};
use crate::session::SessionRegistry;
use crate::store::Db;
use vstd::prelude::*;
use vstd::string::*;

verus! {

/// Handles the request `request` of the caller `session_id` at the moment
/// `now`: splits it into fragments, dispatches them, and returns how the
/// command ended together with the text to append to the log file, if the
/// request belongs there and commands are recorded.
pub fn handle_request(
    request: &str,
    db: &mut Db,
    sessions: &SessionRegistry,
    aof: &Aof,
    session_id: &str,
    now: i64,
) -> (r: (Outcome, Option<String>))
    ensures
        (final(db)@, r.0@) == dispatch_effect(
            fragments_of(request@),
            old(db)@,
            sessions@,
            session_id@,
            now,
        ),
        r.1 is Some == (aof.enabled() && persists(fragments_of(request@), r.0@)),
        r.1 is Some ==> r.1->0@ == record_of(request@) + seq!['\n'],
{
    let fragments = split_request(request);
    let outcome = dispatch(&fragments, db, &aof.rudis_config, sessions, session_id, now);
    if should_persist(&fragments, &outcome) {
        let record = encode_record(request);
        let line = aof.save(record.as_str());
        (outcome, line)
    } else {
        (outcome, None)
    }
}

} // verus!
