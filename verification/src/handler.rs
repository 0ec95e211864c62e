//! Per-connection request handling: one read's worth of bytes is one
//! message, which is parsed, run against the shared cache, and answered with
//! one response line. Reading from and writing to the stream stay with the
//! caller; this module owns every decision in between.

use vstd::prelude::*;

use crate::cache::SimpleCache;
use crate::protocol::{
    get_response, missing_key_response, missing_key_value_response, ok_response, parse_command,
    remove_response, spec_get_response, spec_parse, spec_remove_response, spec_unknown_response,
    unknown_response, view_of_result, Command, CommandView,
};

verus! {

/// How many bytes one blocking read may hand to [`handle_message`]: whatever
/// a single read returns is treated as one whole message.
pub const BUFFER_SIZE: usize = 512;

/// What the response to a command must look like. For `PUT` and the three
/// error shapes the exact line is pinned; for `GET` and `DEL`/`RM` the line
/// is the formatting of whatever the cache answered at the instant the lock
/// was held, which only the cache's own contracts (on `Store`) pin further.
pub open spec fn spec_response_post(c: CommandView, r: Seq<char>) -> bool {
    match c {
        CommandView::Get { key } => exists|v: Option<Seq<char>>| r == spec_get_response(v),
        CommandView::Put { key, value, ttl } => r == "OK\n"@,
        CommandView::Remove { key } => exists|v: Option<Seq<char>>| r == spec_remove_response(v),
        CommandView::MissingKey => r == "Error: Missing key\n"@,
        CommandView::MissingKeyValue => r == "Error: Missing key & value\n"@,
        CommandView::Unknown { name } => r == spec_unknown_response(name),
    }
}

/// Run one parsed command against the cache and format the response line.
pub fn dispatch(cache: &SimpleCache, cmd: Command) -> (r: String)
    ensures
        spec_response_post(cmd@, r@),
{
    match cmd {
        Command::Get { key } => {
            let got = cache.get(key.as_str());
            let ghost w = view_of_result(got);
            let resp = get_response(got);
            proof {
                assert(resp@ == spec_get_response(w));
            }
            resp
        },
        Command::Put { key, value, ttl } => {
            cache.put(key, value, ttl);
            ok_response()
        },
        Command::Remove { key } => {
            let got = cache.remove(key.as_str());
            let ghost w = view_of_result(got);
            let resp = remove_response(got);
            proof {
                assert(resp@ == spec_remove_response(w));
            }
            resp
        },
        Command::MissingKey => missing_key_response(),
        Command::MissingKeyValue => missing_key_value_response(),
        Command::Unknown { name } => unknown_response(&name),
    }
}

/// Handle one message from a client: parse it, run it, and hand back the
/// response line to write, or nothing for a message with no tokens (which
/// gets no response at all).
pub fn handle_message(cache: &SimpleCache, msg: &[u8]) -> (r: Option<String>)
    ensures
        match spec_parse(msg@) {
            Some(c) => r matches Some(resp) && spec_response_post(c, resp@),
            None => r is None,
        },
{
    match parse_command(msg) {
        Some(cmd) => Some(dispatch(cache, cmd)),
        None => None,
    }
}

} // verus!
