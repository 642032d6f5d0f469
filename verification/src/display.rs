//! How a reply is laid out for display: a stop's name and its arrivals are
//! written with a delimiter between them; every other reply is a message.

use crate::text::{
    find_from, first_index_from, lemma_first_index_from, occurs_at, to_chars, to_string,
};
use vstd::prelude::*;
use vstd::string::StringExecFns;

verus! {

/// What stands between a stop's name and its arrivals in a reply.
pub const DELIMITER: &'static str = "  -  ";

/// The reply that gives `arrival_summary` for the stop `stop_name`.
pub open spec fn paired(stop_name: Seq<char>, arrival_summary: Seq<char>) -> Seq<char> {
    stop_name + DELIMITER@ + arrival_summary
}

/// The two parts in which `reply` is displayed. A reply with the delimiter
/// gives what stands before its first delimiter and what stands between that
/// and the next one, or the end. Any other reply is displayed whole, with an
/// empty second part.
pub open spec fn display_parts(reply: Seq<char>) -> (Seq<char>, Seq<char>) {
    match first_index_from(reply, DELIMITER@, 0) {
        None => (reply, Seq::empty()),
        Some(first) => {
            let start = first + DELIMITER@.len();
            let end = match first_index_from(reply, DELIMITER@, start) {
                Some(second) => second,
                None => reply.len() as int,
            };
            (reply.subrange(0, first), reply.subrange(start, end))
        },
    }
}

/// Writes `stop_name`, the delimiter and `arrival_summary` one after another.
pub fn pair(stop_name: &str, arrival_summary: &str) -> (reply: String)
    ensures
        reply@ == paired(stop_name@, arrival_summary@),
{
    let mut reply = String::from_str(stop_name);
    reply.append(DELIMITER);
    reply.append(arrival_summary);
    reply
}

/// The two parts in which `reply` is displayed.
pub fn split_reply(reply: &str) -> (parts: (String, String))
    ensures
        (parts.0@, parts.1@) == display_parts(reply@),
{
    let chars = to_chars(reply);
    let delimiter = to_chars(DELIMITER);
    proof {
        lemma_first_index_from(chars@, delimiter@, 0);
    }
    match find_from(&chars, &delimiter, 0) {
        None => {
            assert(chars@.subrange(0, chars.len() as int) =~= chars@);
            (to_string(&chars, 0, chars.len()), String::new())
        },
        Some(first) => {
            assert(occurs_at(chars@, delimiter@, first as int));
            assert(first + delimiter.len() <= chars.len());
            let start = first + delimiter.len();
            proof {
                lemma_first_index_from(chars@, delimiter@, start as int);
            }
            let end = match find_from(&chars, &delimiter, start) {
                Some(second) => second,
                None => chars.len(),
            };
            (to_string(&chars, 0, first), to_string(&chars, start, end))
        },
    }
}

} // verus!
