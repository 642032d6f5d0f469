//! What holds of every lookup, whatever the payloads and the times.

use crate::cache::fresh_in;
use crate::clock::{Timestamp, FRESHNESS_WINDOW_SECS};
use crate::display::{paired, DELIMITER};
use crate::lookup::{
    finish_of, lookup_of, start_of, with_entry, Fetched, LookupState, Action, NOT_A_VALID_STOP,
};
use crate::text::{contains_seq, occurs_at};
use vstd::prelude::*;

verus! {

/// One whole lookup: the identifier, what the request would bring, and the
/// time.
pub struct Request {
    pub id: Seq<char>,
    pub fetched: Fetched,
    pub at: Timestamp,
}

/// `state` after the lookups `requests`, one after another.
pub open spec fn after_requests(state: LookupState, requests: Seq<Request>) -> LookupState
    decreases requests.len(),
{
    if requests.len() == 0 {
        state
    } else {
        let last = requests.last();
        lookup_of(after_requests(state, requests.drop_last()), last.id, last.fetched, last.at).0
    }
}

/// A result that was recorded for an identifier is served again, without a
/// request, at every time less than the freshness window later. From the end
/// of the window on, a lookup of the identifier makes a request, unless the
/// identifier is on the blocklist.
pub proof fn lemma_freshness_window(
    state: LookupState,
    id: Seq<char>,
    value: Seq<char>,
    written: Timestamp,
    now: Timestamp,
)
    ensures
        now.as_nanos() - written.as_nanos() < FRESHNESS_WINDOW_SECS * 1_000_000_000
            ==> start_of(with_entry(state, id, value, written), id, now) == Action::Reply(value),
        now.as_nanos() - written.as_nanos() >= FRESHNESS_WINDOW_SECS * 1_000_000_000
            && !state.invalid.contains(id) ==> start_of(
            with_entry(state, id, value, written),
            id,
            now,
        ) == Action::Fetch,
{
}

/// No lookup takes an identifier off the blocklist.
pub proof fn lemma_blocklist_grows(state: LookupState, requests: Seq<Request>)
    ensures
        state.invalid.subset_of(after_requests(state, requests).invalid),
    decreases requests.len(),
{
    if requests.len() > 0 {
        lemma_blocklist_grows(state, requests.drop_last());
    }
}

/// A lookup of an identifier that is on the blocklist never makes a request,
/// whatever happened in between.
pub proof fn lemma_blocked_is_never_fetched(
    state: LookupState,
    requests: Seq<Request>,
    id: Seq<char>,
    now: Timestamp,
)
    requires
        state.invalid.contains(id),
    ensures
        start_of(after_requests(state, requests), id, now) is Reply,
{
    lemma_blocklist_grows(state, requests);
}

/// The lookups `requests` leave the cache entry of a blocked identifier as it
/// was, where that entry was stale at `since` and no lookup is made before
/// `since`.
proof fn lemma_blocked_entry_stays(
    state: LookupState,
    id: Seq<char>,
    since: Timestamp,
    requests: Seq<Request>,
)
    requires
        state.invalid.contains(id),
        !fresh_in(state.cache, id, FRESHNESS_WINDOW_SECS, since),
        forall|i: int|
            0 <= i < requests.len() ==> since.as_nanos() <= (#[trigger] requests[i]).at.as_nanos(),
    ensures
        after_requests(state, requests).invalid.contains(id),
        after_requests(state, requests).cache.contains_key(id) == state.cache.contains_key(id),
        state.cache.contains_key(id) ==> after_requests(state, requests).cache[id]
            == state.cache[id],
    decreases requests.len(),
{
    if requests.len() > 0 {
        let earlier = requests.drop_last();
        assert forall|i: int| 0 <= i < earlier.len() implies since.as_nanos() <= (
        #[trigger] earlier[i]).at.as_nanos() by {
            assert(earlier[i] == requests[i]);
        }
        lemma_blocked_entry_stays(state, id, since, earlier);
        let last = requests.last();
        assert(last == requests[requests.len() - 1]);
    }
}

/// Once an identifier is on the blocklist and has no fresh result, every
/// later lookup of it is answered with the refusal, makes no request and
/// changes nothing, whatever lookups are made in between.
pub proof fn lemma_blocklist_permanence(
    state: LookupState,
    id: Seq<char>,
    since: Timestamp,
    requests: Seq<Request>,
    fetched: Fetched,
    now: Timestamp,
)
    requires
        state.invalid.contains(id),
        !fresh_in(state.cache, id, FRESHNESS_WINDOW_SECS, since),
        forall|i: int|
            0 <= i < requests.len() ==> since.as_nanos() <= (#[trigger] requests[i]).at.as_nanos(),
        since.as_nanos() <= now.as_nanos(),
    ensures
        start_of(after_requests(state, requests), id, now) == Action::Reply(NOT_A_VALID_STOP@),
        lookup_of(after_requests(state, requests), id, fetched, now) == (
            after_requests(state, requests),
            NOT_A_VALID_STOP@,
        ),
{
    lemma_blocked_entry_stays(state, id, since, requests);
}

/// A lookup that ends with the refusal of a stop leaves the identifier on
/// the blocklist and without a fresh result: the state from which
/// `lemma_blocklist_permanence` starts.
pub proof fn lemma_denied_stop_is_blocked(
    state: LookupState,
    id: Seq<char>,
    fetched: Fetched,
    now: Timestamp,
)
    requires
        start_of(state, id, now) is Fetch,
        finish_of(state, id, fetched, now).0.invalid.contains(id),
    ensures
        lookup_of(state, id, fetched, now).0.invalid.contains(id),
        !fresh_in(lookup_of(state, id, fetched, now).0.cache, id, FRESHNESS_WINDOW_SECS, now),
        lookup_of(state, id, fetched, now).1 == NOT_A_VALID_STOP@,
{
}

/// The same outcome for the same identifier, taken in twice, leaves what
/// taking it in once at the later time leaves: the second result takes the
/// place of the first, and the reply is the same.
pub proof fn lemma_finish_twice(
    state: LookupState,
    id: Seq<char>,
    fetched: Fetched,
    first: Timestamp,
    second: Timestamp,
)
    ensures
        finish_of(finish_of(state, id, fetched, first).0, id, fetched, second) == finish_of(
            state,
            id,
            fetched,
            second,
        ),
        finish_of(state, id, fetched, second).1 == finish_of(state, id, fetched, first).1,
{
    let once = finish_of(state, id, fetched, first).0;
    assert(finish_of(once, id, fetched, second).0 =~= finish_of(state, id, fetched, second).0);
}

/// One outcome changes the cache or the blocklist, never both.
pub proof fn lemma_one_structure_changes(
    state: LookupState,
    id: Seq<char>,
    fetched: Fetched,
    now: Timestamp,
)
    ensures
        finish_of(state, id, fetched, now).0.cache == state.cache || finish_of(
            state,
            id,
            fetched,
            now,
        ).0.invalid == state.invalid,
{
}

/// The outcomes of two different identifiers can be taken in in either
/// order: the state is the same, and neither reply depends on the other
/// outcome.
pub proof fn lemma_distinct_outcomes_commute(
    state: LookupState,
    id: Seq<char>,
    fetched: Fetched,
    at: Timestamp,
    other_id: Seq<char>,
    other_fetched: Fetched,
    other_at: Timestamp,
)
    requires
        id != other_id,
    ensures
        finish_of(finish_of(state, id, fetched, at).0, other_id, other_fetched, other_at).0
            == finish_of(
            finish_of(state, other_id, other_fetched, other_at).0,
            id,
            fetched,
            at,
        ).0,
        finish_of(finish_of(state, id, fetched, at).0, other_id, other_fetched, other_at).1
            == finish_of(state, other_id, other_fetched, other_at).1,
        finish_of(finish_of(state, other_id, other_fetched, other_at).0, id, fetched, at).1
            == finish_of(state, id, fetched, at).1,
{
    let one = finish_of(finish_of(state, id, fetched, at).0, other_id, other_fetched, other_at).0;
    let other = finish_of(
        finish_of(state, other_id, other_fetched, other_at).0,
        id,
        fetched,
        at,
    ).0;
    assert(one =~= other);
}

/// The stop's name and the arrivals can be told apart in their reply: the
/// delimiter between them is the only one. That is so where neither part
/// holds the delimiter and none begins where the two parts meet it.
pub open spec fn keeps_delimiter_apart(stop_name: Seq<char>, arrival_summary: Seq<char>) -> bool {
    &&& !contains_seq(stop_name, DELIMITER@)
    &&& !contains_seq(arrival_summary, DELIMITER@)
    &&& !DELIMITER@.subrange(0, 3).is_suffix_of(stop_name)
    &&& !DELIMITER@.subrange(0, 4).is_suffix_of(stop_name)
    &&& !DELIMITER@.subrange(2, 5).is_prefix_of(arrival_summary)
    &&& !DELIMITER@.subrange(1, 5).is_prefix_of(arrival_summary)
}

/// The reply for predictions holds the delimiter right behind the stop's
/// name.
pub proof fn lemma_delimiter_present(stop_name: Seq<char>, arrival_summary: Seq<char>)
    ensures
        occurs_at(paired(stop_name, arrival_summary), DELIMITER@, stop_name.len() as int),
        contains_seq(paired(stop_name, arrival_summary), DELIMITER@),
{
    let reply = paired(stop_name, arrival_summary);
    let at = stop_name.len() as int;
    assert(reply.subrange(at, at + DELIMITER@.len()) =~= DELIMITER@);
}

/// Where a delimiter of five characters, a hyphen between two pairs of
/// blanks, stands in `stop_name + delimiter + arrival_summary` at another
/// index than the end of `stop_name`, one of the two parts holds it or runs
/// into it.
proof fn lemma_second_occurrence(
    stop_name: Seq<char>,
    delimiter: Seq<char>,
    arrival_summary: Seq<char>,
    i: int,
)
    requires
        delimiter.len() == 5,
        delimiter[0] == ' ',
        delimiter[1] == ' ',
        delimiter[2] == '-',
        delimiter[3] == ' ',
        delimiter[4] == ' ',
        occurs_at(stop_name + delimiter + arrival_summary, delimiter, i),
        i != stop_name.len(),
    ensures
        contains_seq(stop_name, delimiter) || contains_seq(arrival_summary, delimiter)
            || delimiter.subrange(0, 3).is_suffix_of(stop_name) || delimiter.subrange(
            0,
            4,
        ).is_suffix_of(stop_name) || delimiter.subrange(2, 5).is_prefix_of(arrival_summary)
            || delimiter.subrange(1, 5).is_prefix_of(arrival_summary),
{
    let reply = stop_name + delimiter + arrival_summary;
    let n = stop_name.len() as int;
    let found = reply.subrange(i, i + 5);
    assert(found == delimiter);
    assert(reply[i] == found[0]);
    assert(reply[i + 1] == found[1]);
    assert(reply[i + 2] == found[2]);
    assert(reply[i + 3] == found[3]);
    assert(reply[i + 4] == found[4]);
    if i + 5 <= n {
        assert(stop_name.subrange(i, i + 5) =~= delimiter);
        assert(occurs_at(stop_name, delimiter, i));
    } else if i >= n + 5 {
        assert(arrival_summary.subrange(i - n - 5, i - n) =~= delimiter);
        assert(occurs_at(arrival_summary, delimiter, i - n - 5));
    } else if i == n - 4 {
        assert(delimiter.subrange(0, 4) =~= stop_name.subrange(n - 4, n));
    } else if i == n - 3 {
        assert(delimiter.subrange(0, 3) =~= stop_name.subrange(n - 3, n));
    } else if i == n - 2 {
        assert(reply[i + 2] == delimiter[0]);
    } else if i == n - 1 {
        assert(reply[i + 2] == delimiter[1]);
    } else if i == n + 1 {
        assert(reply[i + 2] == delimiter[3]);
    } else if i == n + 2 {
        assert(reply[i + 2] == delimiter[4]);
    } else if i == n + 3 {
        assert(delimiter.subrange(2, 5) =~= arrival_summary.subrange(0, 3));
    } else {
        assert(i == n + 4);
        assert(delimiter.subrange(1, 5) =~= arrival_summary.subrange(0, 4));
    }
}

/// The reply for predictions holds the delimiter exactly once, between the
/// stop's name and the arrivals, where the two keep it apart.
pub proof fn lemma_delimiter_once(stop_name: Seq<char>, arrival_summary: Seq<char>)
    requires
        keeps_delimiter_apart(stop_name, arrival_summary),
    ensures
        forall|i: int|
            occurs_at(paired(stop_name, arrival_summary), DELIMITER@, i) <==> i
                == stop_name.len(),
{
    lemma_delimiter_present(stop_name, arrival_summary);
    let delimiter = DELIMITER@;
    assert(delimiter.len() == 5 && delimiter[0] == ' ' && delimiter[1] == ' ' && delimiter[2]
        == '-' && delimiter[3] == ' ' && delimiter[4] == ' ') by {
        reveal_strlit("  -  ");
    }
    assert forall|i: int|
        occurs_at(paired(stop_name, arrival_summary), delimiter, i) implies i
        == stop_name.len() by {
        if i != stop_name.len() {
            lemma_second_occurrence(stop_name, delimiter, arrival_summary, i);
        }
    }
}

} // verus!
