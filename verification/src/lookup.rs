//! The lookup of a stop's arrivals, as the decisions before and after the
//! request to the prediction service. The request itself is the caller's:
//! `run` takes what happened and says what to do next. Asked for a stop, it
//! either has the reply or wants the request made; handed what the request
//! brought, it records it and has the reply. Nothing here waits, so a caller
//! that shares the state need not hold it while the request is under way.

use crate::blocklist::IdentifierBlocklist;
use crate::cache::{fresh_in, EntryView, FreshnessCache};
use crate::classifier::{classification_of, classify, Classification, ClassifiedResponse};
use crate::clock::{read_clock, Timestamp, FRESHNESS_WINDOW_SECS};
use crate::display::{pair, paired};
use crate::text::{contains, contains_seq, lowercased, to_chars};
use vstd::prelude::*;
use vstd::string::StringExecFns;

verus! {

/// The reply for an identifier that the prediction service does not know.
pub const NOT_A_VALID_STOP: &'static str = "Not a valid stop id";

/// The reply when the request to the prediction service failed.
pub const TRANSPORT_ERROR: &'static str = "There was an error sending the request";

/// The reply to a payload that is neither predictions nor a message.
pub const UNKNOWN_FORMAT: &'static str = "Unknown response format";

/// The words, in lower case, by which the prediction service says that it
/// does not know an identifier.
pub const UNKNOWN_STOP_PHRASE: &'static str = "no data found for parameter";

/// Where the prediction service is asked, up to the credential.
pub const URL_BASE: &'static str =
    "http://www.ctabustracker.com/bustime/api/v2/getpredictions?key=";

/// What stands between the credential and the identifier in a request.
pub const URL_STOP_PARAMETER: &'static str = "&stpid=";

/// The message `text` says, in whatever case, that the service does not know
/// the identifier.
pub open spec fn denies_stop(text: Seq<char>) -> bool {
    contains_seq(lowercased(text), UNKNOWN_STOP_PHRASE@)
}

/// The cache and the blocklist as a lookup sees them.
#[verifier::ext_equal]
pub struct LookupState {
    pub cache: Map<Seq<char>, EntryView>,
    pub invalid: Set<Seq<char>>,
}

/// `state` after `value`, recorded at `now`, became the entry of `id`.
pub open spec fn with_entry(
    state: LookupState,
    id: Seq<char>,
    value: Seq<char>,
    now: Timestamp,
) -> LookupState {
    LookupState {
        cache: state.cache.insert(id, EntryView { value, recorded_at: now }),
        invalid: state.invalid,
    }
}

/// `state` after `id` was put on the blocklist.
pub open spec fn with_invalid(state: LookupState, id: Seq<char>) -> LookupState {
    LookupState { cache: state.cache, invalid: state.invalid.insert(id) }
}

/// What is to be done next in a lookup, over sequences of characters.
pub enum Action {
    Reply(Seq<char>),
    Fetch,
}

/// What a request to the prediction service brought, over sequences of
/// characters.
pub enum Fetched {
    Body(Seq<char>),
    TransportFailure,
}

/// What happened in a lookup, over sequences of characters.
pub enum Event {
    Requested,
    Fetched(Fetched),
}

/// How a lookup of `id` starts at `now`: with the cached result where it is
/// fresh, else with the refusal of a blocked identifier, else with a request.
pub open spec fn start_of(state: LookupState, id: Seq<char>, now: Timestamp) -> Action {
    if fresh_in(state.cache, id, FRESHNESS_WINDOW_SECS, now) {
        Action::Reply(state.cache[id].value)
    } else if state.invalid.contains(id) {
        Action::Reply(NOT_A_VALID_STOP@)
    } else {
        Action::Fetch
    }
}

/// The state and the reply after predictions came for `id`: the reply is
/// cached.
pub open spec fn after_predictions(
    state: LookupState,
    id: Seq<char>,
    stop_name: Seq<char>,
    arrival_summary: Seq<char>,
    now: Timestamp,
) -> (LookupState, Seq<char>) {
    let reply = paired(stop_name, arrival_summary);
    (with_entry(state, id, reply, now), reply)
}

/// The state and the reply after the message `text` came for `id`: a message
/// that denies the stop puts `id` on the blocklist and is not cached; any
/// other message is cached and passed on as it is.
pub open spec fn after_message(
    state: LookupState,
    id: Seq<char>,
    text: Seq<char>,
    now: Timestamp,
) -> (LookupState, Seq<char>) {
    if denies_stop(text) {
        (with_invalid(state, id), NOT_A_VALID_STOP@)
    } else {
        (with_entry(state, id, text, now), text)
    }
}

/// The state and the reply after the payload `body` came for `id`.
pub open spec fn after_response(
    state: LookupState,
    id: Seq<char>,
    body: Seq<char>,
    now: Timestamp,
) -> (LookupState, Seq<char>) {
    match classification_of(body) {
        Classification::Predictions { stop_name, arrival_summary } => after_predictions(
            state,
            id,
            stop_name,
            arrival_summary,
            now,
        ),
        Classification::Message { text } => after_message(state, id, text, now),
        Classification::Unrecognized => (state, UNKNOWN_FORMAT@),
    }
}

/// The state and the reply after the request for `id` ended with `fetched`.
/// A failed request changes nothing.
pub open spec fn finish_of(
    state: LookupState,
    id: Seq<char>,
    fetched: Fetched,
    now: Timestamp,
) -> (LookupState, Seq<char>) {
    match fetched {
        Fetched::Body(body) => after_response(state, id, body, now),
        Fetched::TransportFailure => (state, TRANSPORT_ERROR@),
    }
}

/// The state and what is to be done next after `event` happened at `now` in
/// the lookup of `id`.
pub open spec fn run_of(
    state: LookupState,
    id: Seq<char>,
    event: Event,
    now: Timestamp,
) -> (LookupState, Action) {
    match event {
        Event::Requested => (state, start_of(state, id, now)),
        Event::Fetched(fetched) => {
            let (after, reply) = finish_of(state, id, fetched, now);
            (after, Action::Reply(reply))
        },
    }
}

/// The state and the reply after a whole lookup of `id` at `now`, where the
/// request, if one is made, is answered at once with `fetched`.
pub open spec fn lookup_of(
    state: LookupState,
    id: Seq<char>,
    fetched: Fetched,
    now: Timestamp,
) -> (LookupState, Seq<char>) {
    match start_of(state, id, now) {
        Action::Reply(reply) => (state, reply),
        Action::Fetch => finish_of(state, id, fetched, now),
    }
}

/// What is to be done next in a lookup.
#[derive(Debug, PartialEq, Eq)]
pub enum LookupAction {
    /// The lookup is over: this is its reply.
    Reply(String),
    /// The prediction service has to be asked, and `run` called again with
    /// what it brought.
    Fetch,
}

impl View for LookupAction {
    type V = Action;

    open spec fn view(&self) -> Action {
        match self {
            LookupAction::Reply(reply) => Action::Reply(reply@),
            LookupAction::Fetch => Action::Fetch,
        }
    }
}

/// What a request to the prediction service brought.
#[derive(Debug, PartialEq, Eq)]
pub enum FetchOutcome {
    /// The text of the response.
    Body(String),
    /// The request could not be made, or its response could not be read.
    TransportFailure,
}

impl View for FetchOutcome {
    type V = Fetched;

    open spec fn view(&self) -> Fetched {
        match self {
            FetchOutcome::Body(body) => Fetched::Body(body@),
            FetchOutcome::TransportFailure => Fetched::TransportFailure,
        }
    }
}

/// What happened in a lookup.
#[derive(Debug, PartialEq, Eq)]
pub enum LookupEvent {
    /// The stop was asked for.
    Requested,
    /// The request to the prediction service ended.
    Fetched(FetchOutcome),
}

impl View for LookupEvent {
    type V = Event;

    open spec fn view(&self) -> Event {
        match self {
            LookupEvent::Requested => Event::Requested,
            LookupEvent::Fetched(fetched) => Event::Fetched(fetched@),
        }
    }
}

/// The address at which the prediction service is asked about `stop_id`
/// with the credential `api_key`.
pub fn construct_url(api_key: &str, stop_id: &str) -> (url: String)
    ensures
        url@ == URL_BASE@ + api_key@ + URL_STOP_PARAMETER@ + stop_id@,
{
    let mut url = String::from_str(URL_BASE);
    url.append(api_key);
    url.append(URL_STOP_PARAMETER);
    url.append(stop_id);
    url
}

/// Whether `lowered`, a text in lower case, holds the words by which the
/// prediction service denies a stop.
pub fn holds_unknown_stop_phrase(lowered: &str) -> (found: bool)
    ensures
        found == contains_seq(lowered@, UNKNOWN_STOP_PHRASE@),
{
    let text = to_chars(lowered);
    let phrase = to_chars(UNKNOWN_STOP_PHRASE);
    contains(&text, &phrase)
}

/// Whether the message `text` says, in whatever case, that the service does
/// not know the identifier.
pub fn is_unknown_stop_message(text: &str) -> (denied: bool)
    ensures
        denied == denies_stop(text@),
{
    let lowered = text.to_lowercase();
    holds_unknown_stop_phrase(lowered.as_str())
}

/// The cache and the blocklist of one lookup service.
pub struct ArrivalLookup {
    pub cache: FreshnessCache,
    pub blocklist: IdentifierBlocklist,
}

impl View for ArrivalLookup {
    type V = LookupState;

    open spec fn view(&self) -> LookupState {
        LookupState { cache: self.cache@, invalid: self.blocklist@ }
    }
}

impl ArrivalLookup {
    /// A lookup service that has seen nothing yet.
    pub fn new() -> (lookup: ArrivalLookup)
        ensures
            lookup@.cache == Map::<Seq<char>, EntryView>::empty(),
            lookup@.invalid == Set::<Seq<char>>::empty(),
    {
        ArrivalLookup { cache: FreshnessCache::new(), blocklist: IdentifierBlocklist::new() }
    }

    /// Starts a lookup of `stop_id` at `now`. Nothing is changed.
    pub fn start_at(&self, stop_id: &str, now: Timestamp) -> (action: LookupAction)
        ensures
            action@ == start_of(self@, stop_id@, now),
    {
        if self.cache.is_fresh(stop_id, FRESHNESS_WINDOW_SECS, now) {
            LookupAction::Reply(self.cache.get(stop_id).unwrap())
        } else if self.blocklist.is_known_invalid(stop_id) {
            LookupAction::Reply(NOT_A_VALID_STOP.to_owned())
        } else {
            LookupAction::Fetch
        }
    }

    /// Records predictions for `stop_id` and gives the reply: the stop's
    /// name, the delimiter and the arrivals.
    pub fn handle_predictions(
        &mut self,
        stop_id: &str,
        stop_name: &str,
        arrival_summary: &str,
        now: Timestamp,
    ) -> (reply: String)
        ensures
            (final(self)@, reply@) == after_predictions(
                old(self)@,
                stop_id@,
                stop_name@,
                arrival_summary@,
                now,
            ),
    {
        let result = pair(stop_name, arrival_summary);
        self.cache.put(stop_id, result.clone(), now);
        assert(self@ =~= with_entry(old(self)@, stop_id@, result@, now));
        result
    }

    /// Records the message `message` for `stop_id` and gives the reply. A
    /// message that denies the stop puts `stop_id` on the blocklist; any
    /// other message is cached and passed on.
    pub fn handle_message(&mut self, stop_id: &str, message: String, now: Timestamp) -> (reply:
        String)
        ensures
            (final(self)@, reply@) == after_message(old(self)@, stop_id@, message@, now),
    {
        if is_unknown_stop_message(message.as_str()) {
            self.blocklist.mark_invalid(stop_id);
            assert(self@ =~= with_invalid(old(self)@, stop_id@));
            NOT_A_VALID_STOP.to_owned()
        } else {
            self.cache.put(stop_id, message.clone(), now);
            assert(self@ =~= with_entry(old(self)@, stop_id@, message@, now));
            message
        }
    }

    /// Classifies the payload `body` that came for `stop_id`, records what it
    /// says and gives the reply.
    pub fn handle_response(&mut self, stop_id: &str, body: &str, now: Timestamp) -> (reply:
        String)
        ensures
            (final(self)@, reply@) == after_response(old(self)@, stop_id@, body@, now),
    {
        match classify(body) {
            ClassifiedResponse::Predictions { stop_name, arrival_summary } => {
                self.handle_predictions(
                    stop_id,
                    stop_name.as_str(),
                    arrival_summary.as_str(),
                    now,
                )
            },
            ClassifiedResponse::Message { text } => self.handle_message(stop_id, text, now),
            ClassifiedResponse::Unrecognized => UNKNOWN_FORMAT.to_owned(),
        }
    }

    /// Ends the lookup of `stop_id` with what its request brought at `now`.
    pub fn finish_at(&mut self, stop_id: &str, fetched: &FetchOutcome, now: Timestamp) -> (reply:
        String)
        ensures
            (final(self)@, reply@) == finish_of(old(self)@, stop_id@, fetched@, now),
    {
        match fetched {
            FetchOutcome::Body(body) => self.handle_response(stop_id, body.as_str(), now),
            FetchOutcome::TransportFailure => TRANSPORT_ERROR.to_owned(),
        }
    }

    /// Takes `event`, which happened at `now` in the lookup of `stop_id`,
    /// and says what is to be done next.
    pub fn run_at(&mut self, stop_id: &str, event: &LookupEvent, now: Timestamp) -> (action:
        LookupAction)
        ensures
            (final(self)@, action@) == run_of(old(self)@, stop_id@, event@, now),
    {
        match event {
            LookupEvent::Requested => self.start_at(stop_id, now),
            LookupEvent::Fetched(fetched) => LookupAction::Reply(
                self.finish_at(stop_id, fetched, now),
            ),
        }
    }

    /// Takes `event`, which happened just now in the lookup of `stop_id`, and
    /// says what is to be done next. The time is read from the wall clock, so
    /// the contract holds for some time, not for a given one.
    pub fn run(&mut self, stop_id: &str, event: &LookupEvent) -> (action: LookupAction)
        ensures
            exists|now: Timestamp|
                (final(self)@, action@) == #[trigger] run_of(old(self)@, stop_id@, event@, now),
    {
        let now = read_clock();
        self.run_at(stop_id, event, now)
    }
}

} // verus!
