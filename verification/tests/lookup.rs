use busplug::clock::Timestamp;
use busplug::display::{pair, split_reply, DELIMITER};
use busplug::lookup::{
    construct_url, holds_unknown_stop_phrase, is_unknown_stop_message, ArrivalLookup,
    FetchOutcome, LookupAction, LookupEvent, NOT_A_VALID_STOP, TRANSPORT_ERROR, UNKNOWN_FORMAT,
};

fn at(secs: i64) -> Timestamp {
    Timestamp { secs, nanos: 0 }
}

fn body(text: &str) -> FetchOutcome {
    FetchOutcome::Body(text.to_string())
}

fn reply(text: &str) -> LookupAction {
    LookupAction::Reply(text.to_string())
}

const PREDICTIONS: &str =
    "<stpnm>Main &amp; 5th</stpnm><prdctdn>4 min</prdctdn><prdctdn>12 min</prdctdn>";

#[test]
fn a_new_lookup_service_asks_for_every_identifier() {
    let lookup = ArrivalLookup::new();
    assert_eq!(lookup.start_at("1001", at(0)), LookupAction::Fetch);
    assert_eq!(lookup.start_at("", at(1_000)), LookupAction::Fetch);
    assert_eq!(lookup.cache.get("1001"), None);
    assert!(!lookup.blocklist.is_known_invalid("1001"));
}

#[test]
fn predictions_are_composed_cached_and_returned() {
    let mut lookup = ArrivalLookup::new();
    let answer = lookup.finish_at("1001", &body(PREDICTIONS), at(100));
    assert_eq!(answer, "Main & 5th  -  4 min...12 min...");
    assert_eq!(lookup.cache.get("1001"), Some("Main & 5th  -  4 min...12 min...".to_string()));
    assert!(!lookup.blocklist.is_known_invalid("1001"));
}

#[test]
fn a_denied_stop_is_blocked_and_not_cached() {
    let mut lookup = ArrivalLookup::new();
    let answer =
        lookup.finish_at("99999", &body("<msg>No data found for parameter stpid</msg>"), at(100));
    assert_eq!(answer, "Not a valid stop id");
    assert!(lookup.blocklist.is_known_invalid("99999"));
    assert_eq!(lookup.cache.get("99999"), None);
}

#[test]
fn another_message_is_cached_as_it_is() {
    let mut lookup = ArrivalLookup::new();
    let answer = lookup.finish_at("1001", &body("<msg>No predicted times</msg>"), at(100));
    assert_eq!(answer, "No predicted times");
    assert_eq!(lookup.cache.get("1001"), Some("No predicted times".to_string()));
    assert!(!lookup.blocklist.is_known_invalid("1001"));
}

#[test]
fn an_unknown_format_changes_nothing() {
    let mut lookup = ArrivalLookup::new();
    let answer = lookup.finish_at("1001", &body("<html>Bad gateway</html>"), at(100));
    assert_eq!(answer, "Unknown response format");
    assert_eq!(answer, UNKNOWN_FORMAT);
    assert_eq!(lookup.cache.get("1001"), None);
    assert!(!lookup.blocklist.is_known_invalid("1001"));
    assert_eq!(lookup.start_at("1001", at(100)), LookupAction::Fetch);
}

#[test]
fn a_failed_request_changes_nothing() {
    let mut lookup = ArrivalLookup::new();
    lookup.finish_at("1001", &body("<msg>earlier</msg>"), at(0));
    let answer = lookup.finish_at("1001", &FetchOutcome::TransportFailure, at(100));
    assert_eq!(answer, "There was an error sending the request");
    assert_eq!(answer, TRANSPORT_ERROR);
    assert_eq!(lookup.cache.get("1001"), Some("earlier".to_string()));
    assert!(!lookup.blocklist.is_known_invalid("1001"));
    assert_eq!(lookup.start_at("1001", at(100)), LookupAction::Fetch);
}

#[test]
fn a_result_is_served_for_less_than_sixty_seconds() {
    let mut lookup = ArrivalLookup::new();
    lookup.finish_at("1001", &body(PREDICTIONS), at(1_000));
    let cached = reply("Main & 5th  -  4 min...12 min...");
    assert_eq!(lookup.start_at("1001", at(1_000)), cached);
    assert_eq!(lookup.start_at("1001", at(1_059)), cached);
    assert_eq!(lookup.start_at("1001", Timestamp { secs: 1_059, nanos: 999_999_999 }), cached);
    assert_eq!(lookup.start_at("1001", at(1_060)), LookupAction::Fetch);
    assert_eq!(lookup.start_at("1001", at(1_061)), LookupAction::Fetch);
    assert_eq!(lookup.start_at("1002", at(1_000)), LookupAction::Fetch);
}

#[test]
fn a_result_is_served_when_the_clock_went_back() {
    let mut lookup = ArrivalLookup::new();
    lookup.finish_at("1001", &body("<msg>No predicted times</msg>"), at(1_000));
    assert_eq!(lookup.start_at("1001", at(10)), reply("No predicted times"));
}

#[test]
fn a_refresh_starts_a_new_window() {
    let mut lookup = ArrivalLookup::new();
    lookup.finish_at("1001", &body("<msg>first</msg>"), at(0));
    assert_eq!(lookup.start_at("1001", at(61)), LookupAction::Fetch);
    lookup.finish_at("1001", &body("<msg>second</msg>"), at(61));
    assert_eq!(lookup.start_at("1001", at(120)), reply("second"));
    assert_eq!(lookup.start_at("1001", at(121)), LookupAction::Fetch);
}

#[test]
fn a_blocked_identifier_is_refused_ever_after() {
    let mut lookup = ArrivalLookup::new();
    lookup.finish_at("99999", &body("<msg>No data found for parameter stpid</msg>"), at(100));
    for later in [100, 101, 159, 160, 161, 1_000_000, i64::MAX] {
        assert_eq!(lookup.start_at("99999", at(later)), reply("Not a valid stop id"));
    }
    lookup.finish_at("1001", &body(PREDICTIONS), at(200));
    lookup.finish_at("1002", &FetchOutcome::TransportFailure, at(300));
    lookup.finish_at("1003", &body("nothing"), at(400));
    assert!(lookup.blocklist.is_known_invalid("99999"));
    assert_eq!(lookup.start_at("99999", at(500)), reply(NOT_A_VALID_STOP));
}

#[test]
fn a_fresh_result_is_served_before_the_blocklist_is_asked() {
    let mut lookup = ArrivalLookup::new();
    lookup.cache.put("5", "cached".to_string(), at(100));
    lookup.blocklist.mark_invalid("5");
    assert_eq!(lookup.start_at("5", at(130)), reply("cached"));
    assert_eq!(lookup.start_at("5", at(160)), reply("Not a valid stop id"));
}

#[test]
fn the_denial_is_found_in_any_case() {
    for text in [
        "no data found for parameter",
        "No data found for parameter stpid",
        "NO DATA FOUND FOR PARAMETER",
        "Error: No Data Found For Parameter(s)",
    ] {
        assert!(is_unknown_stop_message(text));
        let mut lookup = ArrivalLookup::new();
        let answer = lookup.handle_message("1", text.to_string(), at(0));
        assert_eq!(answer, "Not a valid stop id");
        assert!(lookup.blocklist.is_known_invalid("1"));
    }
    for text in ["No predicted times", "no data found", "", "no data found for  parameter"] {
        assert!(!is_unknown_stop_message(text));
    }
}

#[test]
fn the_phrase_is_searched_as_it_stands() {
    assert!(holds_unknown_stop_phrase("xx no data found for parameter yy"));
    assert!(!holds_unknown_stop_phrase("No data found for parameter"));
    assert!(!holds_unknown_stop_phrase(""));
}

#[test]
fn a_denial_is_unescaped_before_it_is_read() {
    let mut lookup = ArrivalLookup::new();
    let answer =
        lookup.finish_at("3", &body("<msg>No data found for parameter &amp; more</msg>"), at(0));
    assert_eq!(answer, "Not a valid stop id");
}

#[test]
fn handle_predictions_writes_name_delimiter_and_arrivals() {
    let mut lookup = ArrivalLookup::new();
    let answer = lookup.handle_predictions("8", "State & Lake", "2 min...", at(50));
    assert_eq!(answer, "State & Lake  -  2 min...");
    assert_eq!(lookup.cache.get("8"), Some("State & Lake  -  2 min...".to_string()));
    assert!(lookup.cache.is_fresh("8", 60, at(109)));
    assert!(!lookup.cache.is_fresh("8", 60, at(110)));
}

#[test]
fn handle_predictions_keeps_an_empty_summary() {
    let mut lookup = ArrivalLookup::new();
    assert_eq!(lookup.handle_predictions("8", "", "", at(0)), "  -  ");
    assert_eq!(lookup.finish_at("9", &body("</prdctdn><prdctdn>"), at(0)), "  -  ");
}

#[test]
fn handle_response_classifies_the_payload() {
    let mut lookup = ArrivalLookup::new();
    assert_eq!(lookup.handle_response("1", PREDICTIONS, at(0)), "Main & 5th  -  4 min...12 min...");
    assert_eq!(lookup.handle_response("2", "<msg>Closed</msg>", at(0)), "Closed");
    assert_eq!(lookup.handle_response("3", "", at(0)), "Unknown response format");
}

#[test]
fn the_same_outcome_twice_leaves_the_same_value() {
    let mut lookup = ArrivalLookup::new();
    let first = lookup.finish_at("1001", &body(PREDICTIONS), at(100));
    let once = lookup.cache.get("1001");
    let second = lookup.finish_at("1001", &body(PREDICTIONS), at(200));
    assert_eq!(first, second);
    assert_eq!(lookup.cache.get("1001"), once);
    assert_eq!(lookup.cache.get("1001"), Some("Main & 5th  -  4 min...12 min...".to_string()));
    assert_eq!(lookup.start_at("1001", at(259)), reply("Main & 5th  -  4 min...12 min..."));
}

#[test]
fn a_denial_twice_leaves_the_identifier_blocked() {
    let mut lookup = ArrivalLookup::new();
    let denial = body("<msg>No data found for parameter stpid</msg>");
    assert_eq!(lookup.finish_at("4", &denial, at(0)), lookup.finish_at("4", &denial, at(1)));
    assert!(lookup.blocklist.is_known_invalid("4"));
    assert_eq!(lookup.cache.get("4"), None);
}

#[test]
fn outcomes_of_different_identifiers_do_not_disturb_each_other() {
    let outcomes = [
        ("1", body(PREDICTIONS)),
        ("2", body("<msg>No data found for parameter stpid</msg>")),
        ("3", body("<msg>No predicted times</msg>")),
        ("4", FetchOutcome::TransportFailure),
        ("5", body("<html/>")),
    ];
    let mut forward = ArrivalLookup::new();
    let mut backward = ArrivalLookup::new();
    let mut forward_replies = Vec::new();
    let mut backward_replies = Vec::new();
    for (id, outcome) in outcomes.iter() {
        forward_replies.push(forward.finish_at(id, outcome, at(10)));
    }
    for (id, outcome) in outcomes.iter().rev() {
        backward_replies.push(backward.finish_at(id, outcome, at(10)));
    }
    backward_replies.reverse();
    assert_eq!(forward_replies, backward_replies);
    for (id, _) in outcomes.iter() {
        assert_eq!(forward.cache.get(id), backward.cache.get(id));
        assert_eq!(
            forward.blocklist.is_known_invalid(id),
            backward.blocklist.is_known_invalid(id)
        );
        assert_eq!(forward.start_at(id, at(20)), backward.start_at(id, at(20)));
    }
    assert_eq!(forward.cache.get("1"), Some("Main & 5th  -  4 min...12 min...".to_string()));
    assert!(forward.blocklist.is_known_invalid("2"));
    assert_eq!(forward.cache.get("3"), Some("No predicted times".to_string()));
    assert_eq!(forward.cache.get("4"), None);
    assert_eq!(forward.cache.get("5"), None);
}

#[test]
fn run_at_takes_both_events() {
    let mut lookup = ArrivalLookup::new();
    assert_eq!(lookup.run_at("1001", &LookupEvent::Requested, at(0)), LookupAction::Fetch);
    assert_eq!(
        lookup.run_at("1001", &LookupEvent::Fetched(body(PREDICTIONS)), at(1)),
        reply("Main & 5th  -  4 min...12 min...")
    );
    assert_eq!(
        lookup.run_at("1001", &LookupEvent::Requested, at(60)),
        reply("Main & 5th  -  4 min...12 min...")
    );
    assert_eq!(lookup.run_at("1001", &LookupEvent::Requested, at(61)), LookupAction::Fetch);
    assert_eq!(
        lookup.run_at("1001", &LookupEvent::Fetched(FetchOutcome::TransportFailure), at(62)),
        reply("There was an error sending the request")
    );
    assert_eq!(
        lookup.run_at(
            "2",
            &LookupEvent::Fetched(body("<msg>no data found for parameter</msg>")),
            at(63)
        ),
        reply("Not a valid stop id")
    );
    assert_eq!(lookup.run_at("2", &LookupEvent::Requested, at(64)), reply("Not a valid stop id"));
}

#[test]
fn run_reads_the_wall_clock() {
    let mut lookup = ArrivalLookup::new();
    assert_eq!(lookup.run("1001", &LookupEvent::Requested), LookupAction::Fetch);
    let fetched = LookupEvent::Fetched(body("<msg>No predicted times</msg>"));
    assert_eq!(lookup.run("1001", &fetched), reply("No predicted times"));
    assert_eq!(lookup.run("1001", &LookupEvent::Requested), reply("No predicted times"));
    assert!(lookup.cache.is_fresh("1001", 60, Timestamp { secs: 1_500_000_000, nanos: 0 }));
    assert!(!lookup.cache.is_fresh("1001", 60, Timestamp { secs: i64::MAX, nanos: 0 }));
    let failed = LookupEvent::Fetched(FetchOutcome::TransportFailure);
    assert_eq!(lookup.run("7", &failed), reply(TRANSPORT_ERROR));
    assert_eq!(lookup.run("7", &LookupEvent::Requested), LookupAction::Fetch);
}

#[test]
fn construct_url_puts_credential_and_identifier_in_place() {
    assert_eq!(
        construct_url("SECRET", "1001"),
        "http://www.ctabustracker.com/bustime/api/v2/getpredictions?key=SECRET&stpid=1001"
    );
    assert_eq!(
        construct_url("", ""),
        "http://www.ctabustracker.com/bustime/api/v2/getpredictions?key=&stpid="
    );
}

#[test]
fn the_reply_for_predictions_holds_the_delimiter_once() {
    let mut lookup = ArrivalLookup::new();
    let answer = lookup.finish_at("1001", &body(PREDICTIONS), at(0));
    assert_eq!(answer.matches(DELIMITER).count(), 1);
    assert_eq!(answer.find(DELIMITER), Some("Main & 5th".len()));
    assert_eq!(pair("a", "b"), "a  -  b");
    assert_eq!(DELIMITER, "  -  ");
}

#[test]
fn the_delimiter_can_occur_twice_where_a_part_runs_into_it() {
    assert_eq!(pair("X  -", "1...").match_indices(DELIMITER).count(), 1);
    let text = pair("X  -", "1...");
    let occurrences = (0..text.len()).filter(|i| text[*i..].starts_with(DELIMITER)).count();
    assert_eq!(occurrences, 2);
}

#[test]
fn split_reply_parts_a_pair_at_the_delimiter() {
    assert_eq!(
        split_reply("Main & 5th  -  4 min...12 min..."),
        ("Main & 5th".to_string(), "4 min...12 min...".to_string())
    );
    assert_eq!(split_reply("  -  "), (String::new(), String::new()));
    assert_eq!(split_reply("a  -  "), ("a".to_string(), String::new()));
}

#[test]
fn split_reply_shows_a_message_whole() {
    assert_eq!(split_reply("Not a valid stop id"), ("Not a valid stop id".to_string(), String::new()));
    assert_eq!(split_reply("a - b"), ("a - b".to_string(), String::new()));
    assert_eq!(split_reply(""), (String::new(), String::new()));
}

#[test]
fn split_reply_stops_at_a_second_delimiter() {
    assert_eq!(split_reply("a  -  b  -  c"), ("a".to_string(), "b".to_string()));
    assert_eq!(split_reply("a  -    -  c"), ("a".to_string(), String::new()));
}
