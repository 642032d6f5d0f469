use busplug::classifier::{
    classify, contains_tags, find_capture, get_arrival_times, get_message, get_stop_name,
    get_string_from_match, ClassifiedResponse, Tag,
};

fn chars(s: &str) -> Vec<char> {
    s.chars().collect()
}

fn predictions(stop_name: &str, arrival_summary: &str) -> ClassifiedResponse {
    ClassifiedResponse::Predictions {
        stop_name: stop_name.to_string(),
        arrival_summary: arrival_summary.to_string(),
    }
}

#[test]
fn classify_reads_two_predictions_and_the_stop_name() {
    let raw = "<stpnm>Main &amp; 5th</stpnm><prdctdn>4 min</prdctdn><prdctdn>12 min</prdctdn>";
    assert_eq!(classify(raw), predictions("Main & 5th", "4 min...12 min..."));
}

#[test]
fn classify_reads_a_payload_with_one_field_per_line() {
    let raw = "<?xml version=\"1.0\"?>\n<bustime-response>\n\t<prd>\n\t\t<tmstmp>20180520 14:03</tmstmp>\n\t\t<stpnm>Michigan &amp; Balbo</stpnm>\n\t\t<prdctdn>5</prdctdn>\n\t</prd>\n\t<prd>\n\t\t<stpnm>Michigan &amp; Balbo</stpnm>\n\t\t<prdctdn>DUE</prdctdn>\n\t</prd>\n</bustime-response>\n";
    assert_eq!(classify(raw), predictions("Michigan & Balbo", "5...DUE..."));
}

#[test]
fn classify_reads_a_message() {
    let raw = "<bustime-response><error><msg>No arrival times</msg></error></bustime-response>";
    assert_eq!(
        classify(raw),
        ClassifiedResponse::Message { text: "No arrival times".to_string() }
    );
}

#[test]
fn classify_unescapes_a_message() {
    assert_eq!(
        classify("<msg>Stop &amp; go &amp;amp;</msg>"),
        ClassifiedResponse::Message { text: "Stop & go &amp;".to_string() }
    );
}

#[test]
fn classify_prefers_predictions_to_a_message() {
    let raw = "<msg>ignored</msg><prdctdn>3</prdctdn><stpnm>A</stpnm>";
    assert_eq!(classify(raw), predictions("A", "3..."));
}

#[test]
fn classify_does_not_recognize_other_text() {
    assert_eq!(classify(""), ClassifiedResponse::Unrecognized);
    assert_eq!(classify("<html>503</html>"), ClassifiedResponse::Unrecognized);
    assert_eq!(classify("<prdctdn>4 min"), ClassifiedResponse::Unrecognized);
    assert_eq!(classify("4 min</prdctdn>"), ClassifiedResponse::Unrecognized);
    assert_eq!(classify("<msg>only opened"), ClassifiedResponse::Unrecognized);
    assert_eq!(classify("<stpnm>Main</stpnm>"), ClassifiedResponse::Unrecognized);
}

#[test]
fn classify_gives_empty_fields_for_markers_out_of_order() {
    assert_eq!(classify("</prdctdn>4 min<prdctdn>"), predictions("", ""));
    assert_eq!(
        classify("</msg>text<msg>"),
        ClassifiedResponse::Message { text: String::new() }
    );
}

#[test]
fn classify_gives_an_empty_stop_name_where_none_is_given() {
    assert_eq!(classify("<prdctdn>9</prdctdn>"), predictions("", "9..."));
}

#[test]
fn classify_keeps_an_empty_prediction() {
    assert_eq!(classify("<stpnm>A</stpnm><prdctdn></prdctdn>"), predictions("A", "..."));
}

#[test]
fn classify_does_not_unescape_predictions() {
    assert_eq!(classify("<prdctdn>1 &amp; 2</prdctdn>"), predictions("", "1 &amp; 2..."));
}

#[test]
fn a_field_does_not_cross_a_line_break() {
    assert_eq!(classify("<prdctdn>4\nmin</prdctdn>"), predictions("", ""));
    assert_eq!(
        classify("<prdctdn>4\n<prdctdn>7 min</prdctdn>"),
        predictions("", "7 min...")
    );
    assert_eq!(
        classify("<stpnm>Main\n</stpnm><prdctdn>2</prdctdn>"),
        predictions("", "2...")
    );
}

#[test]
fn a_field_ends_at_the_nearest_closing_marker() {
    let xml = chars("<stpnm>A</stpnm> b <stpnm>C</stpnm>");
    assert_eq!(get_stop_name(&xml), "A");
    let nested = chars("<prdctdn>1<prdctdn>2</prdctdn>3</prdctdn>");
    assert_eq!(get_arrival_times(&nested), "1<prdctdn>2...");
}

#[test]
fn contains_tags_wants_both_markers() {
    let tag = Tag::new("msg");
    assert!(contains_tags(&chars("<msg>x</msg>"), &tag));
    assert!(contains_tags(&chars("</msg><msg>"), &tag));
    assert!(!contains_tags(&chars("<msg>x"), &tag));
    assert!(!contains_tags(&chars("x</msg>"), &tag));
    assert!(!contains_tags(&chars("<msg >x</ msg>"), &tag));
    assert!(!contains_tags(&chars(""), &tag));
}

#[test]
fn find_capture_gives_where_the_content_starts_and_ends() {
    let tag = Tag::new("a");
    let xml = chars("..<a>xy</a><a></a>");
    assert_eq!(find_capture(&xml, &tag, 0), Some((5, 7)));
    assert_eq!(find_capture(&xml, &tag, 2), Some((5, 7)));
    assert_eq!(find_capture(&xml, &tag, 3), Some((14, 14)));
    assert_eq!(find_capture(&xml, &tag, 11), Some((14, 14)));
    assert_eq!(find_capture(&xml, &tag, 12), None);
    assert_eq!(find_capture(&xml, &tag, 500), None);
}

#[test]
fn find_capture_skips_an_opening_marker_before_a_line_break() {
    let tag = Tag::new("a");
    let xml = chars("<a>1\n<a>2</a>");
    assert_eq!(find_capture(&xml, &tag, 0), Some((8, 9)));
}

#[test]
fn get_string_from_match_is_empty_without_a_match() {
    let tag = Tag::new("stpnm");
    assert_eq!(get_string_from_match(&chars("nothing here"), &tag), "");
    assert_eq!(get_string_from_match(&chars("<stpnm>A &amp; B</stpnm>"), &tag), "A & B");
}

#[test]
fn get_message_takes_the_first_message() {
    assert_eq!(get_message(&chars("<msg>one</msg><msg>two</msg>")), "one");
}

#[test]
fn get_arrival_times_handles_none_one_and_many() {
    assert_eq!(get_arrival_times(&chars("no predictions")), "");
    assert_eq!(get_arrival_times(&chars("<prdctdn>DUE</prdctdn>")), "DUE...");
    assert_eq!(
        get_arrival_times(&chars(
            "<prdctdn>1</prdctdn>\n<prdctdn>2</prdctdn>\n<prdctdn>3</prdctdn>"
        )),
        "1...2...3..."
    );
}
