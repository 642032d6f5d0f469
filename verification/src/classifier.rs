//! Classification of the prediction service's payloads.
//!
//! A payload is a flat set of fields, each written as `<name>content</name>`.
//! It is read by its markers alone. A field's content runs from the end of an
//! opening marker to the nearest closing marker behind it, and never crosses
//! a line break: an opening marker with a line break before its closing
//! marker opens nothing.

use crate::text::{
    contains, contains_seq, find_from, first_index_from, lemma_first_index_from, push_range,
    replace, replace_all, to_chars, to_string,
};
use vstd::prelude::*;

verus! {

/// The field that carries one predicted arrival.
pub const PREDICTION_TAG: &'static str = "prdctdn";

/// The field that carries the stop's name.
pub const STOP_NAME_TAG: &'static str = "stpnm";

/// The field that carries a message in place of predictions.
pub const MESSAGE_TAG: &'static str = "msg";

/// What is written behind each predicted arrival in a summary.
pub const SEPARATOR: &'static str = "...";

/// The one entity that payloads escape.
pub const AMP_ENTITY: &'static str = "&amp;";

/// What the entity stands for.
pub const AMPERSAND: &'static str = "&";

/// The marker that opens the field `tag`.
pub open spec fn open_marker(tag: Seq<char>) -> Seq<char> {
    seq!['<'] + tag + seq!['>']
}

/// The marker that closes the field `tag`.
pub open spec fn close_marker(tag: Seq<char>) -> Seq<char> {
    seq!['<', '/'] + tag + seq!['>']
}

/// Both markers of the field `tag` stand somewhere in `xml`, in whatever
/// order.
pub open spec fn has_tags(xml: Seq<char>, tag: Seq<char>) -> bool {
    contains_seq(xml, open_marker(tag)) && contains_seq(xml, close_marker(tag))
}

/// No character of `s` is a line break.
pub open spec fn no_line_break(s: Seq<char>) -> bool {
    forall|i: int| 0 <= i < s.len() ==> s[i] != '\n'
}

/// Where the content of the first field `tag` at or after `from` starts and
/// ends.
pub open spec fn next_capture(xml: Seq<char>, tag: Seq<char>, from: int) -> Option<(int, int)>
    decreases xml.len() + 1 - from,
    via next_capture_decreases
{
    match first_index_from(xml, open_marker(tag), from) {
        None => None,
        Some(opened) => {
            let start = opened + open_marker(tag).len();
            match first_index_from(xml, close_marker(tag), start) {
                None => None,
                Some(end) => if no_line_break(xml.subrange(start, end)) {
                    Some((start, end))
                } else {
                    next_capture(xml, tag, opened + 1)
                },
            }
        },
    }
}

#[via_fn]
proof fn next_capture_decreases(xml: Seq<char>, tag: Seq<char>, from: int) {
    if 0 <= from {
        lemma_first_index_from(xml, open_marker(tag), from);
    }
}

/// The content of the first field `tag` of `xml`; empty where there is none.
pub open spec fn first_capture(xml: Seq<char>, tag: Seq<char>) -> Seq<char> {
    match next_capture(xml, tag, 0) {
        Some((start, end)) => xml.subrange(start, end),
        None => Seq::empty(),
    }
}

/// The contents of all fields `tag` at or after `from`, in order. The search
/// for the next field begins behind the closing marker of the one before.
pub open spec fn all_captures(xml: Seq<char>, tag: Seq<char>, from: int) -> Seq<Seq<char>>
    decreases xml.len() + 1 - from,
    via all_captures_decreases
{
    match next_capture(xml, tag, from) {
        None => Seq::empty(),
        Some((start, end)) => seq![xml.subrange(start, end)] + all_captures(
            xml,
            tag,
            end + close_marker(tag).len(),
        ),
    }
}

#[via_fn]
proof fn all_captures_decreases(xml: Seq<char>, tag: Seq<char>, from: int) {
    lemma_next_capture_bounds(xml, tag, from);
}

/// The parts written one after another, each followed by `suffix`.
pub open spec fn concat_with_suffix(parts: Seq<Seq<char>>, suffix: Seq<char>) -> Seq<char>
    decreases parts.len(),
{
    if parts.len() == 0 {
        Seq::empty()
    } else {
        parts[0] + suffix + concat_with_suffix(parts.drop_first(), suffix)
    }
}

/// `s` with every `&amp;` turned into `&`.
pub open spec fn unescape(s: Seq<char>) -> Seq<char> {
    replace_all(s, AMP_ENTITY@, AMPERSAND@)
}

/// The stop's name as `xml` gives it.
pub open spec fn stop_name_of(xml: Seq<char>) -> Seq<char> {
    unescape(first_capture(xml, STOP_NAME_TAG@))
}

/// The message that `xml` carries.
pub open spec fn message_of(xml: Seq<char>) -> Seq<char> {
    unescape(first_capture(xml, MESSAGE_TAG@))
}

/// The predicted arrivals of `xml`, each followed by the separator.
pub open spec fn arrival_summary_of(xml: Seq<char>) -> Seq<char> {
    concat_with_suffix(all_captures(xml, PREDICTION_TAG@, 0), SEPARATOR@)
}

/// What a payload turned out to be, over sequences of characters.
pub enum Classification {
    Predictions { stop_name: Seq<char>, arrival_summary: Seq<char> },
    Message { text: Seq<char> },
    Unrecognized,
}

/// What the payload `raw` is: predictions where it has the prediction
/// markers, else a message where it has the message markers, else neither.
pub open spec fn classification_of(raw: Seq<char>) -> Classification {
    if has_tags(raw, PREDICTION_TAG@) {
        Classification::Predictions {
            stop_name: stop_name_of(raw),
            arrival_summary: arrival_summary_of(raw),
        }
    } else if has_tags(raw, MESSAGE_TAG@) {
        Classification::Message { text: message_of(raw) }
    } else {
        Classification::Unrecognized
    }
}

/// A capture lies behind its opening marker and leaves room for its closing
/// marker.
pub proof fn lemma_next_capture_bounds(xml: Seq<char>, tag: Seq<char>, from: int)
    ensures
        match next_capture(xml, tag, from) {
            Some((start, end)) => {
                &&& 0 <= from
                &&& from + open_marker(tag).len() <= start <= end
                &&& end + close_marker(tag).len() <= xml.len()
            },
            None => true,
        },
    decreases xml.len() + 1 - from,
{
    if 0 <= from {
        lemma_first_index_from(xml, open_marker(tag), from);
        match first_index_from(xml, open_marker(tag), from) {
            None => {},
            Some(opened) => {
                let start = opened + open_marker(tag).len();
                lemma_first_index_from(xml, close_marker(tag), start);
                match first_index_from(xml, close_marker(tag), start) {
                    None => {},
                    Some(end) => {
                        if !no_line_break(xml.subrange(start, end)) {
                            lemma_next_capture_bounds(xml, tag, opened + 1);
                        }
                    },
                }
            },
        }
    }
}

/// A summary is built from the left: the first part, the suffix, then the
/// summary of the rest.
pub proof fn lemma_concat_with_suffix_step(
    first: Seq<char>,
    rest: Seq<Seq<char>>,
    suffix: Seq<char>,
)
    ensures
        concat_with_suffix(seq![first] + rest, suffix) == first + suffix + concat_with_suffix(
            rest,
            suffix,
        ),
{
    let parts = seq![first] + rest;
    assert(parts[0] == first);
    assert(parts.drop_first() =~= rest);
}

/// The two markers of one field of the payload.
pub struct Tag {
    open: Vec<char>,
    close: Vec<char>,
}

impl Tag {
    #[verifier::type_invariant]
    spec fn well_formed(self) -> bool {
        &&& self.open@ == open_marker(self.name())
        &&& self.close@ == close_marker(self.name())
    }

    /// The field's name.
    pub closed spec fn name(self) -> Seq<char> {
        self.open@.subrange(1, self.open@.len() - 1)
    }

    /// The markers of the field `name`.
    pub fn new(name: &str) -> (tag: Tag)
        ensures
            tag.name() == name@,
    {
        let letters = to_chars(name);
        let mut open: Vec<char> = Vec::new();
        open.push('<');
        push_range(&mut open, &letters, 0, letters.len());
        open.push('>');
        let mut close: Vec<char> = Vec::new();
        close.push('<');
        close.push('/');
        push_range(&mut close, &letters, 0, letters.len());
        close.push('>');
        proof {
            assert(letters@.subrange(0, letters.len() as int) =~= name@);
            assert(open@ =~= open_marker(name@));
            assert(close@ =~= close_marker(name@));
            assert(open@.subrange(1, open@.len() - 1) =~= name@);
        }
        Tag { open, close }
    }
}

/// Whether both markers of `tag` stand somewhere in `xml`.
pub fn contains_tags(xml: &Vec<char>, tag: &Tag) -> (found: bool)
    ensures
        found == has_tags(xml@, tag.name()),
{
    proof {
        use_type_invariant(tag);
    }
    contains(xml, &tag.open) && contains(xml, &tag.close)
}

/// Whether `xml[start..end]` is free of line breaks.
fn is_one_line(xml: &Vec<char>, start: usize, end: usize) -> (clean: bool)
    requires
        start <= end <= xml.len(),
    ensures
        clean == no_line_break(xml@.subrange(start as int, end as int)),
{
    let ghost part = xml@.subrange(start as int, end as int);
    let mut i: usize = start;
    while i < end
        invariant
            start <= i <= end <= xml.len(),
            part == xml@.subrange(start as int, end as int),
            forall|j: int| 0 <= j < i - start ==> part[j] != '\n',
        decreases end - i,
    {
        if xml[i] == '\n' {
            assert(part[i - start] == '\n');
            return false;
        }
        i += 1;
    }
    true
}

/// Where the content of the first field `tag` at or after `from` starts and
/// ends.
pub fn find_capture(xml: &Vec<char>, tag: &Tag, from: usize) -> (found: Option<(usize, usize)>)
    ensures
        match found {
            Some((start, end)) => {
                &&& next_capture(xml@, tag.name(), from as int) == Some((start as int, end as int))
                &&& from <= start <= end <= xml.len()
            },
            None => next_capture(xml@, tag.name(), from as int) is None,
        },
{
    proof {
        use_type_invariant(tag);
    }
    let ghost name = tag.name();
    let mut at: usize = from;
    loop
        invariant
            from <= at,
            name == tag.name(),
            tag.open@ == open_marker(name),
            tag.close@ == close_marker(name),
            next_capture(xml@, name, from as int) == next_capture(xml@, name, at as int),
        decreases xml.len() + 1 - at,
    {
        proof {
            lemma_first_index_from(xml@, open_marker(name), at as int);
        }
        match find_from(xml, &tag.open, at) {
            None => {
                return None;
            },
            Some(opened) => {
                let start = opened + tag.open.len();
                proof {
                    lemma_first_index_from(xml@, close_marker(name), start as int);
                }
                match find_from(xml, &tag.close, start) {
                    None => {
                        return None;
                    },
                    Some(end) => {
                        if is_one_line(xml, start, end) {
                            return Some((start, end));
                        }
                        at = opened + 1;
                    },
                }
            },
        }
    }
}

/// The content of the first field `tag` of `xml`, unescaped; empty where
/// there is no such field.
pub fn get_string_from_match(xml: &Vec<char>, tag: &Tag) -> (content: String)
    ensures
        content@ == unescape(first_capture(xml@, tag.name())),
{
    let amp_entity = to_chars(AMP_ENTITY);
    let ampersand = to_chars(AMPERSAND);
    let plain = match find_capture(xml, tag, 0) {
        Some((start, end)) => replace(xml, start, end, &amp_entity, &ampersand),
        None => {
            assert(replace_all(Seq::<char>::empty(), AMP_ENTITY@, AMPERSAND@) == Seq::<
                char,
            >::empty());
            Vec::new()
        },
    };
    let content = to_string(&plain, 0, plain.len());
    assert(plain@.subrange(0, plain.len() as int) =~= plain@);
    content
}

/// The stop's name as `xml` gives it.
pub fn get_stop_name(xml: &Vec<char>) -> (name: String)
    ensures
        name@ == stop_name_of(xml@),
{
    let tag = Tag::new(STOP_NAME_TAG);
    get_string_from_match(xml, &tag)
}

/// The message that `xml` carries.
pub fn get_message(xml: &Vec<char>) -> (text: String)
    ensures
        text@ == message_of(xml@),
{
    let tag = Tag::new(MESSAGE_TAG);
    get_string_from_match(xml, &tag)
}

/// The predicted arrivals of `xml`, each followed by the separator. A payload
/// may carry any number of them, none included.
pub fn get_arrival_times(xml: &Vec<char>) -> (summary: String)
    ensures
        summary@ == arrival_summary_of(xml@),
{
    let tag = Tag::new(PREDICTION_TAG);
    let separator = to_chars(SEPARATOR);
    proof {
        use_type_invariant(&tag);
    }
    let ghost name = tag.name();
    let mut arrival_times: Vec<char> = Vec::new();
    let mut from: usize = 0;
    loop
        invariant
            from <= xml.len(),
            name == tag.name(),
            name == PREDICTION_TAG@,
            tag.close@ == close_marker(name),
            separator@ == SEPARATOR@,
            arrival_summary_of(xml@) == arrival_times@ + concat_with_suffix(
                all_captures(xml@, name, from as int),
                SEPARATOR@,
            ),
        decreases xml.len() - from,
    {
        let ghost before = arrival_times@;
        match find_capture(xml, &tag, from) {
            None => {
                assert(arrival_times@ + Seq::<char>::empty() =~= arrival_times@);
                assert(arrival_times@.subrange(0, arrival_times.len() as int)
                    =~= arrival_times@);
                return to_string(&arrival_times, 0, arrival_times.len());
            },
            Some((start, end)) => {
                proof {
                    lemma_next_capture_bounds(xml@, name, from as int);
                    lemma_concat_with_suffix_step(
                        xml@.subrange(start as int, end as int),
                        all_captures(xml@, name, end + close_marker(name).len()),
                        SEPARATOR@,
                    );
                }
                push_range(&mut arrival_times, xml, start, end);
                push_range(&mut arrival_times, &separator, 0, separator.len());
                from = end + tag.close.len();
                proof {
                    let capture = xml@.subrange(start as int, end as int);
                    let rest = concat_with_suffix(
                        all_captures(xml@, name, from as int),
                        SEPARATOR@,
                    );
                    assert(separator@.subrange(0, separator.len() as int) =~= SEPARATOR@);
                    assert(arrival_times@ + rest =~= before + (capture + SEPARATOR@ + rest));
                }
            },
        }
    }
}

/// What a payload turned out to be.
#[derive(Debug, PartialEq, Eq)]
pub enum ClassifiedResponse {
    /// Predicted arrivals for a stop.
    Predictions { stop_name: String, arrival_summary: String },
    /// A message in place of predictions.
    Message { text: String },
    /// Neither of the two.
    Unrecognized,
}

impl View for ClassifiedResponse {
    type V = Classification;

    open spec fn view(&self) -> Classification {
        match self {
            ClassifiedResponse::Predictions { stop_name, arrival_summary } => {
                Classification::Predictions {
                    stop_name: stop_name@,
                    arrival_summary: arrival_summary@,
                }
            },
            ClassifiedResponse::Message { text } => Classification::Message { text: text@ },
            ClassifiedResponse::Unrecognized => Classification::Unrecognized,
        }
    }
}

/// Classifies the payload `raw_text`. No payload is refused: one that is cut
/// short or out of order gives empty fields.
pub fn classify(raw_text: &str) -> (response: ClassifiedResponse)
    ensures
        response@ == classification_of(raw_text@),
{
    let xml = to_chars(raw_text);
    let predictions = Tag::new(PREDICTION_TAG);
    let message = Tag::new(MESSAGE_TAG);
    if contains_tags(&xml, &predictions) {
        ClassifiedResponse::Predictions {
            stop_name: get_stop_name(&xml),
            arrival_summary: get_arrival_times(&xml),
        }
    } else if contains_tags(&xml, &message) {
        ClassifiedResponse::Message { text: get_message(&xml) }
    } else {
        ClassifiedResponse::Unrecognized
    }
}

} // verus!
