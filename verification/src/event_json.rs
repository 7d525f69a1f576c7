//! Events as JSON text.
//!
//! An event travels to the host as one JSON object, written without white
//! space: first the name of the variant under `"type"`, then the variant's
//! fields in their order.
//!
//! ```text
//! {"type":"Log","message":"started"}
//! {"type":"OtherMessage","code":404,"description":"not found"}
//! ```
//!
//! Reading is the exact inverse of writing: it accepts the text that writing
//! produces for some event, gives that event back, and accepts nothing else.

use vstd::prelude::*;
use vstd::string::StringExecFns;
use crate::event_aggregator::{Event, EventView};
use crate::json::{integer_literal, string_literal, write_integer_literal, write_string_literal};
use crate::json_read::{
    lemma_integer_literal_unique, lemma_string_literal_unique, number_ends, read_integer_literal,
    read_string_literal,
};
use crate::text::{chars_of, lemma_stands_at_concat, stands_at, has_at};

verus! {

/// The text of a `Log` event up to its message.
pub const LOG_HEAD: &'static str = "{\"type\":\"Log\",\"message\":";

/// The text of an `OtherMessage` event up to its code.
pub const OTHER_MESSAGE_HEAD: &'static str = "{\"type\":\"OtherMessage\",\"code\":";

/// The text between the code and the description of an `OtherMessage` event.
pub const DESCRIPTION_KEY: &'static str = ",\"description\":";

/// The text that ends an event.
pub const CLOSE: &'static str = "}";

impl EventView {
    /// The JSON text of the event: one object that names the variant under
    /// `"type"` and then holds the variant's fields in their order, with no
    /// white space.
    pub open spec fn json(self) -> Seq<char> {
        match self {
            EventView::Log { message } => LOG_HEAD@ + string_literal(message) + CLOSE@,
            EventView::OtherMessage { code, description } => OTHER_MESSAGE_HEAD@ + integer_literal(
                code as int,
            ) + DESCRIPTION_KEY@ + string_literal(description) + CLOSE@,
        }
    }
}

/// The event that `text` is the JSON text of, if it is that of any.
pub open spec fn event_of(text: Seq<char>) -> Option<EventView> {
    if exists|event: EventView| #[trigger] event.json() == text {
        Some(choose|event: EventView| #[trigger] event.json() == text)
    } else {
        None
    }
}

/// What was read, as a mathematical value.
pub open spec fn read_view(found: Option<Event>) -> Option<EventView> {
    match found {
        Some(event) => Some(event@),
        None => None,
    }
}

impl Event {
    /// Writes the event as JSON text.
    pub fn serialize(&self) -> (text: String)
        ensures
            text@ == self@.json(),
    {
        match self {
            Event::Log { message } => {
                let mut text = LOG_HEAD.to_owned();
                text.append(write_string_literal(message.as_str()).as_str());
                text.append(CLOSE);
                text
            },
            Event::OtherMessage { code, description } => {
                let mut text = OTHER_MESSAGE_HEAD.to_owned();
                text.append(write_integer_literal(*code).as_str());
                text.append(DESCRIPTION_KEY);
                text.append(write_string_literal(description.as_str()).as_str());
                text.append(CLOSE);
                text
            },
        }
    }

    /// Reads an event from JSON text.
    ///
    /// The outcome is an event exactly where `text` is the text that
    /// `serialize` writes for some event, and then it is that event. Text in
    /// any other form, though it may be JSON, gives no event.
    pub fn deserialize(text: &str) -> (found: Option<Event>)
        ensures
            read_view(found) == event_of(text@),
    {
        let chars = chars_of(text);
        let log = chars_of(LOG_HEAD);
        let other = chars_of(OTHER_MESSAGE_HEAD);
        let found = if has_at(&chars, 0, &log) {
            Event::read_log(&chars, log.len())
        } else if has_at(&chars, 0, &other) {
            Event::read_other_message(&chars, other.len())
        } else {
            None
        };
        proof {
            lemma_heads();
            lemma_event_of(text@, read_view(found));
        }
        found
    }

    /// Reads what follows the head of a `Log` event, from `start` on: the
    /// message and the closing brace.
    fn read_log(chars: &Vec<char>, start: usize) -> (found: Option<Event>)
        requires
            stands_at(chars@, 0, LOG_HEAD@),
            start == LOG_HEAD@.len(),
        ensures
            match found {
                Some(event) => event@.json() == chars@,
                None => forall|message: Seq<char>| !#[trigger] is_log_text(chars@, message),
            },
    {
        proof {
            lemma_heads();
        }
        let len = chars.len();
        match read_string_literal(chars, start) {
            Some((message, end)) => {
                if has_at(chars, end, &chars_of(CLOSE)) && len - end == 1 {
                    proof {
                        lemma_log_text(chars@, message@);
                    }
                    Some(Event::Log { message })
                } else {
                    assert forall|m: Seq<char>| !#[trigger] is_log_text(chars@, m) by {
                        if is_log_text(chars@, m) {
                            lemma_string_literal_unique(chars@, 24, m, message@);
                        }
                    }
                    None
                }
            },
            None => None,
        }
    }

    /// Reads what follows the head of an `OtherMessage` event, from `start`
    /// on: the code, the key of the description, the description and the
    /// closing brace.
    fn read_other_message(chars: &Vec<char>, start: usize) -> (found: Option<Event>)
        requires
            stands_at(chars@, 0, OTHER_MESSAGE_HEAD@),
            start == OTHER_MESSAGE_HEAD@.len(),
        ensures
            match found {
                Some(event) => event@.json() == chars@,
                None => forall|code: i32, description: Seq<char>|
                    !#[trigger] is_other_message_text(chars@, code, description),
            },
    {
        proof {
            lemma_heads();
        }
        let len = chars.len();
        let key = chars_of(DESCRIPTION_KEY);
        match read_integer_literal(chars, start) {
            Some((code, end)) => {
                assert forall|c: i32, d: Seq<char>| #[trigger]
                    is_other_message_text(chars@, c, d) implies c == code by {
                    lemma_other_message_text(chars@, c, d);
                    lemma_integer_literal_unique(chars@, 30, c, code);
                }
                if !has_at(chars, end, &key) {
                    return None;
                }
                match read_string_literal(chars, end + key.len()) {
                    Some((description, last)) => {
                        if has_at(chars, last, &chars_of(CLOSE)) && len - last == 1 {
                            proof {
                                lemma_other_message_text(chars@, code, description@);
                            }
                            Some(Event::OtherMessage { code, description })
                        } else {
                            assert forall|c: i32, d: Seq<char>| !#[trigger]
                                is_other_message_text(chars@, c, d) by {
                                if is_other_message_text(chars@, c, d) {
                                    lemma_string_literal_unique(
                                        chars@,
                                        end + 15,
                                        d,
                                        description@,
                                    );
                                }
                            }
                            None
                        }
                    },
                    None => None,
                }
            },
            None => {
                assert forall|c: i32, d: Seq<char>| !#[trigger]
                    is_other_message_text(chars@, c, d) by {
                    lemma_other_message_text(chars@, c, d);
                }
                None
            },
        }
    }
}

/// The lengths of the fixed parts of the text, and the places where two of
/// them differ.
proof fn lemma_heads()
    ensures
        LOG_HEAD@.len() == 24,
        OTHER_MESSAGE_HEAD@.len() == 30,
        DESCRIPTION_KEY@.len() == 15,
        CLOSE@.len() == 1,
        LOG_HEAD@[9] == 'L',
        OTHER_MESSAGE_HEAD@[9] == 'O',
        DESCRIPTION_KEY@[0] == ',',
{
    reveal_strlit("{\"type\":\"Log\",\"message\":");
    reveal_strlit("{\"type\":\"OtherMessage\",\"code\":");
    reveal_strlit(",\"description\":");
    reveal_strlit("}");
}

/// What it is for `text` to be the JSON text of a `Log` event, part by part.
spec fn is_log_text(text: Seq<char>, message: Seq<char>) -> bool {
    let m = string_literal(message).len() as int;
    &&& stands_at(text, 0, LOG_HEAD@)
    &&& stands_at(text, 24, string_literal(message))
    &&& stands_at(text, 24 + m, CLOSE@)
    &&& text.len() == 25 + m
}

/// What it is for `text` to be the JSON text of an `OtherMessage` event, part
/// by part.
spec fn is_other_message_text(text: Seq<char>, code: i32, description: Seq<char>) -> bool {
    let n = integer_literal(code as int).len() as int;
    let d = string_literal(description).len() as int;
    &&& stands_at(text, 0, OTHER_MESSAGE_HEAD@)
    &&& stands_at(text, 30, integer_literal(code as int))
    &&& stands_at(text, 30 + n, DESCRIPTION_KEY@)
    &&& stands_at(text, 45 + n, string_literal(description))
    &&& stands_at(text, 45 + n + d, CLOSE@)
    &&& text.len() == 46 + n + d
}

proof fn lemma_log_text(text: Seq<char>, message: Seq<char>)
    ensures
        text == (EventView::Log { message }).json() <==> is_log_text(text, message),
{
    lemma_heads();
    let literal = string_literal(message);
    lemma_stands_at_concat(text, 0, LOG_HEAD@ + literal, CLOSE@);
    lemma_stands_at_concat(text, 0, LOG_HEAD@, literal);
    assert(text.subrange(0, text.len() as int) =~= text);
}

proof fn lemma_other_message_text(text: Seq<char>, code: i32, description: Seq<char>)
    ensures
        text == (EventView::OtherMessage { code, description }).json() <==> is_other_message_text(
            text,
            code,
            description,
        ),
        is_other_message_text(text, code, description) ==> number_ends(
            text,
            30 + integer_literal(code as int).len() as int,
        ),
{
    lemma_heads();
    let number = integer_literal(code as int);
    let literal = string_literal(description);
    let n = number.len() as int;
    lemma_stands_at_concat(
        text,
        0,
        OTHER_MESSAGE_HEAD@ + number + DESCRIPTION_KEY@ + literal,
        CLOSE@,
    );
    lemma_stands_at_concat(text, 0, OTHER_MESSAGE_HEAD@ + number + DESCRIPTION_KEY@, literal);
    lemma_stands_at_concat(text, 0, OTHER_MESSAGE_HEAD@ + number, DESCRIPTION_KEY@);
    lemma_stands_at_concat(text, 0, OTHER_MESSAGE_HEAD@, number);
    assert(text.subrange(0, text.len() as int) =~= text);
    if is_other_message_text(text, code, description) {
        assert(text.subrange(30 + n, 45 + n)[0] == text[30 + n]);
    }
}

/// A text does not begin as a `Log` event and as an `OtherMessage` event.
proof fn lemma_heads_differ(text: Seq<char>)
    ensures
        !(stands_at(text, 0, LOG_HEAD@) && stands_at(text, 0, OTHER_MESSAGE_HEAD@)),
{
    lemma_heads();
    if stands_at(text, 0, LOG_HEAD@) && stands_at(text, 0, OTHER_MESSAGE_HEAD@) {
        assert(text.subrange(0, 24)[9] == text[9]);
        assert(text.subrange(0, 30)[9] == text[9]);
    }
}

/// Different events have different JSON texts.
pub proof fn lemma_json_is_injective(a: EventView, b: EventView)
    requires
        a.json() == b.json(),
    ensures
        a == b,
{
    let text = a.json();
    lemma_heads_differ(text);
    match a {
        EventView::Log { message } => {
            lemma_log_text(text, message);
        },
        EventView::OtherMessage { code, description } => {
            lemma_other_message_text(text, code, description);
        },
    }
    match b {
        EventView::Log { message } => {
            lemma_log_text(text, message);
        },
        EventView::OtherMessage { code, description } => {
            lemma_other_message_text(text, code, description);
        },
    }
    match (a, b) {
        (EventView::Log { message: m1 }, EventView::Log { message: m2 }) => {
            lemma_string_literal_unique(text, 24, m1, m2);
        },
        (
            EventView::OtherMessage { code: c1, description: d1 },
            EventView::OtherMessage { code: c2, description: d2 },
        ) => {
            lemma_integer_literal_unique(text, 30, c1, c2);
            lemma_string_literal_unique(text, 45 + integer_literal(c1 as int).len() as int, d1, d2);
        },
        _ => {},
    }
}

/// Reading inverts writing: the JSON text of an event is the text of that
/// event and of no other, so reading it gives the event back, and writing
/// what was read gives the same text again.
pub proof fn lemma_read_inverts_write(event: EventView)
    ensures
        event_of(event.json()) == Some(event),
        event_of(event.json()).unwrap().json() == event.json(),
{
    lemma_json_is_injective(event_of(event.json()).unwrap(), event);
}

/// An event whose text `text` is, or the lack of any, is what `event_of`
/// says.
proof fn lemma_event_of(text: Seq<char>, found: Option<EventView>)
    requires
        match found {
            Some(event) => event.json() == text,
            None => {
                ||| !stands_at(text, 0, LOG_HEAD@) && !stands_at(text, 0, OTHER_MESSAGE_HEAD@)
                ||| stands_at(text, 0, LOG_HEAD@) && forall|message: Seq<char>|
                    !#[trigger] is_log_text(text, message)
                ||| stands_at(text, 0, OTHER_MESSAGE_HEAD@) && forall|
                    code: i32,
                    description: Seq<char>,
                |
                    !#[trigger] is_other_message_text(text, code, description)
            },
        },
    ensures
        event_of(text) == found,
{
    match found {
        Some(event) => {
            lemma_json_is_injective(event_of(text).unwrap(), event);
        },
        None => {
            lemma_heads_differ(text);
            assert forall|event: EventView| #[trigger] event.json() != text by {
                match event {
                    EventView::Log { message } => {
                        lemma_log_text(text, message);
                    },
                    EventView::OtherMessage { code, description } => {
                        lemma_other_message_text(text, code, description);
                    },
                }
            }
        },
    }
}

} // verus!
