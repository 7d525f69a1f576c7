use host_dispatch::event_aggregator::Event;
use host_dispatch::json::{write_integer_literal, write_string_literal};
use host_dispatch::json_read::{read_integer_literal, read_string_literal};
use host_dispatch::text::{chars_of, has_at};

fn log(message: &str) -> Event {
    Event::Log { message: message.to_string() }
}

fn other(code: i32, description: &str) -> Event {
    Event::OtherMessage { code, description: description.to_string() }
}

#[test]
fn log_event_has_the_expected_text() {
    assert_eq!(log("hello").serialize(), "{\"type\":\"Log\",\"message\":\"hello\"}");
}

#[test]
fn other_message_event_has_the_expected_text() {
    assert_eq!(
        other(7, "seven").serialize(),
        "{\"type\":\"OtherMessage\",\"code\":7,\"description\":\"seven\"}"
    );
}

#[test]
fn empty_strings_are_written_as_empty_literals() {
    assert_eq!(log("").serialize(), "{\"type\":\"Log\",\"message\":\"\"}");
    assert_eq!(
        other(0, "").serialize(),
        "{\"type\":\"OtherMessage\",\"code\":0,\"description\":\"\"}"
    );
}

#[test]
fn negative_and_extreme_codes_are_written_in_decimal() {
    assert_eq!(write_integer_literal(0), "0");
    assert_eq!(write_integer_literal(-1), "-1");
    assert_eq!(write_integer_literal(10), "10");
    assert_eq!(write_integer_literal(-120), "-120");
    assert_eq!(write_integer_literal(i32::MAX), "2147483647");
    assert_eq!(write_integer_literal(i32::MIN), "-2147483648");
    assert_eq!(
        other(i32::MIN, "x").serialize(),
        "{\"type\":\"OtherMessage\",\"code\":-2147483648,\"description\":\"x\"}"
    );
}

#[test]
fn quotation_mark_and_backslash_are_escaped() {
    assert_eq!(write_string_literal("a\"b"), "\"a\\\"b\"");
    assert_eq!(write_string_literal("a\\b"), "\"a\\\\b\"");
    assert_eq!(write_string_literal("\\\""), "\"\\\\\\\"\"");
}

#[test]
fn short_escapes_are_used_for_the_common_control_characters() {
    assert_eq!(write_string_literal("\u{8}"), "\"\\b\"");
    assert_eq!(write_string_literal("\t"), "\"\\t\"");
    assert_eq!(write_string_literal("\n"), "\"\\n\"");
    assert_eq!(write_string_literal("\u{c}"), "\"\\f\"");
    assert_eq!(write_string_literal("\r"), "\"\\r\"");
}

#[test]
fn every_control_character_is_escaped_as_stated() {
    let hex = ['0', '1', '2', '3', '4', '5', '6', '7', '8', '9', 'a', 'b', 'c', 'd', 'e', 'f'];
    for code in 0u32..0x20 {
        let c = char::from_u32(code).unwrap();
        let expected = match c {
            '\u{8}' => "\"\\b\"".to_string(),
            '\t' => "\"\\t\"".to_string(),
            '\n' => "\"\\n\"".to_string(),
            '\u{c}' => "\"\\f\"".to_string(),
            '\r' => "\"\\r\"".to_string(),
            _ => format!(
                "\"\\u00{}{}\"",
                hex[(code / 16) as usize],
                hex[(code % 16) as usize]
            ),
        };
        assert_eq!(write_string_literal(&c.to_string()), expected);
    }
}

#[test]
fn every_other_character_stands_for_itself() {
    for code in 0x20u32..0x250 {
        let c = char::from_u32(code).unwrap();
        if c == '"' || c == '\\' {
            continue;
        }
        assert_eq!(write_string_literal(&c.to_string()), format!("\"{}\"", c));
    }
    assert_eq!(write_string_literal("\u{7f}"), "\"\u{7f}\"");
    assert_eq!(write_string_literal("/"), "\"/\"");
    assert_eq!(write_string_literal("żółw 🐢"), "\"żółw 🐢\"");
    assert_eq!(write_string_literal("\u{2028}\u{10ffff}"), "\"\u{2028}\u{10ffff}\"");
}

#[test]
fn a_json_parser_reads_the_fields_back() {
    let message = "line one\nline \"two\"\t\\ \u{1} é 🐢";
    let text = log(message).serialize();
    let value: serde_json::Value = serde_json::from_str(&text).unwrap();
    assert_eq!(value.get("type").and_then(|v| v.as_str()), Some("Log"));
    assert_eq!(value.get("message").and_then(|v| v.as_str()), Some(message));
    assert_eq!(value.as_object().map(|o| o.len()), Some(2));

    let text = other(-35, message).serialize();
    let value: serde_json::Value = serde_json::from_str(&text).unwrap();
    assert_eq!(value.get("type").and_then(|v| v.as_str()), Some("OtherMessage"));
    assert_eq!(value.get("code").and_then(|v| v.as_i64()), Some(-35));
    assert_eq!(value.get("description").and_then(|v| v.as_str()), Some(message));
    assert_eq!(value.as_object().map(|o| o.len()), Some(3));
}

#[test]
fn the_discriminator_comes_first() {
    assert!(log("x").serialize().starts_with("{\"type\":"));
    assert!(other(1, "x").serialize().starts_with("{\"type\":"));
}

#[test]
fn reading_gives_the_event_back() {
    let events = vec![
        log(""),
        log("hello"),
        log("a\"b\\c\nd\te\rf\u{8}g\u{c}h\u{0}i\u{1f}j\u{7f}k"),
        log("żółw 🐢 \u{10ffff}"),
        log("}"),
        log("\"}"),
        log("{\"type\":\"Log\",\"message\":\"nested\"}"),
        other(0, ""),
        other(1, "one"),
        other(-1, "minus one"),
        other(10, "ten"),
        other(i32::MAX, "max"),
        other(i32::MIN, "min"),
        other(42, ",\"description\":\"x\"}"),
    ];
    for event in events {
        let text = event.serialize();
        assert_eq!(Event::deserialize(&text), Some(event));
    }
}

#[test]
fn writing_what_was_read_gives_the_same_text() {
    let events = vec![log("round \"trip\"\n"), other(-2147483648, "\u{1b}[0m"), other(305, "")];
    for event in events {
        let text = event.serialize();
        let read = Event::deserialize(&text).unwrap();
        assert_eq!(read.serialize(), text);
    }
}

#[test]
fn reading_a_log_event_from_given_text() {
    assert_eq!(
        Event::deserialize("{\"type\":\"Log\",\"message\":\"a\\u0001b\\n\"}"),
        Some(log("a\u{1}b\n"))
    );
}

#[test]
fn reading_an_other_message_event_from_given_text() {
    assert_eq!(
        Event::deserialize("{\"type\":\"OtherMessage\",\"code\":-12,\"description\":\"d\"}"),
        Some(other(-12, "d"))
    );
}

#[test]
fn text_in_another_form_gives_no_event() {
    let rejected = [
        "",
        "{}",
        "null",
        "{\"type\":\"Log\"}",
        "{\"type\":\"Log\",\"message\":\"x\"",
        "{\"type\":\"Log\",\"message\":\"x\"} ",
        " {\"type\":\"Log\",\"message\":\"x\"}",
        "{\"type\": \"Log\",\"message\":\"x\"}",
        "{\"type\":\"Log\",\"message\":x}",
        "{\"type\":\"Log\",\"message\":\"x}",
        "{\"type\":\"Log\",\"message\":\"x\"}}",
        "{\"type\":\"Log\",\"message\":\"x\",\"more\":1}",
        "{\"message\":\"x\",\"type\":\"Log\"}",
        "{\"type\":\"log\",\"message\":\"x\"}",
        "{\"type\":\"Other\",\"message\":\"x\"}",
        "{\"type\":\"OtherMessage\",\"code\":1}",
        "{\"type\":\"OtherMessage\",\"code\":,\"description\":\"d\"}",
        "{\"type\":\"OtherMessage\",\"code\":-,\"description\":\"d\"}",
        "{\"type\":\"OtherMessage\",\"code\":+1,\"description\":\"d\"}",
        "{\"type\":\"OtherMessage\",\"code\":1.0,\"description\":\"d\"}",
        "{\"type\":\"OtherMessage\",\"code\":1e2,\"description\":\"d\"}",
        "{\"type\":\"OtherMessage\",\"code\":\"1\",\"description\":\"d\"}",
        "{\"type\":\"OtherMessage\",\"code\":1 ,\"description\":\"d\"}",
        "{\"type\":\"OtherMessage\",\"code\":1,\"description\":\"d\"",
        "{\"type\":\"OtherMessage\",\"code\":1,\"description\":5}",
        "{\"type\":\"OtherMessage\",\"description\":\"d\",\"code\":1}",
    ];
    for text in rejected {
        assert_eq!(Event::deserialize(text), None, "{}", text);
    }
}

#[test]
fn numbers_that_are_not_written_that_way_give_no_event() {
    let rejected = [
        "{\"type\":\"OtherMessage\",\"code\":-0,\"description\":\"d\"}",
        "{\"type\":\"OtherMessage\",\"code\":00,\"description\":\"d\"}",
        "{\"type\":\"OtherMessage\",\"code\":01,\"description\":\"d\"}",
        "{\"type\":\"OtherMessage\",\"code\":-01,\"description\":\"d\"}",
        "{\"type\":\"OtherMessage\",\"code\":2147483648,\"description\":\"d\"}",
        "{\"type\":\"OtherMessage\",\"code\":-2147483649,\"description\":\"d\"}",
        "{\"type\":\"OtherMessage\",\"code\":99999999999999999999999999,\"description\":\"d\"}",
        "{\"type\":\"OtherMessage\",\"code\":-99999999999999999999999999,\"description\":\"d\"}",
        "{\"type\":\"OtherMessage\",\"code\":18446744073709551617,\"description\":\"d\"}",
    ];
    for text in rejected {
        assert_eq!(Event::deserialize(text), None, "{}", text);
    }
}

#[test]
fn escapes_that_are_not_written_that_way_give_no_event() {
    let rejected = [
        "{\"type\":\"Log\",\"message\":\"\\/\"}",
        "{\"type\":\"Log\",\"message\":\"\\u0041\"}",
        "{\"type\":\"Log\",\"message\":\"\\u001F\"}",
        "{\"type\":\"Log\",\"message\":\"\\u000a\"}",
        "{\"type\":\"Log\",\"message\":\"\\u0008\"}",
        "{\"type\":\"Log\",\"message\":\"\\u0020\"}",
        "{\"type\":\"Log\",\"message\":\"\\u00\"}",
        "{\"type\":\"Log\",\"message\":\"\\u001g\"}",
        "{\"type\":\"Log\",\"message\":\"\\u002f\"}",
        "{\"type\":\"Log\",\"message\":\"\\x\"}",
        "{\"type\":\"Log\",\"message\":\"\\\"}",
        "{\"type\":\"Log\",\"message\":\"a\nb\"}",
        "{\"type\":\"Log\",\"message\":\"a\tb\"}",
        "{\"type\":\"Log\",\"message\":\"a\u{0}b\"}",
    ];
    for text in rejected {
        assert_eq!(Event::deserialize(text), None, "{}", text);
    }
}

#[test]
fn string_literals_are_read_where_they_stand() {
    let text = chars_of("xx\"a\\tb\"yy");
    assert_eq!(read_string_literal(&text, 2), Some(("a\tb".to_string(), 8)));
    assert_eq!(read_string_literal(&text, 0), None);
    assert_eq!(read_string_literal(&text, 7), None);
    assert_eq!(read_string_literal(&text, 10), None);
    assert_eq!(read_string_literal(&text, 11), None);
    let text = chars_of("\"\"");
    assert_eq!(read_string_literal(&text, 0), Some((String::new(), 2)));
    let text = chars_of("\"\\u001f\\u0000\"");
    assert_eq!(read_string_literal(&text, 0), Some(("\u{1f}\u{0}".to_string(), 14)));
}

#[test]
fn integer_literals_are_read_up_to_their_last_digit() {
    let text = chars_of("a-120,7");
    assert_eq!(read_integer_literal(&text, 1), Some((-120, 5)));
    assert_eq!(read_integer_literal(&text, 2), Some((120, 5)));
    assert_eq!(read_integer_literal(&text, 4), Some((0, 5)));
    assert_eq!(read_integer_literal(&text, 6), Some((7, 7)));
    assert_eq!(read_integer_literal(&text, 0), None);
    assert_eq!(read_integer_literal(&text, 5), None);
    assert_eq!(read_integer_literal(&text, 7), None);
    assert_eq!(read_integer_literal(&text, 8), None);
    let text = chars_of("2147483647");
    assert_eq!(read_integer_literal(&text, 0), Some((i32::MAX, 10)));
    let text = chars_of("-2147483648");
    assert_eq!(read_integer_literal(&text, 0), Some((i32::MIN, 11)));
    let text = chars_of("-");
    assert_eq!(read_integer_literal(&text, 0), None);
}

#[test]
fn reading_integers_inverts_writing_them() {
    for value in [0, 1, -1, 9, 10, -10, 99, 100, 12345, -98765, i32::MAX, i32::MIN] {
        let written = write_integer_literal(value);
        let text = chars_of(&written);
        assert_eq!(read_integer_literal(&text, 0), Some((value, text.len())));
    }
}

#[test]
fn characters_are_taken_one_by_one() {
    assert_eq!(chars_of("a🐢é"), vec!['a', '🐢', 'é']);
    assert_eq!(chars_of(""), Vec::<char>::new());
}

#[test]
fn patterns_are_found_only_where_they_stand() {
    let text = chars_of("abcabc");
    let pattern = chars_of("bc");
    assert!(has_at(&text, 1, &pattern));
    assert!(has_at(&text, 4, &pattern));
    assert!(!has_at(&text, 0, &pattern));
    assert!(!has_at(&text, 5, &pattern));
    assert!(!has_at(&text, 6, &pattern));
    assert!(!has_at(&text, 7, &pattern));
    assert!(has_at(&text, 6, &chars_of("")));
    assert!(!has_at(&text, 7, &chars_of("")));
}

#[test]
fn a_copy_of_an_event_is_the_same_event() {
    for event in [log("copy \"me\""), other(-3, "thrice"), log("")] {
        let copy = event.clone();
        assert_eq!(copy, event);
        assert_eq!(copy.serialize(), event.serialize());
    }
}
