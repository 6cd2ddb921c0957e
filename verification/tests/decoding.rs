use pixotope_sync::cameras::{camera_names, get_cameras};
use pixotope_sync::color_space::get_color_space;
use pixotope_sync::decode::{
    decode_scalar, device_document, message_value, scalar_value, strip_brackets, DecodeError,
};
use pixotope_sync::input_output::get_input_output;
use pixotope_sync::json::{parse_json, Json};
use pixotope_sync::state::get_current_state;

fn text(s: &str) -> Json {
    Json::Text(s.to_string())
}

fn object(members: Vec<(&str, Json)>) -> Json {
    Json::Object(members.into_iter().map(|(k, v)| (k.to_string(), v)).collect())
}

fn sorted(mut names: Vec<String>) -> Vec<String> {
    names.sort();
    names
}

#[test]
fn wrapped_scalar_decodes_to_its_value() {
    let response = "[{\"Message\":{\"Value\":\"ACEScg\"}}]";
    assert_eq!(decode_scalar(response), Ok("ACEScg".to_string()));
    assert_eq!(get_color_space(response), Ok("ACEScg".to_string()));
    assert_eq!(get_input_output(response), Ok("ACEScg".to_string()));
}

#[test]
fn other_members_of_the_answer_are_ignored() {
    let response = "[{\"Topic\":{\"Type\":\"Update\",\"Id\":7},\"Message\":{\"Extra\":[1,2.5,null],\"Value\":\"NDI\"}}]";
    assert_eq!(get_input_output(response), Ok("NDI".to_string()));
}

#[test]
fn escapes_in_the_value_are_resolved() {
    let response = "[{\"Message\":{\"Value\":\"a\\\"b\\u00e9\\n\"}}]";
    assert_eq!(decode_scalar(response), Ok("a\"b\u{e9}\n".to_string()));
}

#[test]
fn answer_without_brackets_is_not_wrapped() {
    assert_eq!(decode_scalar(""), Err(DecodeError::NotWrapped));
    assert_eq!(decode_scalar("["), Err(DecodeError::NotWrapped));
    assert_eq!(decode_scalar("]"), Err(DecodeError::NotWrapped));
    assert_eq!(decode_scalar("{\"Message\":{\"Value\":\"x\"}}"), Err(DecodeError::NotWrapped));
    assert_eq!(decode_scalar("[{\"Message\":{\"Value\":\"x\"}}]\n"), Err(DecodeError::NotWrapped));
    assert_eq!(decode_scalar(" [{\"Message\":{\"Value\":\"x\"}}]"), Err(DecodeError::NotWrapped));
    assert_eq!(get_cameras("x"), Err(DecodeError::NotWrapped));
}

#[test]
fn answer_that_is_not_one_document_is_malformed() {
    assert_eq!(decode_scalar("[]"), Err(DecodeError::Malformed));
    assert_eq!(decode_scalar("[{]"), Err(DecodeError::Malformed));
    assert_eq!(decode_scalar("[{\"Message\":{\"Value\":\"x\"}},{}]"), Err(DecodeError::Malformed));
    assert_eq!(decode_scalar("[{\"Message\":{\"Value\":\"x\"}]"), Err(DecodeError::Malformed));
    assert_eq!(get_cameras("[nope]"), Err(DecodeError::Malformed));
}

#[test]
fn answer_of_another_shape_is_refused() {
    assert_eq!(decode_scalar("[{}]"), Err(DecodeError::UnexpectedShape));
    assert_eq!(decode_scalar("[[]]"), Err(DecodeError::UnexpectedShape));
    assert_eq!(decode_scalar("[\"x\"]"), Err(DecodeError::UnexpectedShape));
    assert_eq!(decode_scalar("[{\"Message\":\"x\"}]"), Err(DecodeError::UnexpectedShape));
    assert_eq!(decode_scalar("[{\"Message\":{}}]"), Err(DecodeError::UnexpectedShape));
    assert_eq!(decode_scalar("[{\"Message\":{\"Value\":5}}]"), Err(DecodeError::UnexpectedShape));
    assert_eq!(decode_scalar("[{\"Message\":{\"Value\":null}}]"), Err(DecodeError::UnexpectedShape));
    assert_eq!(decode_scalar("[{\"message\":{\"value\":\"x\"}}]"), Err(DecodeError::UnexpectedShape));
    assert_eq!(decode_scalar("[{\"Message\":{\"Value\":{\"a\":{\"Name\":\"A\"}}}}]"), Err(DecodeError::UnexpectedShape));
}

#[test]
fn error_messages_name_the_failure() {
    assert_eq!(DecodeError::NotWrapped.message(), "device response is not a one-element array");
    assert_eq!(DecodeError::Malformed.message(), "device response is not valid JSON");
    assert_eq!(DecodeError::UnexpectedShape.message(), "device response has an unexpected shape");
}

#[test]
fn strip_brackets_takes_first_and_last_character() {
    assert_eq!(strip_brackets("[abc]"), Some("abc"));
    assert_eq!(strip_brackets("[]"), Some(""));
    assert_eq!(strip_brackets("[[x]]"), Some("[x]"));
    assert_eq!(strip_brackets("[\u{e9}\u{1f600}]"), Some("\u{e9}\u{1f600}"));
    assert_eq!(strip_brackets("[abc"), None);
    assert_eq!(strip_brackets("abc]"), None);
    assert_eq!(strip_brackets("["), None);
    assert_eq!(strip_brackets(""), None);
    assert_eq!(strip_brackets("(abc)"), None);
}

#[test]
fn parse_json_builds_the_tree() {
    let doc = parse_json("{\"a\": [1, true, null, \"x\", {\"b\": false}]}").unwrap();
    let Json::Object(members) = doc else { panic!("not an object") };
    assert_eq!(members.len(), 1);
    assert_eq!(members[0].0, "a");
    let Json::Array(items) = &members[0].1 else { panic!("not an array") };
    assert_eq!(items.len(), 5);
    assert!(matches!(items[0], Json::Number));
    assert!(matches!(items[1], Json::Bool(true)));
    assert!(matches!(items[2], Json::Null));
    assert!(matches!(&items[3], Json::Text(t) if t == "x"));
    let Json::Object(inner) = &items[4] else { panic!("not an object") };
    assert_eq!(inner.len(), 1);
    assert_eq!(inner[0].0, "b");
    assert!(matches!(inner[0].1, Json::Bool(false)));
}

#[test]
fn parse_json_refuses_what_is_no_document() {
    assert!(parse_json("").is_none());
    assert!(parse_json("{").is_none());
    assert!(parse_json("{} {}").is_none());
    assert!(parse_json("{'a': 1}").is_none());
    assert!(parse_json("[1,]").is_none());
    assert!(matches!(parse_json(" \"x\" "), Some(Json::Text(t)) if t == "x"));
    assert!(matches!(parse_json("null"), Some(Json::Null)));
}

#[test]
fn repeated_key_keeps_its_last_value() {
    assert_eq!(
        decode_scalar("[{\"Message\":{\"Value\":\"a\",\"Value\":\"b\"}}]"),
        Ok("b".to_string())
    );
}

#[test]
fn member_finds_the_first_key_that_matches() {
    let doc = object(vec![("a", text("1")), ("b", text("2")), ("a", text("3"))]);
    assert!(matches!(doc.member("a"), Some(Json::Text(t)) if t == "1"));
    assert!(matches!(doc.member("b"), Some(Json::Text(t)) if t == "2"));
    assert!(doc.member("c").is_none());
    assert!(doc.member("").is_none());
    assert!(text("a").member("a").is_none());
    assert!(Json::Array(vec![text("a")]).member("a").is_none());
}

#[test]
fn as_text_and_as_members_tell_the_kinds_apart() {
    assert_eq!(text("x").as_text(), Some("x"));
    assert_eq!(Json::Null.as_text(), None);
    assert_eq!(Json::Number.as_text(), None);
    assert_eq!(object(vec![]).as_text(), None);
    assert_eq!(object(vec![("k", Json::Null)]).as_members().map(|m| m.len()), Some(1));
    assert!(text("x").as_members().is_none());
    assert!(Json::Array(vec![]).as_members().is_none());
}

#[test]
fn scalar_value_reads_message_value() {
    let doc = object(vec![("Message", object(vec![("Value", text("SRT"))]))]);
    assert_eq!(scalar_value(&doc), Some("SRT".to_string()));
    assert!(matches!(message_value(&doc), Some(Json::Text(t)) if t == "SRT"));
    let doc = object(vec![("Message", object(vec![("Value", Json::Bool(true))]))]);
    assert_eq!(scalar_value(&doc), None);
    assert!(matches!(message_value(&doc), Some(Json::Bool(true))));
    let doc = object(vec![("Message", object(vec![("Other", text("SRT"))]))]);
    assert_eq!(scalar_value(&doc), None);
    assert!(message_value(&doc).is_none());
    assert_eq!(scalar_value(&text("SRT")), None);
}

#[test]
fn camera_names_come_in_member_order() {
    let camera = |name: &str| object(vec![("Id", Json::Number), ("Name", text(name))]);
    let doc = object(vec![(
        "Message",
        object(vec![(
            "Value",
            object(vec![("z", camera("Wide")), ("a", camera("Close")), ("m", camera("Wide"))]),
        )]),
    )]);
    assert_eq!(
        camera_names(&doc),
        Some(vec!["Wide".to_string(), "Close".to_string(), "Wide".to_string()])
    );
}

#[test]
fn camera_without_name_spoils_the_roster() {
    let named = object(vec![("Name", text("A"))]);
    let unnamed = object(vec![("Label", text("B"))]);
    let doc = object(vec![("Message", object(vec![("Value", object(vec![("1", named), ("2", unnamed)]))]))]);
    assert_eq!(camera_names(&doc), None);
    let doc = object(vec![("Message", object(vec![("Value", object(vec![("1", text("A"))]))]))]);
    assert_eq!(camera_names(&doc), None);
    let doc = object(vec![("Message", object(vec![("Value", Json::Array(vec![]))]))]);
    assert_eq!(camera_names(&doc), None);
    let doc = object(vec![("Message", object(vec![("Value", object(vec![]))]))]);
    assert_eq!(camera_names(&doc), Some(vec![]));
}

#[test]
fn wrapped_roster_decodes_to_the_names() {
    let response = "[{\"Message\":{\"Value\":{\"id-2\":{\"Name\":\"Camera B\",\"Fps\":25},\"id-1\":{\"Name\":\"Camera A\"}}}}]";
    let names = get_cameras(response).unwrap();
    assert_eq!(sorted(names), vec!["Camera A".to_string(), "Camera B".to_string()]);
    assert_eq!(get_cameras("[{\"Message\":{\"Value\":{}}}]"), Ok(vec![]));
    assert_eq!(
        get_cameras("[{\"Message\":{\"Value\":{\"only\":{\"Name\":\"Solo\"}}}}]"),
        Ok(vec!["Solo".to_string()])
    );
}

#[test]
fn roster_of_another_shape_is_refused() {
    assert_eq!(get_cameras("[{\"Message\":{\"Value\":\"x\"}}]"), Err(DecodeError::UnexpectedShape));
    assert_eq!(get_cameras("[{\"Message\":{\"Value\":[{\"Name\":\"A\"}]}}]"), Err(DecodeError::UnexpectedShape));
    assert_eq!(get_cameras("[{\"Message\":{\"Value\":{\"1\":{\"Name\":1}}}}]"), Err(DecodeError::UnexpectedShape));
    assert_eq!(get_cameras("[{\"Message\":{\"Value\":{\"1\":{}}}}]"), Err(DecodeError::UnexpectedShape));
    assert_eq!(get_cameras("[{\"Message\":{}}]"), Err(DecodeError::UnexpectedShape));
}

#[test]
fn device_document_reports_the_stage_that_failed() {
    assert!(matches!(device_document("x"), Err(DecodeError::NotWrapped)));
    assert!(matches!(device_document("[x]"), Err(DecodeError::Malformed)));
    assert!(matches!(device_document("[7]"), Ok(Json::Number)));
}

#[test]
fn current_state_decodes_all_three_answers() {
    let state = get_current_state(
        "[{\"Message\":{\"Value\":\"ACEScg\"}}]",
        "[{\"Message\":{\"Value\":\"AJA\"}}]",
        "[{\"Message\":{\"Value\":{\"1\":{\"Name\":\"Cam\"}}}}]",
    );
    assert_eq!(state, Ok(("ACEScg".to_string(), "AJA".to_string(), vec!["Cam".to_string()])));
}

#[test]
fn current_state_fails_with_the_first_answer_that_fails() {
    let good = "[{\"Message\":{\"Value\":\"x\"}}]";
    let cameras = "[{\"Message\":{\"Value\":{}}}]";
    assert_eq!(get_current_state("nope", "[x]", "[{}]"), Err(DecodeError::NotWrapped));
    assert_eq!(get_current_state(good, "[x]", "[{}]"), Err(DecodeError::Malformed));
    assert_eq!(get_current_state(good, good, "[{}]"), Err(DecodeError::UnexpectedShape));
    assert_eq!(get_current_state("[x]", "nope", cameras), Err(DecodeError::Malformed));
    assert_eq!(get_current_state(good, good, good), Err(DecodeError::UnexpectedShape));
}
