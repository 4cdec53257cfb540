use drag_monitor::helper::{
    encode_helper_event, initial_position_from_args, is_shutdown_line, parse_helper_line,
    translated_name, HelperEvent, HelperEventType,
};
use drag_monitor::json::{chars_of, parse_number};

fn num(s: &str) -> Option<(i64, usize)> {
    parse_number(&chars_of(s), 0)
}

#[test]
fn a_dropped_line_parses_into_its_fields() {
    let ev =
        parse_helper_line("{\"event_type\":\"dropped\",\"path\":\"/tmp/a.txt\",\"x\":1.0,\"y\":2.0}")
            .unwrap();
    assert_eq!(ev.event_type, HelperEventType::Dropped);
    assert_eq!(ev.path.as_deref(), Some("/tmp/a.txt"));
    assert_eq!((ev.x, ev.y), (1, 2));
    assert_eq!(translated_name(ev.event_type), "dropped_file");
}

#[test]
fn a_non_json_line_is_ignored() {
    assert!(parse_helper_line("not json at all").is_none());
    assert!(parse_helper_line("").is_none());
    assert!(parse_helper_line("{\"event_type\":").is_none());
}

#[test]
fn field_order_does_not_matter_and_unknown_fields_are_ignored() {
    let ev = parse_helper_line(
        "{ \"y\" : -3 , \"path\" : null , \"extra\" : true , \"x\" : 7 , \"event_type\" : \"cancelled\" }",
    )
    .unwrap();
    assert_eq!(ev.event_type, HelperEventType::Cancelled);
    assert!(ev.path.is_none());
    assert_eq!((ev.x, ev.y), (7, -3));
    assert_eq!(translated_name(ev.event_type), "hovered_file_cancelled");
}

#[test]
fn the_first_occurrence_of_a_duplicated_field_wins() {
    let ev = parse_helper_line(
        "{\"event_type\":\"hovered\",\"event_type\":\"dropped\",\"path\":null,\"x\":0,\"y\":0}",
    )
    .unwrap();
    assert_eq!(ev.event_type, HelperEventType::Hovered);
    assert_eq!(translated_name(ev.event_type), "hovered_file");
}

#[test]
fn missing_or_mistyped_fields_make_the_line_malformed() {
    assert!(parse_helper_line("{\"event_type\":\"dropped\",\"path\":null,\"x\":1}").is_none());
    assert!(
        parse_helper_line("{\"event_type\":\"dropped\",\"path\":3,\"x\":1,\"y\":1}").is_none()
    );
    assert!(
        parse_helper_line("{\"event_type\":true,\"path\":null,\"x\":1,\"y\":1}").is_none()
    );
    assert!(
        parse_helper_line("{\"event_type\":\"other\",\"path\":null,\"x\":1,\"y\":1}").is_none()
    );
    assert!(
        parse_helper_line("{\"event_type\":\"dropped\",\"path\":null,\"x\":null,\"y\":1}")
            .is_none()
    );
}

#[test]
fn trailing_garbage_and_nested_values_are_malformed() {
    assert!(
        parse_helper_line("{\"event_type\":\"dropped\",\"path\":null,\"x\":1,\"y\":1} x").is_none()
    );
    assert!(
        parse_helper_line("{\"event_type\":\"dropped\",\"path\":[],\"x\":1,\"y\":1}").is_none()
    );
    assert!(
        parse_helper_line("{\"event_type\":\"dropped\",\"path\":{},\"x\":1,\"y\":1}").is_none()
    );
}

#[test]
fn string_escapes_are_understood() {
    let ev = parse_helper_line(
        "{\"event_type\":\"dropped\",\"path\":\"a\\\"b\\\\c\\u0041\\n\\t\",\"x\":0,\"y\":0}",
    )
    .unwrap();
    assert_eq!(ev.path.as_deref(), Some("a\"b\\cA\n\t"));
}

#[test]
fn unsupported_escapes_and_raw_controls_are_malformed() {
    assert!(parse_helper_line(
        "{\"event_type\":\"dropped\",\"path\":\"\\u0100\",\"x\":0,\"y\":0}"
    )
    .is_none());
    assert!(parse_helper_line(
        "{\"event_type\":\"dropped\",\"path\":\"a\\qb\",\"x\":0,\"y\":0}"
    )
    .is_none());
    assert!(parse_helper_line(
        "{\"event_type\":\"dropped\",\"path\":\"a\tb\",\"x\":0,\"y\":0}"
    )
    .is_none());
}

#[test]
fn numbers_truncate_toward_zero() {
    assert_eq!(num("0"), Some((0, 1)));
    assert_eq!(num("-0"), Some((0, 2)));
    assert_eq!(num("123.456"), Some((123, 7)));
    assert_eq!(num("-1.5"), Some((-1, 4)));
    assert_eq!(num("-0.75"), Some((0, 5)));
    assert_eq!(num("1e3"), Some((1000, 3)));
    assert_eq!(num("0.5e1"), Some((5, 5)));
    assert_eq!(num("25e-1"), Some((2, 5)));
    assert_eq!(num("1E-2"), Some((0, 4)));
    assert_eq!(num("1.25E+2"), Some((125, 7)));
    assert_eq!(num("0.0e999999999999999999999999"), Some((0, 28)));
    assert_eq!(num("1e-999999999999999999999999"), Some((0, 27)));
}

#[test]
fn numbers_at_the_i64_boundary() {
    assert_eq!(num("9223372036854775807"), Some((i64::MAX, 19)));
    assert_eq!(num("-9223372036854775808"), Some((i64::MIN, 20)));
    assert!(num("9223372036854775808").is_none());
    assert!(num("-9223372036854775809").is_none());
    assert!(num("1e30").is_none());
    assert!(num("-2e19").is_none());
}

#[test]
fn malformed_numbers_are_refused() {
    assert!(num("").is_none());
    assert!(num("-").is_none());
    assert!(num("01").is_none());
    assert!(num("+1").is_none());
    assert!(num("1.").is_none());
    assert!(num(".5").is_none());
    assert!(num("1e").is_none());
    assert!(num("abc").is_none());
}

#[test]
fn encoding_a_dropped_event_writes_the_wire_line() {
    let ev = HelperEvent {
        event_type: HelperEventType::Dropped,
        path: Some(String::from("/tmp/a.txt")),
        x: 1,
        y: 2,
    };
    assert_eq!(
        encode_helper_event(&ev),
        "{\"event_type\":\"dropped\",\"path\":\"/tmp/a.txt\",\"x\":1,\"y\":2}"
    );
}

#[test]
fn encoding_a_cancelled_event_writes_a_null_path() {
    let ev = HelperEvent {
        event_type: HelperEventType::Cancelled,
        path: None,
        x: -4,
        y: 0,
    };
    assert_eq!(
        encode_helper_event(&ev),
        "{\"event_type\":\"cancelled\",\"path\":null,\"x\":-4,\"y\":0}"
    );
}

#[test]
fn encoded_events_parse_back_unchanged() {
    let cases = vec![
        HelperEvent {
            event_type: HelperEventType::Hovered,
            path: Some(String::from("/home/u/it has spaces/ünïcode.txt")),
            x: -12345,
            y: 67890,
        },
        HelperEvent {
            event_type: HelperEventType::Dropped,
            path: Some(String::from("quote\" back\\slash \n\t\r controls\u{1}\u{1f}")),
            x: i64::MAX,
            y: i64::MIN,
        },
        HelperEvent { event_type: HelperEventType::Cancelled, path: None, x: 0, y: 0 },
    ];
    for ev in cases {
        let line = encode_helper_event(&ev);
        let back = parse_helper_line(&line).unwrap();
        assert_eq!(back.event_type, ev.event_type);
        assert_eq!(back.path, ev.path);
        assert_eq!(back.x, ev.x);
        assert_eq!(back.y, ev.y);
    }
}

#[test]
fn the_shutdown_line_is_recognized_with_surrounding_whitespace() {
    assert!(is_shutdown_line("shutdown"));
    assert!(is_shutdown_line("  shutdown\r\n"));
    assert!(is_shutdown_line("\tshutdown "));
    assert!(!is_shutdown_line("shutdown now"));
    assert!(!is_shutdown_line("SHUTDOWN"));
    assert!(!is_shutdown_line(""));
    assert!(!is_shutdown_line("   "));
}

#[test]
fn the_initial_position_comes_from_two_numeric_arguments() {
    let args = vec![String::from("helper"), String::from("123.5"), String::from("-7")];
    let pos = initial_position_from_args(&args).unwrap();
    assert_eq!((pos.x, pos.y), (123, -7));
    let bad = vec![String::from("helper"), String::from("abc"), String::from("1")];
    assert!(initial_position_from_args(&bad).is_none());
    let few = vec![String::from("helper"), String::from("1")];
    assert!(initial_position_from_args(&few).is_none());
    let spaced = vec![String::from("helper"), String::from(" 1"), String::from("2")];
    assert!(initial_position_from_args(&spaced).is_none());
}

#[test]
fn coordinates_outside_the_model_range_make_the_line_malformed() {
    assert!(parse_helper_line(
        "{\"event_type\":\"dropped\",\"path\":null,\"x\":1e30,\"y\":0}"
    )
    .is_none());
    let ev = parse_helper_line(
        "{\"event_type\":\"dropped\",\"path\":null,\"x\":9223372036854775807,\"y\":-9223372036854775808}",
    )
    .unwrap();
    assert_eq!((ev.x, ev.y), (i64::MAX, i64::MIN));
}

#[test]
fn an_empty_object_is_missing_its_fields() {
    assert!(parse_helper_line("{}").is_none());
    assert!(parse_helper_line("  { }  ").is_none());
}
