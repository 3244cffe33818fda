use pulse_tui::mode::{DisplayFormat, FunctionCode};
use pulse_tui::state::ModbusRow;
use pulse_tui::ui::{
    centered_rect, detect_format, format_display, highlight_json, highlight_line, highlight_search,
    message_scroll, opcua_column_percentages, search_markable, raw_input_error, serial_hex_error, trace_start, window_start, wrap_line,
    yank_range, Area, Panel, PayloadFormat, SpanKind,
};

#[test]
fn trace_follows_latest_and_scrolls_back_immediately() {
    assert_eq!(trace_start(100, 10, 0), 90);
    assert_eq!(trace_start(100, 10, 1), 89);
    assert_eq!(trace_start(100, 10, 500), 0);
    assert_eq!(trace_start(5, 10, 3), 0);
}

#[test]
fn panel_toggles_back_and_forth() {
    assert_eq!(Panel::default(), Panel::Topics);
    assert_eq!(Panel::Topics.toggle(), Panel::Messages);
    assert_eq!(Panel::Topics.toggle().toggle(), Panel::Topics);
}

#[test]
fn detects_json_after_leading_white_space() {
    assert_eq!(detect_format("  {\"a\":1}"), PayloadFormat::Json);
    assert_eq!(detect_format("\n\t[1,2]"), PayloadFormat::Json);
    assert_eq!(detect_format("\u{a0}{"), PayloadFormat::Json);
    assert_eq!(detect_format("hello {"), PayloadFormat::Plain);
    assert_eq!(detect_format(""), PayloadFormat::Plain);
    assert_eq!(detect_format("   "), PayloadFormat::Plain);
}

#[test]
fn wraps_by_characters() {
    assert_eq!(wrap_line("abcdefg", 3), vec!["abc", "def", "g"]);
    assert_eq!(wrap_line("abcdef", 3), vec!["abc", "def"]);
    assert_eq!(wrap_line("äöüß", 2), vec!["äö", "üß"]);
    assert_eq!(wrap_line("abc", 0), vec!["abc"]);
    assert_eq!(wrap_line("", 5), vec![""]);
}

#[test]
fn checks_raw_apdu_input() {
    assert_eq!(raw_input_error(""), None);
    assert_eq!(raw_input_error("68 04 07 00 00 00"), None);
    assert_eq!(
        raw_input_error("68 0G"),
        Some("Only hexadecimal bytes and spaces are allowed".to_string())
    );
    assert_eq!(
        raw_input_error("68 0"),
        Some("Each APDU byte needs two hexadecimal digits".to_string())
    );
}

#[test]
fn checks_serial_hex_input() {
    assert_eq!(serial_hex_error("4142", false), None);
    assert_eq!(serial_hex_error("zz", false), None);
    assert_eq!(serial_hex_error("41 42", true), None);
    assert_eq!(
        serial_hex_error("4x", true),
        Some("Illegal character — only 0-9 A-F a-f and spaces allowed")
    );
    assert_eq!(
        serial_hex_error("414", true),
        Some("Odd number of hex digits — each byte needs 2 digits")
    );
    assert_eq!(
        serial_hex_error("41\t42", true),
        Some("Illegal character — only 0-9 A-F a-f and spaces allowed")
    );
}

#[test]
fn centres_and_clips_popups() {
    let area = Area { x: 0, y: 0, width: 100, height: 30 };
    assert_eq!(centered_rect(40, 5, area), Area { x: 30, y: 12, width: 40, height: 5 });
    let small = Area { x: 2, y: 3, width: 20, height: 4 };
    assert_eq!(centered_rect(40, 5, small), Area { x: 2, y: 3, width: 20, height: 4 });
}

#[test]
fn opcua_columns_depend_on_width() {
    assert_eq!(opcua_column_percentages(80), [20, 18, 16, 12, 17, 17]);
    assert_eq!(opcua_column_percentages(90), [22, 18, 14, 12, 17, 17]);
}

fn texts(segments: &[pulse_tui::ui::Segment]) -> Vec<(String, SpanKind)> {
    segments.iter().map(|s| (s.text.clone(), s.kind)).collect()
}

#[test]
fn highlights_json_tokens() {
    let out = highlight_json("{\"a\": 1.5e3, \"b\": [true, null], \"c\": \"x\\\"y\"}");
    let t = texts(&out);
    assert_eq!(t[0], ("{".to_string(), SpanKind::Bracket));
    assert_eq!(t[1], ("\"a\"".to_string(), SpanKind::Key));
    assert_eq!(t[2], (":".to_string(), SpanKind::Colon));
    assert_eq!(t[3], (" ".to_string(), SpanKind::Raw));
    assert_eq!(t[4], ("1.5e3".to_string(), SpanKind::Number));
    assert_eq!(t[5], (",".to_string(), SpanKind::Comma));
    assert!(t.contains(&("true".to_string(), SpanKind::True)));
    assert!(t.contains(&("null".to_string(), SpanKind::Null)));
    assert!(t.contains(&("\"x\\\"y\"".to_string(), SpanKind::Str)));
    let joined: String = out.iter().map(|s| s.text.as_str()).collect();
    assert_eq!(joined, "{\"a\": 1.5e3, \"b\": [true, null], \"c\": \"x\\\"y\"}");
}

#[test]
fn highlights_negative_numbers_and_keys_after_tabs() {
    let t = texts(&highlight_json("\"k\"\t: -12"));
    assert_eq!(t[0], ("\"k\"".to_string(), SpanKind::Key));
    assert_eq!(t[1], ("\t".to_string(), SpanKind::Raw));
    assert_eq!(t[4], ("-12".to_string(), SpanKind::Number));
    let empty = texts(&highlight_json(""));
    assert_eq!(empty, vec![(String::new(), SpanKind::Raw)]);
}

#[test]
fn highlights_search_matches_case_insensitively() {
    let t = texts(&highlight_search("Temp=21 temp=22", "TEMP"));
    assert_eq!(
        t,
        vec![
            ("Temp".to_string(), SpanKind::Match),
            ("=21 ".to_string(), SpanKind::Raw),
            ("temp".to_string(), SpanKind::Match),
            ("=22".to_string(), SpanKind::Raw),
        ]
    );
    let end = texts(&highlight_search("abc", "c"));
    assert_eq!(
        end,
        vec![
            ("ab".to_string(), SpanKind::Raw),
            ("c".to_string(), SpanKind::Match),
            (String::new(), SpanKind::Raw),
        ]
    );
}

#[test]
fn highlight_line_picks_the_mode() {
    let plain = texts(&highlight_line("{x}", PayloadFormat::Plain, ""));
    assert_eq!(plain, vec![("{x}".to_string(), SpanKind::Raw)]);
    let cut = texts(&highlight_line("\"a\\", PayloadFormat::Json, ""));
    assert_eq!(cut, vec![("\"a\\".to_string(), SpanKind::Raw)]);
    let found = texts(&highlight_line("xAx", PayloadFormat::Json, "a"));
    assert_eq!(found[1], ("A".to_string(), SpanKind::Match));
}

fn rows(values: &[u16]) -> Vec<ModbusRow> {
    values
        .iter()
        .enumerate()
        .map(|(i, v)| ModbusRow { address: i as u16, value: *v })
        .collect()
}

#[test]
fn formats_register_display() {
    let r = rows(&[0xfffe, 0x0001, 0x4049, 0x0fdb]);
    assert_eq!(format_display(&r, 0, DisplayFormat::Unsigned, FunctionCode::FC03Holding), "65534");
    assert_eq!(format_display(&r, 0, DisplayFormat::Signed, FunctionCode::FC03Holding), "-2");
    assert_eq!(format_display(&r, 1, DisplayFormat::Hex, FunctionCode::FC03Holding), format!("{:#06X}", 1u16));
    assert_eq!(format_display(&r, 0, DisplayFormat::Binary, FunctionCode::FC03Holding), format!("{:016b}", 0xfffeu16));
    assert_eq!(format_display(&r, 0, DisplayFormat::Long, FunctionCode::FC03Holding), ((0xfffe_0001u32) as i32).to_string());
    assert_eq!(format_display(&r, 1, DisplayFormat::Long, FunctionCode::FC03Holding), "");
    assert_eq!(format_display(&r, 2, DisplayFormat::Float, FunctionCode::FC03Holding), "3.1416");
    assert_eq!(format_display(&r, 2, DisplayFormat::FloatInverse, FunctionCode::FC03Holding), format!("{:.4}", f32::from_bits(0x0fdb_4049)));
    assert_eq!(format_display(&r, 0, DisplayFormat::Double, FunctionCode::FC03Holding), format!("{:.6}", f64::from_bits(0xfffe_0001_4049_0fdb)));
    assert_eq!(format_display(&r, 3, DisplayFormat::Unsigned, FunctionCode::FC01Coil), "ON");
    let off = rows(&[0]);
    assert_eq!(format_display(&off, 0, DisplayFormat::Float, FunctionCode::FC02Discrete), "OFF");
}

#[test]
fn windows_stay_full_and_follow_the_selection() {
    assert_eq!(window_start(5, 100, 10), 5);
    assert_eq!(window_start(95, 100, 10), 90);
    assert_eq!(window_start(3, 4, 10), 0);
    assert_eq!(message_scroll(None, 10, 40), 30);
    assert_eq!(message_scroll(None, 10, 4), 0);
    assert_eq!(message_scroll(Some(20), 9, 40), 17);
    assert_eq!(message_scroll(Some(2), 9, 40), 0);
    assert_eq!(message_scroll(Some(38), 9, 40), 31);
    assert_eq!(yank_range(7, 3, 10), (3, 7));
    assert_eq!(yank_range(2, 30, 10), (2, 10));
    assert_eq!(yank_range(12, 15, 10), (10, 10));
}

#[test]
fn search_cuts_the_line_at_the_lower_cased_byte_offsets() {
    // The Kelvin sign takes three bytes and lower-cases to a one-byte "k":
    // the match "cd" at bytes 3..5 of "kabcdef" marks bytes 3..5 of the line.
    let line = "\u{212A}abcdef";
    assert!(search_markable(line, "CD"));
    let t = texts(&highlight_search(line, "CD"));
    assert_eq!(
        t,
        vec![
            ("\u{212A}".to_string(), SpanKind::Raw),
            ("ab".to_string(), SpanKind::Match),
            ("cdef".to_string(), SpanKind::Raw),
        ]
    );
    // Here the match starts at byte 2, inside the Kelvin sign: no cut is
    // possible and the line stays one plain piece.
    let inside = "\u{212A}xabc";
    assert!(!search_markable(inside, "ab"));
    assert_eq!(texts(&highlight_line(inside, PayloadFormat::Plain, "ab")), vec![(inside.to_string(), SpanKind::Raw)]);
    assert!(!search_markable("abc", ""));
}
