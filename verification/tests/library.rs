use pulse_tui::config::{update_topics, SavedConfig};
use pulse_tui::mode::{ConnectStatus, SerialForm};
use pulse_tui::modbus::{bits_to_registers, rows_from_values, ModbusConfig};
use pulse_tui::mqtt::hex_suffix;
use pulse_tui::opcua::{add_node_id, apply_command, format_value, remove_node_id, OpcUaCommand, OpcValue};
use pulse_tui::serial::LineAssembler;
use pulse_tui::state::{AppState, ModbusRow, MqttMessage, SerialDisplayFormat, SerialEntry, TrendValue};
use pulse_tui::text::parse_unsigned_text;

#[test]
fn lines_are_cut_at_line_ends_across_reads() {
    let mut a = LineAssembler::new();
    assert!(a.feed("hel").is_empty());
    assert_eq!(a.feed("lo\r\nwor"), vec!["hello"]);
    assert_eq!(a.feed("ld\n\n\rx"), vec!["world"]);
    assert_eq!(a.flush(), Some("x".to_string()));
    assert_eq!(a.flush(), None);
    assert_eq!(a.feed_bytes(&[0x61, 0xff, 0x0a]), vec!["a\u{fffd}"]);
}

#[test]
fn coil_states_become_words() {
    assert_eq!(bits_to_registers(&[true, false, true]), vec![1, 0, 1]);
    assert!(bits_to_registers(&[]).is_empty());
}

#[test]
fn register_rows_wrap_their_addresses() {
    let rows = rows_from_values(65534, &[7, 8, 9]);
    let addresses: Vec<u16> = rows.iter().map(|r| r.address).collect();
    assert_eq!(addresses, vec![65534, 65535, 0]);
    assert_eq!(rows[1].value, 8);
}

#[test]
fn modbus_defaults() {
    let c = ModbusConfig::default();
    assert_eq!((c.host.as_str(), c.port, c.unit_id, c.poll_interval_ms), ("localhost", 502, 1, 1000));
}

#[test]
fn client_id_suffix_is_four_hex_digits() {
    assert_eq!(hex_suffix(0x1234_abcd), "abcd");
    assert_eq!(hex_suffix(7), "0007");
}

#[test]
fn node_list_edits() {
    let mut ids = vec!["ns=2;s=A".to_string()];
    add_node_id(&mut ids, "ns=2;s=B".to_string());
    add_node_id(&mut ids, "ns=2;s=A".to_string());
    assert_eq!(ids, vec!["ns=2;s=A", "ns=2;s=B"]);
    remove_node_id(&mut ids, "ns=2;s=A");
    assert_eq!(ids, vec!["ns=2;s=B"]);
    apply_command(&mut ids, OpcUaCommand::AddNode("i=85".to_string()));
    apply_command(&mut ids, OpcUaCommand::RemoveNode("ns=2;s=B".to_string()));
    assert_eq!(ids, vec!["i=85"]);
}

#[test]
fn adding_then_removing_a_node_gives_the_list_back() {
    let before = vec!["ns=2;s=A".to_string(), "i=85".to_string()];
    let mut ids = before.clone();
    apply_command(&mut ids, OpcUaCommand::AddNode("ns=3;i=7".to_string()));
    assert_eq!(ids, vec!["ns=2;s=A", "i=85", "ns=3;i=7"]);
    apply_command(&mut ids, OpcUaCommand::RemoveNode("ns=3;i=7".to_string()));
    assert_eq!(ids, before);
    let mut twice = vec!["a".to_string(), "b".to_string(), "a".to_string()];
    apply_command(&mut twice, OpcUaCommand::RemoveNode("a".to_string()));
    assert_eq!(twice, vec!["b"]);
}

#[test]
fn opc_values_are_written_out() {
    assert_eq!(format_value(&OpcValue::Empty), "—");
    assert_eq!(format_value(&OpcValue::Boolean(true)), "true");
    assert_eq!(format_value(&OpcValue::Signed(-5)), "-5");
    assert_eq!(format_value(&OpcValue::Unsigned(18446744073709551615)), "18446744073709551615");
    assert_eq!(format_value(&OpcValue::Array(vec![])), "[]");
    let nested = OpcValue::Array(vec![
        OpcValue::Unsigned(1),
        OpcValue::Nested(Box::new(OpcValue::Text("x".to_string()))),
        OpcValue::Array(vec![OpcValue::Boolean(false)]),
    ]);
    assert_eq!(format_value(&nested), "1, x, false");
}

#[test]
fn saving_topics_keeps_the_rest_of_the_settings() {
    let mut cfg = SavedConfig::default_config();
    cfg.mqtt.username = "u".to_string();
    update_topics(&mut cfg, &["a".to_string(), "b".to_string()]);
    assert_eq!(cfg.mqtt.topics, vec!["a", "b"]);
    assert_eq!(cfg.mqtt.username, "u");
    assert_eq!(cfg.modbus.port, 502);
}

#[test]
fn unsigned_fields_parse_like_std() {
    for text in ["0", "65535", "65536", "", "12a", "+5", "007", "-1"] {
        assert_eq!(parse_unsigned_text(text, 65535), text.parse::<u16>().ok().map(u64::from), "{text}");
    }
}

#[test]
fn serial_entries_render_in_both_formats() {
    let e = SerialEntry::tx(vec![0x41, 0x0a], "09:05:01".to_string());
    assert_eq!(e.render(SerialDisplayFormat::Ascii), "09:05:01 TX -> A\n");
    assert_eq!(e.render(SerialDisplayFormat::Hex), "09:05:01 TX -> 41 0a");
    let r = SerialEntry::rx("hi".to_string(), "23:59:59".to_string());
    assert_eq!(r.raw, b"hi".to_vec());
    assert_eq!(r.render(SerialDisplayFormat::Ascii), "23:59:59 RX <- hi");
}

#[test]
fn message_counts_follow_the_kept_messages() {
    let mut s = AppState::default();
    for (topic, payload) in [("a", "1"), ("b", "2"), ("a", "3")] {
        s.add_message(
            MqttMessage { topic: topic.to_string(), payload: payload.as_bytes().to_vec(), qos: 0, retained: false },
            "10:00:00".to_string(),
        );
    }
    for t in &s.topics {
        let kept = s.messages.iter().filter(|m| m.topic == t.name).count() as u64;
        assert_eq!(t.msg_count, kept);
    }
    s.selected_topic_idx = Some(0);
    assert_eq!(s.delete_selected_topic(), Some("a".to_string()));
    assert_eq!(s.messages.len(), 1);
    assert_eq!(s.topics.len(), 1);
    assert_eq!(s.topics[0].msg_count, 1);
    for _ in 0..10 {
        s.on_tick();
    }
    assert_eq!(s.topics[0].tps_history, vec![1]);
    assert_eq!(s.topics[0].msg_count, 1);
}

#[test]
fn serial_form_choices_wrap_and_keep_the_status() {
    let mut f = SerialForm::new();
    assert!(f.available_ports.is_empty());
    f.status = ConnectStatus::Error("busy".to_string());
    f.left();
    assert_eq!(f.port_idx, 0);
    f.next();
    assert_eq!(f.active, 1);
    for _ in 0..8 {
        f.left();
    }
    assert_eq!(f.baud_idx, 10);
    assert_eq!(f.baud_rate(), 921600);
    f.right();
    assert_eq!(f.baud_idx, 0);
    f.set_available_ports(vec!["/dev/ttyS0".to_string(), "/dev/ttyUSB0".to_string()]);
    f.select_port("/dev/ttyUSB0");
    assert_eq!(f.port_idx, 1);
    f.prev();
    assert_eq!(f.active, 0);
    f.right();
    assert_eq!(f.port_idx, 0);
    assert_eq!(f.status, ConnectStatus::Error("busy".to_string()));
}

#[test]
fn trend_points_take_the_given_time() {
    let mut s = AppState::default();
    s.modbus_rows = vec![ModbusRow { address: 7, value: 42 }];
    s.add_modbus_trend_point(7);
    s.add_modbus_trend_point(9);
    s.update_modbus_trend_points("05:09");
    assert_eq!(s.modbus_trend_points[0].values.len(), 1);
    assert_eq!(s.modbus_trend_points[0].values[0].time_mmss, "05:09");
    assert_eq!(s.modbus_trend_points[0].values[0].value, TrendValue::Number(42));
    assert!(s.modbus_trend_points[1].values.is_empty());
}

#[test]
fn serial_log_keeps_the_newest_two_thousand_entries() {
    let mut s = AppState::default();
    assert_eq!(s.serial_byte_counts(), (0, 0));
    for i in 0..2001u32 {
        let bytes = i.to_be_bytes().to_vec();
        s.push_serial_entry(SerialEntry::tx(bytes, "00:00:00".to_string()));
    }
    assert_eq!(s.serial_lines.len(), 2000);
    assert_eq!(s.serial_lines[0].raw, 1u32.to_be_bytes().to_vec());
    assert_eq!(s.serial_lines[1999].raw, 2000u32.to_be_bytes().to_vec());
    s.push_serial_entry(SerialEntry::rx("hello".to_string(), "00:00:01".to_string()));
    assert_eq!(s.serial_lines.len(), 2000);
    assert_eq!(s.serial_lines[0].raw, 2u32.to_be_bytes().to_vec());
    assert_eq!(s.serial_byte_counts(), (1999 * 4 + 5, 5));
}

#[test]
fn saved_sections_give_the_source_settings() {
    let mut cfg = SavedConfig::default_config();
    cfg.iec104.common_address = 7;
    cfg.serial.port = "COM3".to_string();
    cfg.opcua.username = "op".to_string();
    let iec = pulse_tui::iec104::Iec104Config::from_saved(&cfg.iec104);
    assert_eq!((iec.host.as_str(), iec.port, iec.common_address, iec.originator_address), ("localhost", 2404, 7, 0));
    let serial = pulse_tui::serial::SerialConfig::from_saved(&cfg.serial);
    assert_eq!((serial.port.as_str(), serial.baud_rate, serial.data_bits, serial.parity.as_str(), serial.stop_bits), ("COM3", 115200, 8, "None", 1));
    let opc = pulse_tui::opcua::OpcUaConfig::from_saved(&cfg.opcua, "secret".to_string());
    assert_eq!(opc.username, "op");
    assert_eq!(opc.password, "secret");
    assert_eq!(opc.poll_interval_ms, 1000);
}
