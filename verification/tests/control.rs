use pulse_tui::config::SavedConfig;
use pulse_tui::control::{Action, AppEvent, Args, Controller, KeyCode, KeyMods, KeyPress};
use pulse_tui::mode::{AppMode, ConnectStatus, MqttVersion, SourceKind};
use pulse_tui::modbus::ModbusCommand;
use pulse_tui::mqtt::MqttCommand;
use pulse_tui::state::MqttMessage;
use pulse_tui::ui::Panel;

fn key(code: KeyCode) -> AppEvent {
    AppEvent::Key(KeyPress { code, mods: KeyMods::Plain })
}

fn ch(c: char) -> AppEvent {
    key(KeyCode::Char(c))
}

fn ctrl_c() -> AppEvent {
    AppEvent::Key(KeyPress { code: KeyCode::Char('c'), mods: KeyMods::Control })
}

fn typed(ctrl: &mut Controller, text: &str) {
    for c in text.chars() {
        assert!(ctrl.handle(ch(c)).is_empty());
    }
}

fn message(topic: &str, payload: &str) -> AppEvent {
    AppEvent::MqttMessage {
        message: MqttMessage { topic: topic.to_string(), payload: payload.as_bytes().to_vec(), qos: 1, retained: false },
        received_at: "12:34:56".to_string(),
    }
}

fn start() -> Controller {
    let mut saved = SavedConfig::default_config();
    saved.mqtt.host = "broker.local".to_string();
    saved.mqtt.topics = vec!["a/b".to_string(), "c".to_string()];
    let mut args = Args::defaults();
    args.topics = vec!["c".to_string(), "d".to_string()];
    Controller::new(&args, saved)
}

fn connected_mqtt() -> Controller {
    let mut ctrl = start();
    ctrl.handle(key(KeyCode::Enter));
    let acts = ctrl.handle(key(KeyCode::Enter));
    assert_eq!(acts.len(), 2);
    ctrl.handle(AppEvent::Connected);
    assert_eq!(ctrl.mode, AppMode::Monitor);
    ctrl
}

#[test]
fn start_fills_the_forms_from_saved_settings() {
    let ctrl = start();
    assert_eq!(ctrl.mode, AppMode::SourceSelect);
    assert_eq!(ctrl.form.values[0], "broker.local");
    assert_eq!(ctrl.form.values[1], "1883");
    assert_eq!(ctrl.form.mqtt_version, MqttVersion::V311);
    assert_eq!(ctrl.initial_topics, vec!["c", "d", "a/b"]);
    assert_eq!(ctrl.modbus_form.values[1], "502");
}

#[test]
fn source_selection_moves_and_opens_forms() {
    let mut ctrl = start();
    ctrl.handle(key(KeyCode::Down));
    assert_eq!(ctrl.source_select_idx, 1);
    ctrl.handle(key(KeyCode::Down));
    assert_eq!(ctrl.source_select_idx, 0);
    ctrl.handle(key(KeyCode::Up));
    assert_eq!(ctrl.source_select_idx, 1);
    ctrl.handle(key(KeyCode::Enter));
    assert_eq!(ctrl.mode, AppMode::ModbusConnect);
    ctrl.handle(key(KeyCode::Esc));
    assert_eq!(ctrl.mode, AppMode::SourceSelect);
    ctrl.handle(ch('m'));
    assert_eq!(ctrl.mode, AppMode::Connect);
    let acts = ctrl.handle(ctrl_c());
    assert!(matches!(acts.as_slice(), [Action::Quit]));
}

#[test]
fn quit_from_source_selection() {
    let mut ctrl = start();
    assert!(matches!(ctrl.handle(ch('q')).as_slice(), [Action::Quit]));
}

#[test]
fn connect_form_edits_and_connects() {
    let mut ctrl = start();
    ctrl.handle(ch('1'));
    assert_eq!(ctrl.mode, AppMode::Connect);
    ctrl.handle(key(KeyCode::Backspace));
    assert_eq!(ctrl.form.values[0], "broker.loca");
    typed(&mut ctrl, "l");
    ctrl.handle(key(KeyCode::Tab));
    assert_eq!(ctrl.form.active, 1);
    ctrl.handle(key(KeyCode::Backspace));
    typed(&mut ctrl, "4");
    assert_eq!(ctrl.form.values[1], "1884");
    ctrl.handle(key(KeyCode::Up));
    ctrl.handle(key(KeyCode::Up));
    assert_eq!(ctrl.form.active, 4);
    ctrl.handle(ch(' '));
    assert_eq!(ctrl.form.mqtt_version, MqttVersion::V5);
    let acts = ctrl.handle(key(KeyCode::Enter));
    assert_eq!(ctrl.mode, AppMode::Connecting);
    assert_eq!(ctrl.form.status, ConnectStatus::Connecting);
    assert!(ctrl.mqtt_running);
    match &acts[..] {
        [Action::Save(cfg), Action::StartMqtt(m)] => {
            assert_eq!(cfg.mqtt.host, "broker.local");
            assert_eq!(cfg.mqtt.port, 1884);
            assert_eq!(cfg.mqtt.version, "v5");
            assert_eq!(cfg.mqtt.topics, vec!["c", "d", "a/b"]);
            assert_eq!(m.port, 1884);
            assert!(m.client_id.starts_with("pulse-tui-"));
            assert_eq!(m.client_id.len(), 14);
            assert_eq!(m.version, MqttVersion::V5);
            assert_eq!(m.username, None);
        }
        other => panic!("unexpected actions {other:?}"),
    }
    assert_eq!(ctrl.state.mqtt_version, "MQTT 5.0");
    assert!(ctrl.state.auto_select_first);
    ctrl.handle(AppEvent::Error("refused".to_string()));
    assert_eq!(ctrl.form.status, ConnectStatus::Error("refused".to_string()));
    let acts = ctrl.handle(AppEvent::Disconnected);
    assert!(matches!(acts.as_slice(), [Action::StopMqtt]));
    assert_eq!(ctrl.mode, AppMode::Connect);
    assert!(!ctrl.mqtt_running);
}

#[test]
fn escape_while_connecting_gives_up() {
    let mut ctrl = start();
    ctrl.handle(key(KeyCode::Enter));
    ctrl.handle(key(KeyCode::Enter));
    let acts = ctrl.handle(key(KeyCode::Esc));
    assert!(matches!(acts.as_slice(), [Action::StopMqtt]));
    assert_eq!(ctrl.mode, AppMode::Connect);
    assert_eq!(ctrl.form.status, ConnectStatus::Idle);
}

#[test]
fn monitor_collects_messages_and_filters() {
    let mut ctrl = connected_mqtt();
    assert!(ctrl.state.connected);
    ctrl.handle(message("x/y", "{\"v\":1}"));
    ctrl.handle(message("x/z", "hello"));
    ctrl.handle(message("x/y", "2"));
    assert_eq!(ctrl.state.topics.len(), 1);
    assert_eq!(ctrl.state.topics[0].msg_count, 2);
    assert_eq!(ctrl.state.topics[0].tps_counter, 2);
    assert_eq!(ctrl.state.messages[1].timestamp, "12:34:56");
    assert_eq!(ctrl.state.selected_topic_idx, Some(0));
    ctrl.handle(key(KeyCode::Esc));
    assert_eq!(ctrl.state.selected_topic_idx, None);
    ctrl.handle(message("x/z", "again"));
    assert_eq!(ctrl.state.topics.len(), 2);
    assert_eq!(ctrl.state.messages.len(), 3);
    ctrl.handle(key(KeyCode::Down));
    assert_eq!(ctrl.state.selected_topic_idx, Some(0));
    ctrl.handle(key(KeyCode::Tab));
    assert_eq!(ctrl.active_panel, Panel::Messages);
    ctrl.handle(ch('/'));
    assert!(ctrl.state.search_mode);
    typed(&mut ctrl, "He");
    ctrl.handle(key(KeyCode::Backspace));
    assert_eq!(ctrl.state.search_query, "H");
    ctrl.handle(key(KeyCode::Enter));
    assert!(!ctrl.state.search_mode);
    assert_eq!(ctrl.state.search_query, "H");
    ctrl.handle(ch(' '));
    assert!(ctrl.state.paused);
    ctrl.handle(ch('c'));
    assert!(matches!(ctrl.handle(ch('q')).as_slice(), [Action::Quit]));
}

#[test]
fn subscribing_saves_new_topics() {
    let mut ctrl = connected_mqtt();
    ctrl.handle(ch('s'));
    assert!(ctrl.state.subscribe_mode);
    typed(&mut ctrl, "  new/t ");
    let acts = ctrl.handle(key(KeyCode::Enter));
    match &acts[..] {
        [Action::SendMqtt(MqttCommand::Subscribe(t)), Action::SaveTopics(v)] => {
            assert_eq!(t, "new/t");
            assert_eq!(v, &vec!["c", "d", "a/b", "new/t"]);
        }
        other => panic!("unexpected actions {other:?}"),
    }
    assert!(!ctrl.state.subscribe_mode);
    assert_eq!(ctrl.state.subscribe_input, "");
    ctrl.handle(ch('s'));
    typed(&mut ctrl, "c");
    let acts = ctrl.handle(key(KeyCode::Enter));
    assert!(matches!(acts.as_slice(), [Action::SendMqtt(MqttCommand::Subscribe(_))]));
    ctrl.handle(AppEvent::Paste("ignored".to_string()));
    assert_eq!(ctrl.state.subscribe_input, "");
}

#[test]
fn publishing_goes_to_the_focused_topic() {
    let mut ctrl = connected_mqtt();
    ctrl.handle(message("x/y", "1"));
    ctrl.handle(ch('p'));
    assert!(ctrl.state.publish_mode);
    ctrl.handle(AppEvent::Paste(" 42 ".to_string()));
    let acts = ctrl.handle(key(KeyCode::Enter));
    match &acts[..] {
        [Action::SendMqtt(MqttCommand::Publish { topic, payload })] => {
            assert_eq!(topic, "x/y");
            assert_eq!(payload, "42");
        }
        other => panic!("unexpected actions {other:?}"),
    }
}

#[test]
fn deleting_a_topic_unsubscribes_and_saves() {
    let mut ctrl = connected_mqtt();
    ctrl.handle(message("c", "1"));
    assert_eq!(ctrl.state.selected_topic_idx, Some(0));
    let acts = ctrl.handle(ch('d'));
    match &acts[..] {
        [Action::SendMqtt(MqttCommand::Unsubscribe(t)), Action::SaveTopics(v)] => {
            assert_eq!(t, "c");
            assert_eq!(v, &vec!["d", "a/b"]);
        }
        other => panic!("unexpected actions {other:?}"),
    }
    assert!(ctrl.state.topics.is_empty());
    assert!(ctrl.state.messages.is_empty());
}

#[test]
fn yank_copies_the_selection() {
    let mut ctrl = connected_mqtt();
    ctrl.handle(message("t", "héllo"));
    ctrl.handle(ch(' '));
    ctrl.handle(ch('y'));
    assert!(ctrl.state.yank_mode);
    ctrl.handle(key(KeyCode::Right));
    ctrl.handle(key(KeyCode::Right));
    assert_eq!(ctrl.state.yank_cursor, 3);
    ctrl.handle(key(KeyCode::Left));
    assert_eq!(ctrl.state.yank_cursor, 1);
    ctrl.handle(key(KeyCode::Right));
    let acts = ctrl.handle(ch('y'));
    match &acts[..] {
        [Action::Copy(t)] => assert_eq!(t, "hé"),
        other => panic!("unexpected actions {other:?}"),
    }
    assert!(!ctrl.state.yank_mode);
}

#[test]
fn leaving_the_monitor_stops_the_source() {
    let mut ctrl = connected_mqtt();
    ctrl.handle(key(KeyCode::Esc));
    assert!(ctrl.state.confirm_back);
    ctrl.handle(ch('n'));
    assert!(!ctrl.state.confirm_back);
    ctrl.handle(key(KeyCode::Esc));
    let acts = ctrl.handle(ch('y'));
    assert!(matches!(acts.as_slice(), [Action::StopMqtt]));
    assert_eq!(ctrl.mode, AppMode::SourceSelect);
    assert!(!ctrl.state.connected);
    assert!(!ctrl.mqtt_running);
}

#[test]
fn modbus_flow_polls_with_the_edited_query() {
    let mut ctrl = start();
    ctrl.handle(ch('2'));
    assert_eq!(ctrl.mode, AppMode::ModbusConnect);
    ctrl.handle(key(KeyCode::Down));
    ctrl.handle(key(KeyCode::Backspace));
    ctrl.handle(key(KeyCode::Backspace));
    ctrl.handle(key(KeyCode::Backspace));
    typed(&mut ctrl, "1502");
    let acts = ctrl.handle(key(KeyCode::Enter));
    match &acts[..] {
        [Action::Save(cfg), Action::StartModbus(m)] => {
            assert_eq!(cfg.modbus.port, 1502);
            assert_eq!(cfg.mqtt.host, "broker.local");
            assert_eq!(m.port, 1502);
            assert_eq!(m.unit_id, 1);
        }
        other => panic!("unexpected actions {other:?}"),
    }
    assert_eq!(ctrl.state.source_kind, SourceKind::ModbusTcp);
    ctrl.handle(AppEvent::Connected);
    assert_eq!(ctrl.mode, AppMode::Monitor);
    ctrl.handle(AppEvent::ModbusData { start: 0xfffe, values: vec![1, 2, 3] });
    assert_eq!(ctrl.state.modbus_rows.len(), 3);
    assert_eq!(ctrl.state.modbus_rows[2].address, 0);
    ctrl.handle(key(KeyCode::Down));
    ctrl.handle(key(KeyCode::Down));
    ctrl.handle(key(KeyCode::Down));
    assert_eq!(ctrl.state.modbus_table_offset, 2);
    ctrl.handle(ch('e'));
    assert!(ctrl.state.modbus_query.editing);
    ctrl.handle(key(KeyCode::Left));
    ctrl.handle(key(KeyCode::Tab));
    typed(&mut ctrl, "5x");
    let acts = ctrl.handle(key(KeyCode::Enter));
    match &acts[..] {
        [Action::SendModbus(ModbusCommand::SetQuery { fc, start, quantity })] => {
            assert_eq!(*fc, pulse_tui::mode::FunctionCode::FC03Holding);
            assert_eq!(*start, 5);
            assert_eq!(*quantity, 10);
        }
        other => panic!("unexpected actions {other:?}"),
    }
    assert!(!ctrl.state.modbus_query.editing);
    assert_eq!(ctrl.state.modbus_table_offset, 0);
}

#[test]
fn settings_saved_on_connect_come_back_at_the_next_start() {
    let mut ctrl = start();
    ctrl.handle(key(KeyCode::Enter));
    ctrl.handle(key(KeyCode::Down));
    for _ in 0..4 {
        ctrl.handle(key(KeyCode::Backspace));
    }
    typed(&mut ctrl, "+0080");
    ctrl.handle(key(KeyCode::Down));
    typed(&mut ctrl, "bob");
    ctrl.handle(key(KeyCode::Down));
    ctrl.handle(key(KeyCode::Down));
    ctrl.handle(key(KeyCode::Left));
    assert_eq!(ctrl.form.mqtt_version, MqttVersion::V5);
    let mut acts = ctrl.handle(key(KeyCode::Enter));
    assert_eq!(acts.len(), 2);
    let cfg = match acts.remove(0) {
        Action::Save(cfg) => cfg,
        other => panic!("expected the settings to be saved, got {:?}", other),
    };
    let next = Controller::new(&Args::defaults(), cfg);
    assert_eq!(next.form.values[0], "broker.local");
    assert_eq!(next.form.values[1], "80");
    assert_eq!(next.form.values[2], "bob");
    assert_eq!(next.form.values[3], "");
    assert_eq!(next.form.mqtt_version, MqttVersion::V5);
    assert_eq!(next.modbus_form.values, ctrl.modbus_form.values);
}

#[test]
fn connecting_keeps_the_other_saved_sections() {
    let mut saved = SavedConfig::default_config();
    saved.opcua.node_ids = vec!["ns=2;s=A".to_string()];
    saved.iec104.port = 2405;
    saved.serial.parity = "Even".to_string();
    let mut ctrl = Controller::new(&Args::defaults(), saved);
    ctrl.handle(ch('2'));
    let mut acts = ctrl.handle(key(KeyCode::Enter));
    assert_eq!(acts.len(), 2);
    let cfg = match acts.remove(0) {
        Action::Save(cfg) => cfg,
        other => panic!("expected the settings to be saved, got {:?}", other),
    };
    assert_eq!(cfg.opcua.node_ids, vec!["ns=2;s=A"]);
    assert_eq!(cfg.opcua.endpoint_url, "opc.tcp://localhost:4840");
    assert_eq!(cfg.iec104.port, 2405);
    assert_eq!(cfg.serial.parity, "Even");
    assert_eq!(cfg.serial.baud_rate, 115200);
}
