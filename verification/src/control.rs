//! The monitor's decisions: from the current screen and an event (a key, a
//! paste, a tick, a message or a connection change) to the next screen and
//! the actions that the program then performs (start or stop a source, send
//! it a request, save the settings, copy text, quit).

use vstd::prelude::*;

use crate::config::{SavedConfig, clone_strings, saved_version};
use crate::feed::{countable, message_added, tick_effect};
use crate::modbus::{ModbusCommand, ModbusConfig, rows_from_values, row_address};
use crate::mode::{AppMode, ConnectForm, ConnectStatus, ModbusForm, SourceKind};
use crate::mqtt::{MqttCommand, MqttConfig};
use crate::state::{AppState, MqttMessage};
use crate::text::{decimal, str_equal, strings, u64_to_decimal};
use crate::ui::Panel;

verus! {

// ── Command line ────────────────────────────────────────────────────────────

/// Command-line options: the broker and the topics to watch.
#[derive(Debug, Clone)]
pub struct Args {
    /// Broker host
    pub broker: String,
    /// Broker port
    pub port: u16,
    /// Topics to subscribe (repeat for multiple: -t a -t b)
    pub topics: Vec<String>,
    /// MQTT client ID
    pub client_id: String,
}

impl Args {
    /// The options when none is given: localhost:1883, no topics, client id
    /// "pulse-tui".
    pub fn defaults() -> (a: Self)
        ensures
            a.broker@ == "localhost"@,
            a.port == 1883,
            a.topics@.len() == 0,
            a.client_id@ == "pulse-tui"@,
    {
        Args { broker: "localhost".to_owned(), port: 1883, topics: Vec::new(), client_id: "pulse-tui".to_owned() }
    }
}

// ── Keys and events ─────────────────────────────────────────────────────────

/// The keys the monitor reacts to.
#[derive(Debug, Clone, Copy, PartialEq, Eq, Structural)]
pub enum KeyCode {
    Char(char),
    Enter,
    Esc,
    Tab,
    BackTab,
    Backspace,
    Up,
    Down,
    Left,
    Right,
    /// Any other key.
    Other,
}

/// The modifier keys held with a key: none, only Shift, only Control, or
/// any other combination.
#[derive(Debug, Clone, Copy, PartialEq, Eq, Structural)]
pub enum KeyMods {
    Plain,
    Shift,
    Control,
    Other,
}

#[derive(Debug, Clone, Copy, PartialEq, Eq, Structural)]
pub struct KeyPress {
    pub code: KeyCode,
    pub mods: KeyMods,
}

/// What the monitor reacts to.
#[derive(Debug)]
pub enum AppEvent {
    Tick,
    Key(KeyPress),
    Paste(String),
    /// A message from the broker, with the local time it was received
    /// ("HH:MM:SS").
    MqttMessage { message: MqttMessage, received_at: String },
    /// Raw register values polled from a Modbus source.
    ModbusData { start: u16, values: Vec<u16> },
    /// OPC UA node sample polled from the server.
    OpcUaData {
        node_id: String,
        display_name: String,
        value: String,
        data_type: String,
        source_timestamp: String,
        server_timestamp: String,
    },
    /// A line of text received from a serial port.
    SerialLine(String),
    /// An IEC 104 frame received (or sent), with its description.
    Iec104Frame { received: bool, frame: Vec<u8>, summary: String },
    Connected,
    Disconnected,
    Error(String),
}

/// What the program does after an event.
#[derive(Debug)]
pub enum Action {
    Quit,
    /// Write the settings file.
    Save(SavedConfig),
    StartMqtt(MqttConfig),
    StartModbus(ModbusConfig),
    /// Drop the running MQTT source, which then stops.
    StopMqtt,
    StopModbus,
    SendMqtt(MqttCommand),
    SendModbus(ModbusCommand),
    /// Put text on the clipboard.
    Copy(String),
    /// Load the settings file, replace its MQTT topics and write it back.
    SaveTopics(Vec<String>),
}

pub open spec fn plain(k: KeyPress, c: KeyCode) -> bool {
    k.mods == KeyMods::Plain && k.code == c
}

pub open spec fn ctrl_c(k: KeyPress) -> bool {
    k.mods == KeyMods::Control && k.code == KeyCode::Char('c')
}

pub(crate) fn is_plain(k: KeyPress, c: KeyCode) -> (r: bool)
    ensures
        r == plain(k, c),
{
    k.mods == KeyMods::Plain && k.code == c
}

pub(crate) fn is_ctrl_c(k: KeyPress) -> (r: bool)
    ensures
        r == ctrl_c(k),
{
    k.mods == KeyMods::Control && k.code == KeyCode::Char('c')
}

// ── The controller ──────────────────────────────────────────────────────────

/// Everything the main loop keeps between events.
pub struct Controller {
    pub mode: AppMode,
    /// 0 = MQTT, 1 = Modbus TCP on the source selection screen.
    pub source_select_idx: usize,
    pub state: AppState,
    pub active_panel: Panel,
    pub form: ConnectForm,
    pub modbus_form: ModbusForm,
    /// Topics from the command line, then the saved ones not among them.
    pub initial_topics: Vec<String>,
    /// The settings file as it was loaded at start.
    pub saved: SavedConfig,
    /// Whether an MQTT source is running (and takes requests).
    pub mqtt_running: bool,
    pub modbus_running: bool,
}


/// `first` followed by the items of `more` that are neither in `first` nor
/// earlier in `more`.
pub open spec fn merged_topics(first: Seq<Seq<char>>, more: Seq<Seq<char>>) -> Seq<Seq<char>>
    decreases more.len(),
{
    if more.len() == 0 {
        first
    } else {
        let m = merged_topics(first, more.drop_last());
        if m.contains(more.last()) {
            m
        } else {
            m.push(more.last())
        }
    }
}

/// The MQTT form filled from `args` and the settings `saved`: the command
/// line wins where it differs from its default.
pub open spec fn mqtt_form_from(f: ConnectForm, args: Args, saved: SavedConfig) -> bool {
    &&& f.values@[0]@ == (if args.broker@ == "localhost"@ { saved.mqtt.host@ } else { args.broker@ })
    &&& f.values@[1]@ == decimal((if args.port == 1883 { saved.mqtt.port } else { args.port }) as nat)
    &&& f.values@[2]@ == saved.mqtt.username@
    &&& f.mqtt_version == saved_version(saved.mqtt.version@)
}

/// The Modbus form filled from the settings `saved`.
pub open spec fn modbus_form_from(f: ModbusForm, saved: SavedConfig) -> bool {
    &&& f.values@[0]@ == saved.modbus.host@
    &&& f.values@[1]@ == decimal(saved.modbus.port as nat)
    &&& f.values@[2]@ == decimal(saved.modbus.unit_id as nat)
    &&& f.values@[3]@ == decimal(saved.modbus.poll_interval_ms as nat)
}

/// The connection forms of a controller started with `args` and `saved`.
pub open spec fn started_from(c: Controller, args: Args, saved: SavedConfig) -> bool {
    mqtt_form_from(c.form, args, saved) && modbus_form_from(c.modbus_form, saved)
}

impl Controller {
    /// The invariant the event handlers keep.
    pub open spec fn wf(&self) -> bool {
        &&& self.source_select_idx < 2
        &&& self.form.active < 5
        &&& self.modbus_form.active < 4
        &&& self.state.tick_count < 10
        &&& self.state.modbus_query.active < 4
        &&& self.state.modbus_query.fc_idx < 4
        &&& self.state.modbus_query.format_idx < 10
    }

    /// The screen at start: the source selection, with the connection forms
    /// filled from the command line and the saved settings (the command line
    /// wins where it differs from its default).
    pub fn new(args: &Args, saved: SavedConfig) -> (c: Self)
        ensures
            c.wf(),
            c.mode == AppMode::SourceSelect,
            c.source_select_idx == 0,
            c.state.is_initial(),
            c.active_panel == Panel::Topics,
            started_from(c, *args, saved),
            c.form.values@[3]@.len() == 0,
            c.form.active == 0,
            c.form.status == ConnectStatus::Idle,
            c.modbus_form.active == 0,
            c.modbus_form.status == ConnectStatus::Idle,
            strings(c.initial_topics@) == merged_topics(strings(args.topics@), strings(saved.mqtt.topics@)),
            c.saved == saved,
            !c.mqtt_running,
            !c.modbus_running,
    {
        let mut form = ConnectForm::new(args.broker.as_str(), args.port);
        proof {
            reveal_strlit("localhost");
        }
        if str_equal(args.broker.as_str(), "localhost") {
            form.values[0] = saved.mqtt.host.clone();
        }
        if args.port == 1883 {
            form.values[1] = u64_to_decimal(saved.mqtt.port as u64);
        }
        if !saved.mqtt.username.as_str().is_empty() {
            form.values[2] = saved.mqtt.username.clone();
        }
        form.mqtt_version = saved.mqtt_version();
        let initial_topics = merge_topics(&args.topics, &saved.mqtt.topics);
        let mut modbus_form = ModbusForm::new();
        modbus_form.values[0] = saved.modbus.host.clone();
        modbus_form.values[1] = u64_to_decimal(saved.modbus.port as u64);
        modbus_form.values[2] = u64_to_decimal(saved.modbus.unit_id as u64);
        modbus_form.values[3] = u64_to_decimal(saved.modbus.poll_interval_ms);
        assert(form.values@[0]@ == (if args.broker@ == "localhost"@ { saved.mqtt.host@ } else { args.broker@ }));
        assert(form.values@[1]@ == decimal((if args.port == 1883 { saved.mqtt.port } else { args.port }) as nat));
        assert(form.values@[2]@ == saved.mqtt.username@);
        assert(form.mqtt_version == saved_version(saved.mqtt.version@));
        assert(mqtt_form_from(form, *args, saved));
        assert(modbus_form_from(modbus_form, saved));
        Controller {
            mode: AppMode::SourceSelect,
            source_select_idx: 0,
            state: AppState::new_state(),
            active_panel: Panel::Topics,
            form,
            modbus_form,
            initial_topics,
            saved,
            mqtt_running: false,
            modbus_running: false,
        }
    }
}

pub(crate) fn contains_text(v: &Vec<String>, t: &str) -> (r: bool)
    ensures
        r == strings(v@).contains(t@),
{
    let mut i: usize = 0;
    while i < v.len()
        invariant
            i <= v@.len(),
            forall|j: int| 0 <= j < i ==> v@[j]@ != t@,
        decreases v@.len() - i,
    {
        if str_equal(v[i].as_str(), t) {
            assert(strings(v@)[i as int] == t@);
            return true;
        }
        i = i + 1;
    }
    proof {
        if strings(v@).contains(t@) {
            let j = choose|j: int| 0 <= j < strings(v@).len() && strings(v@)[j] == t@;
            assert(v@[j]@ == t@);
        }
    }
    false
}

/// The command-line topics, then the saved ones that are not among them yet.
pub(crate) fn merge_topics(first: &Vec<String>, more: &Vec<String>) -> (v: Vec<String>)
    ensures
        strings(v@) == merged_topics(strings(first@), strings(more@)),
{
    let mut v = clone_strings(first.as_slice());
    assert(strings(v@) =~= strings(first@));
    let mut i: usize = 0;
    while i < more.len()
        invariant
            i <= more@.len(),
            strings(v@) == merged_topics(strings(first@), strings(more@).take(i as int)),
        decreases more@.len() - i,
    {
        proof {
            assert(strings(more@).take(i + 1).drop_last() =~= strings(more@).take(i as int));
            assert(strings(more@).take(i + 1).last() == more@[i as int]@);
        }
        if !contains_text(&v, more[i].as_str()) {
            let ghost before = strings(v@);
            v.push(more[i].clone());
            assert(strings(v@) =~= before.push(more@[i as int]@));
        }
        i = i + 1;
    }
    assert(strings(more@).take(more@.len() as int) =~= strings(more@));
    v
}

// ── Events other than keys ──────────────────────────────────────────────────

/// What a 100 ms tick does.
pub open spec fn tick_step(old: Controller, new: Controller) -> bool {
    &&& (new == (Controller { state: new.state, ..old }))
    &&& (tick_effect(old.state, new.state))
}

/// What a message from the broker, received at `received_at`, does.
pub open spec fn message_step(old: Controller, new: Controller, msg: MqttMessage, received_at: String) -> bool {
    &&& (new == (Controller { state: new.state, ..old }))
    &&& (old.mode == AppMode::Monitor && countable(old.state.topics@, msg.topic@) ==> message_added(old.state, new.state, msg, received_at))
    &&& (!(old.mode == AppMode::Monitor && countable(old.state.topics@, msg.topic@)) ==> new.state == old.state)
}

/// What registers polled from the Modbus source do.
pub open spec fn modbus_data_step(old: Controller, new: Controller, start: u16, values: Seq<u16>) -> bool {
    &&& (!(old.mode == AppMode::Monitor && old.state.source_kind == SourceKind::ModbusTcp) ==> new == old)
    &&& (old.mode == AppMode::Monitor && old.state.source_kind == SourceKind::ModbusTcp ==> { &&& new == (Controller { state: AppState { modbus_rows: new.state.modbus_rows, ..old.state }, ..old }) &&& new.state.modbus_rows@.len() == values.len() &&& forall|i: int| 0 <= i < values.len() ==> #[trigger] new.state.modbus_rows@[i].address == row_address(start, i) && new.state.modbus_rows@[i].value == values[i] })
}

/// What a connection report does.
#[verifier::opaque]
pub open spec fn connected_step(old: Controller, new: Controller) -> bool {
    &&& (new.state == (AppState { connected: true, last_error: None, ..old.state }))
    &&& (old.mode == AppMode::Connecting ==> new == (Controller { mode: AppMode::Monitor, state: new.state, form: crate::mode::ConnectForm { status: ConnectStatus::Idle, ..old.form }, ..old }))
    &&& (old.mode == AppMode::ModbusConnecting ==> new == (Controller { mode: AppMode::Monitor, state: new.state, modbus_form: crate::mode::ModbusForm { status: ConnectStatus::Idle, ..old.modbus_form }, ..old }))
    &&& (old.mode != AppMode::Connecting && old.mode != AppMode::ModbusConnecting ==> new == (Controller { state: new.state, ..old }))
}

/// What a report of a lost connection does.
#[verifier::opaque]
pub open spec fn disconnected_step(old: Controller, new: Controller, acts: Seq<Action>) -> bool {
    &&& (new.state == (AppState { connected: false, ..old.state }))
    &&& (old.mode == AppMode::Connecting ==> new == (Controller { mode: AppMode::Connect, state: new.state, mqtt_running: false, ..old }) && acts.len() == 1 && acts[0] is StopMqtt)
    &&& (old.mode == AppMode::ModbusConnecting ==> new == (Controller { mode: AppMode::ModbusConnect, state: new.state, modbus_running: false, ..old }) && acts.len() == 1 && acts[0] is StopModbus)
    &&& (old.mode != AppMode::Connecting && old.mode != AppMode::ModbusConnecting ==> new == (Controller { state: new.state, ..old }) && acts.len() == 0)
}

/// What an error report does.
#[verifier::opaque]
pub open spec fn error_step(old: Controller, new: Controller, e: String) -> bool {
    &&& (old.mode == AppMode::Connecting ==> new == (Controller { form: crate::mode::ConnectForm { status: ConnectStatus::Error(e), ..old.form }, ..old }))
    &&& (old.mode == AppMode::ModbusConnecting ==> new == (Controller { modbus_form: crate::mode::ModbusForm { status: ConnectStatus::Error(e), ..old.modbus_form }, ..old }))
    &&& (old.mode != AppMode::Connecting && old.mode != AppMode::ModbusConnecting ==> new == (Controller { state: AppState { last_error: Some(e), ..old.state }, ..old }))
}

/// What pasted text does.
#[verifier::opaque]
pub open spec fn paste_step(old: Controller, new: Controller, s: Seq<char>) -> bool {
    &&& (old.mode == AppMode::Connect ==> { &&& new == (Controller { form: new.form, ..old }) &&& new.form.active == old.form.active &&& new.form.status == old.form.status &&& new.form.mqtt_version == old.form.mqtt_version &&& old.form.active < 4 ==> new.form.values@ == old.form.values@.update( old.form.active as int, new.form.values@[old.form.active as int], ) && new.form.values@[old.form.active as int]@ == old.form.values@[old.form.active as int]@ + s &&& old.form.active >= 4 ==> new.form.values == old.form.values })
    &&& (old.mode == AppMode::ModbusConnect ==> { &&& new == (Controller { modbus_form: new.modbus_form, ..old }) &&& new.modbus_form.active == old.modbus_form.active &&& new.modbus_form.status == old.modbus_form.status &&& new.modbus_form.values@ == old.modbus_form.values@.update( old.modbus_form.active as int, new.modbus_form.values@[old.modbus_form.active as int], ) &&& new.modbus_form.values@[old.modbus_form.active as int]@ == old.modbus_form.values@[old.modbus_form.active as int]@ + s })
    &&& (old.mode != AppMode::Connect && old.mode != AppMode::ModbusConnect ==> { &&& new == (Controller { state: new.state, ..old }) &&& old.state.publish_mode ==> new.state == (AppState { publish_input: new.state.publish_input, ..old.state }) && new.state.publish_input@ == old.state.publish_input@ + s &&& !old.state.publish_mode && old.state.subscribe_mode ==> new.state == (AppState { subscribe_input: new.state.subscribe_input, ..old.state }) && new.state.subscribe_input@ == old.state.subscribe_input@ + s &&& !old.state.publish_mode && !old.state.subscribe_mode && old.state.search_mode ==> new.state == (AppState { search_query: new.state.search_query, ..old.state }) && new.state.search_query@ == old.state.search_query@ + s &&& !old.state.publish_mode && !old.state.subscribe_mode && !old.state.search_mode ==> new.state == old.state })
}

impl Controller {
    /// A 100 ms tick.
    pub fn on_tick(&mut self)
        requires
            old(self).wf(),
        ensures
            final(self).wf(),
            tick_step(*old(self), *final(self)),
    {
        self.state.on_tick();
    }

    /// A message from the broker, received at the local time `received_at`:
    /// kept only on the monitor screen (and only while its topic's counters
    /// can still go up).
    pub fn on_mqtt_message(&mut self, msg: MqttMessage, received_at: String)
        requires
            old(self).wf(),
        ensures
            final(self).wf(),
            message_step(*old(self), *final(self), msg, received_at),
    {
        if self.mode == AppMode::Monitor && can_count(&self.state.topics, msg.topic.as_str()) {
            self.state.add_message(msg, received_at);
        }
    }

    /// Registers polled from the Modbus source replace the table on the
    /// Modbus monitor screen.
    #[verifier::rlimit(60)]
    pub fn on_modbus_data(&mut self, start: u16, values: Vec<u16>)
        requires
            old(self).wf(),
        ensures
            final(self).wf(),
            modbus_data_step(*old(self), *final(self), start, values@),
    {
        if self.mode == AppMode::Monitor && self.state.source_kind == SourceKind::ModbusTcp {
            self.state.modbus_rows = rows_from_values(start, values.as_slice());
        }
    }

    /// The source reports a connection: a connecting screen moves on to the
    /// monitor.
    #[verifier::rlimit(60)]
    pub fn on_connected(&mut self)
        requires
            old(self).wf(),
        ensures
            final(self).wf(),
            connected_step(*old(self), *final(self)),
    {
        match self.mode {
            AppMode::Connecting => self.connected_mqtt(),
            AppMode::ModbusConnecting => self.connected_modbus(),
            _ => self.connected_other(),
        }
    }

    /// The source reports that the connection is gone: a connecting screen
    /// goes back to its form, and that source is dropped.
    #[verifier::rlimit(100)]
    #[verifier::spinoff_prover]
    pub fn on_disconnected(&mut self) -> (acts: Vec<Action>)
        requires
            old(self).wf(),
        ensures
            final(self).wf(),
            disconnected_step(*old(self), *final(self), acts@),
    {
        match self.mode {
            AppMode::Connecting => self.disconnected_mqtt(),
            AppMode::ModbusConnecting => self.disconnected_modbus(),
            _ => self.disconnected_other(),
        }
    }

    /// A source reports an error: shown under the form while connecting,
    /// else in the monitor's error bar.
    #[verifier::rlimit(60)]
    pub fn on_error(&mut self, e: String)
        requires
            old(self).wf(),
        ensures
            final(self).wf(),
            error_step(*old(self), *final(self), e),
    {
        match self.mode {
            AppMode::Connecting => self.error_mqtt(e),
            AppMode::ModbusConnecting => self.error_modbus(e),
            _ => self.error_other(e),
        }
    }

    /// Pasted text goes to the focused form field or the open input line.
    #[verifier::rlimit(60)]
    pub fn on_paste(&mut self, s: &str)
        requires
            old(self).wf(),
        ensures
            final(self).wf(),
            paste_step(*old(self), *final(self), s@),
    {
        if self.mode == AppMode::Connect {
            self.paste_form(s)
        } else if self.mode == AppMode::ModbusConnect {
            self.paste_modbus_form(s)
        } else {
            self.paste_line(s)
        }
    }
}

impl Controller {
    fn connected_mqtt(&mut self)
        requires
            old(self).wf(),
            old(self).mode == AppMode::Connecting,
        ensures
            final(self).wf(),
            connected_step(*old(self), *final(self)),
    {
        self.state.connected = true;
        self.state.last_error = None;
        self.mode = AppMode::Monitor;
        self.form.status = ConnectStatus::Idle;
        proof {
            reveal(connected_step);
        }
    }

    fn connected_modbus(&mut self)
        requires
            old(self).wf(),
            old(self).mode == AppMode::ModbusConnecting,
        ensures
            final(self).wf(),
            connected_step(*old(self), *final(self)),
    {
        self.state.connected = true;
        self.state.last_error = None;
        self.mode = AppMode::Monitor;
        self.modbus_form.status = ConnectStatus::Idle;
        proof {
            reveal(connected_step);
        }
    }

    fn connected_other(&mut self)
        requires
            old(self).wf(),
            old(self).mode != AppMode::Connecting && old(self).mode != AppMode::ModbusConnecting,
        ensures
            final(self).wf(),
            connected_step(*old(self), *final(self)),
    {
        self.state.connected = true;
        self.state.last_error = None;
        proof {
            reveal(connected_step);
        }
    }

    fn disconnected_mqtt(&mut self) -> (acts: Vec<Action>)
        requires
            old(self).wf(),
            old(self).mode == AppMode::Connecting,
        ensures
            final(self).wf(),
            disconnected_step(*old(self), *final(self), acts@),
    {
        self.state.connected = false;
        self.mqtt_running = false;
        self.mode = AppMode::Connect;
        proof {
            reveal(disconnected_step);
        }
        one(Action::StopMqtt)
    }

    fn disconnected_modbus(&mut self) -> (acts: Vec<Action>)
        requires
            old(self).wf(),
            old(self).mode == AppMode::ModbusConnecting,
        ensures
            final(self).wf(),
            disconnected_step(*old(self), *final(self), acts@),
    {
        self.state.connected = false;
        self.modbus_running = false;
        self.mode = AppMode::ModbusConnect;
        proof {
            reveal(disconnected_step);
        }
        one(Action::StopModbus)
    }

    fn disconnected_other(&mut self) -> (acts: Vec<Action>)
        requires
            old(self).wf(),
            old(self).mode != AppMode::Connecting && old(self).mode != AppMode::ModbusConnecting,
        ensures
            final(self).wf(),
            disconnected_step(*old(self), *final(self), acts@),
    {
        self.state.connected = false;
        proof {
            reveal(disconnected_step);
        }
        Vec::new()
    }

    fn error_mqtt(&mut self, e: String)
        requires
            old(self).wf(),
            old(self).mode == AppMode::Connecting,
        ensures
            final(self).wf(),
            error_step(*old(self), *final(self), e),
    {
        self.form.status = ConnectStatus::Error(e);
        proof {
            reveal(error_step);
        }
    }

    fn error_modbus(&mut self, e: String)
        requires
            old(self).wf(),
            old(self).mode == AppMode::ModbusConnecting,
        ensures
            final(self).wf(),
            error_step(*old(self), *final(self), e),
    {
        self.modbus_form.status = ConnectStatus::Error(e);
        proof {
            reveal(error_step);
        }
    }

    fn error_other(&mut self, e: String)
        requires
            old(self).wf(),
            old(self).mode != AppMode::Connecting && old(self).mode != AppMode::ModbusConnecting,
        ensures
            final(self).wf(),
            error_step(*old(self), *final(self), e),
    {
        self.state.last_error = Some(e);
        proof {
            reveal(error_step);
        }
    }

    fn paste_form(&mut self, s: &str)
        requires
            old(self).wf(),
            old(self).mode == AppMode::Connect,
        ensures
            final(self).wf(),
            paste_step(*old(self), *final(self), s@),
    {
        self.form.paste(s);
        proof {
            reveal(paste_step);
        }
    }

    fn paste_modbus_form(&mut self, s: &str)
        requires
            old(self).wf(),
            old(self).mode == AppMode::ModbusConnect,
        ensures
            final(self).wf(),
            paste_step(*old(self), *final(self), s@),
    {
        self.modbus_form.paste(s);
        proof {
            reveal(paste_step);
        }
    }

    fn paste_line(&mut self, s: &str)
        requires
            old(self).wf(),
            old(self).mode != AppMode::Connect && old(self).mode != AppMode::ModbusConnect,
        ensures
            final(self).wf(),
            paste_step(*old(self), *final(self), s@),
    {
        if self.state.publish_mode {
            self.state.publish_input.append(s);
        } else if self.state.subscribe_mode {
            self.state.subscribe_input.append(s);
        } else if self.state.search_mode {
            self.state.search_query.append(s);
        }
        proof {
            reveal(paste_step);
        }
    }
}

pub(crate) fn one(a: Action) -> (v: Vec<Action>)
    ensures
        v@ == seq![a],
{
    let mut v: Vec<Action> = Vec::new();
    v.push(a);
    v
}

/// Whether a message on `topic` can be counted (see `countable`).
pub(crate) fn can_count(topics: &Vec<crate::state::TopicItem>, topic: &str) -> (r: bool)
    ensures
        r == countable(topics@, topic@),
{
    let mut i: usize = 0;
    while i < topics.len()
        invariant
            i <= topics@.len(),
            forall|j: int| 0 <= j < i && #[trigger] topics@[j].name@ == topic@
                ==> topics@[j].msg_count < u64::MAX && topics@[j].tps_counter < u64::MAX,
        decreases topics@.len() - i,
    {
        if str_equal(topics[i].name.as_str(), topic) && (topics[i].msg_count == u64::MAX
            || topics[i].tps_counter == u64::MAX) {
            return false;
        }
        i = i + 1;
    }
    true
}

pub(crate) fn strings_equal_view(a: &Vec<String>) -> (v: Vec<String>)
    ensures
        strings(v@) == strings(a@),
{
    let v = clone_strings(a.as_slice());
    assert(strings(v@) =~= strings(a@));
    v
}


} // verus!
