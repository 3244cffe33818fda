//! Screens of the monitor and the forms that collect connection and query
//! settings: which field is focused, what typing does to it, and how its
//! text is read as a setting.

use vstd::prelude::*;

use crate::text::{decimal, parse_unsigned, parse_unsigned_text, string_pop, string_push, u64_to_decimal};

verus! {

/// The screen the monitor shows.
#[derive(Debug, Default, Clone, Copy, PartialEq, Eq, Structural)]
pub enum AppMode {
    #[default]
    SourceSelect,
    Connect,
    Connecting,
    ModbusConnect,
    ModbusConnecting,
    SerialConnect,
    SerialConnecting,
    Monitor,
}

/// MQTT protocol version.
#[derive(Debug, Default, Clone, Copy, PartialEq, Eq, Structural)]
pub enum MqttVersion {
    #[default]
    V311,
    V5,
}

pub open spec fn mqtt_version_label(v: MqttVersion) -> Seq<char> {
    match v {
        MqttVersion::V311 => "MQTT 3.1.1"@,
        MqttVersion::V5 => "MQTT 5.0"@,
    }
}

pub open spec fn other_version(v: MqttVersion) -> MqttVersion {
    match v {
        MqttVersion::V311 => MqttVersion::V5,
        MqttVersion::V5 => MqttVersion::V311,
    }
}

impl MqttVersion {
    pub fn label(self) -> (s: &'static str)
        ensures
            s@ == mqtt_version_label(self),
    {
        match self {
            MqttVersion::V311 => "MQTT 3.1.1",
            MqttVersion::V5 => "MQTT 5.0",
        }
    }

    pub fn toggle(&mut self)
        ensures
            *final(self) == other_version(*old(self)),
    {
        *self = match self {
            MqttVersion::V311 => MqttVersion::V5,
            MqttVersion::V5 => MqttVersion::V311,
        };
    }
}

/// Toggling the version twice gives it back.
pub proof fn lemma_toggle_twice(v: MqttVersion)
    ensures
        other_version(other_version(v)) == v,
{
}

/// Progress of a connection attempt, shown under a form.
#[derive(Debug, Default, PartialEq)]
pub enum ConnectStatus {
    #[default]
    Idle,
    Connecting,
    Error(String),
}

// ── Cycling focus ───────────────────────────────────────────────────────────

/// The field after `active` among `count` fields, wrapping to the first.
pub open spec fn next_index(active: nat, count: nat) -> nat {
    (active + 1) % count
}

/// The field before `active`, wrapping from the first to the last.
pub open spec fn prev_index(active: nat, count: nat) -> nat {
    if active == 0 {
        (count - 1) as nat
    } else {
        (active - 1) as nat
    }
}

/// Moving focus forward then back, or back then forward, returns to the
/// same field.
pub proof fn lemma_focus_round_trip(active: nat, count: nat)
    requires
        active < count,
    ensures
        prev_index(next_index(active, count), count) == active,
        next_index(prev_index(active, count), count) == active,
{
    if active + 1 < count {
        vstd::arithmetic::div_mod::lemma_small_mod((active + 1) as nat, count);
    } else {
        vstd::arithmetic::div_mod::lemma_mod_self_0(count as int);
    }
    let p = prev_index(active, count);
    if p + 1 < count {
        vstd::arithmetic::div_mod::lemma_small_mod((p + 1) as nat, count);
    } else {
        vstd::arithmetic::div_mod::lemma_mod_self_0(count as int);
    }
}

/// What a text field holds after `push` then `backspace`: what it held.
pub proof fn lemma_push_backspace(text: Seq<char>, c: char)
    ensures
        text.push(c).drop_last() == text,
{
    assert(text.push(c).drop_last() =~= text);
}

/// The value of a form field that holds a number, or `fallback` when its
/// text is not one (as `parse().unwrap_or(fallback)`).
pub open spec fn field_number(text: Seq<char>, max: nat, fallback: nat) -> nat {
    match parse_unsigned(text, max) {
        Some(v) => v,
        None => fallback,
    }
}

fn parse_or(text: &String, max: u64, fallback: u64) -> (n: u64)
    requires
        fallback <= max,
    ensures
        n as nat == field_number(text@, max as nat, fallback as nat),
        n <= max,
{
    match parse_unsigned_text(text.as_str(), max) {
        Some(v) => v,
        None => fallback,
    }
}

fn push_to(values: &mut [String; 4], i: usize, c: char)
    requires
        i < 4,
    ensures
        final(values)@ == old(values)@.update(i as int, final(values)@[i as int]),
        final(values)@[i as int]@ == old(values)@[i as int]@.push(c),
{
    let mut v = values[i].clone();
    string_push(&mut v, c);
    values[i] = v;
}

fn pop_from(values: &mut [String; 4], i: usize)
    requires
        i < 4,
    ensures
        final(values)@ == old(values)@.update(i as int, final(values)@[i as int]),
        old(values)@[i as int]@.len() == 0 ==> final(values)@[i as int]@ == old(values)@[i as int]@,
        old(values)@[i as int]@.len() > 0 ==> final(values)@[i as int]@ == old(values)@[i as int]@.drop_last(),
{
    let mut v = values[i].clone();
    string_pop(&mut v);
    values[i] = v;
}

fn append_to(values: &mut [String; 4], i: usize, s: &str)
    requires
        i < 4,
    ensures
        final(values)@ == old(values)@.update(i as int, final(values)@[i as int]),
        final(values)@[i as int]@ == old(values)@[i as int]@ + s@,
{
    let mut v = values[i].clone();
    v.append(s);
    values[i] = v;
}

// ── ConnectForm ─────────────────────────────────────────────────────────────

/// State for the MQTT connection credential form.
#[derive(Debug)]
pub struct ConnectForm {
    /// [host, port, username, password]
    pub values: [String; 4],
    /// 0-3 = text fields, 4 = version selector
    pub active: usize,
    pub status: ConnectStatus,
    pub mqtt_version: MqttVersion,
}

impl ConnectForm {
    pub const LABELS: [&'static str; 4] = ["Broker", "Port", "Username", "Password"];

    pub fn new(host: &str, port: u16) -> (f: Self)
        ensures
            f.values@[0]@ == host@,
            f.values@[1]@ == decimal(port as nat),
            f.values@[2]@ == Seq::<char>::empty(),
            f.values@[3]@ == Seq::<char>::empty(),
            f.active == 0,
            f.status == ConnectStatus::Idle,
            f.mqtt_version == MqttVersion::V311,
    {
        ConnectForm {
            values: [host.to_owned(), u64_to_decimal(port as u64), String::new(), String::new()],
            active: 0,
            status: ConnectStatus::Idle,
            mqtt_version: MqttVersion::V311,
        }
    }

    pub fn next(&mut self)
        requires
            old(self).active < usize::MAX,
        ensures
            final(self).active == next_index(old(self).active as nat, 5),
            final(self).values == old(self).values,
            final(self).status == old(self).status,
            final(self).mqtt_version == old(self).mqtt_version,
    {
        self.active = (self.active + 1) % 5;
    }

    pub fn prev(&mut self)
        ensures
            final(self).active == prev_index(old(self).active as nat, 5),
            final(self).values == old(self).values,
            final(self).status == old(self).status,
            final(self).mqtt_version == old(self).mqtt_version,
    {
        self.active = if self.active == 0 { 4 } else { self.active - 1 };
    }

    /// Types `c` into the focused text field (nothing on the version selector).
    pub fn push(&mut self, c: char)
        ensures
            final(self).active == old(self).active,
            old(self).active < 4 ==> final(self).values@ == old(self).values@.update(
                old(self).active as int,
                final(self).values@[old(self).active as int],
            ) && final(self).values@[old(self).active as int]@ == old(self).values@[old(
                self,
            ).active as int]@.push(c),
            old(self).active >= 4 ==> final(self).values == old(self).values,
            final(self).status == old(self).status,
            final(self).mqtt_version == old(self).mqtt_version,
    {
        if self.active < 4 {
            push_to(&mut self.values, self.active, c);
        }
    }

    /// Deletes the last character of the focused text field.
    pub fn backspace(&mut self)
        ensures
            final(self).active == old(self).active,
            old(self).active < 4 ==> final(self).values@ == old(self).values@.update(
                old(self).active as int,
                final(self).values@[old(self).active as int],
            ) && final(self).values@[old(self).active as int]@ == (if old(self).values@[old(
                self,
            ).active as int]@.len() == 0 {
                old(self).values@[old(self).active as int]@
            } else {
                old(self).values@[old(self).active as int]@.drop_last()
            }),
            old(self).active >= 4 ==> final(self).values == old(self).values,
            final(self).status == old(self).status,
            final(self).mqtt_version == old(self).mqtt_version,
    {
        if self.active < 4 {
            pop_from(&mut self.values, self.active);
        }
    }

    /// Appends pasted text to the focused text field.
    pub fn paste(&mut self, s: &str)
        ensures
            final(self).active == old(self).active,
            old(self).active < 4 ==> final(self).values@ == old(self).values@.update(
                old(self).active as int,
                final(self).values@[old(self).active as int],
            ) && final(self).values@[old(self).active as int]@ == old(self).values@[old(
                self,
            ).active as int]@ + s@,
            old(self).active >= 4 ==> final(self).values == old(self).values,
            final(self).status == old(self).status,
            final(self).mqtt_version == old(self).mqtt_version,
    {
        if self.active < 4 {
            append_to(&mut self.values, self.active, s);
        }
    }

    pub fn host(&self) -> (s: &str)
        ensures
            s@ == self.values@[0]@,
    {
        self.values[0].as_str()
    }

    /// The port field as a number, 1883 when it is not one.
    pub fn port(&self) -> (p: u16)
        ensures
            p as nat == field_number(self.values@[1]@, 0xffff, 1883),
    {
        parse_or(&self.values[1], 0xffff, 1883) as u16
    }

    pub fn username(&self) -> (s: &str)
        ensures
            s@ == self.values@[2]@,
    {
        self.values[2].as_str()
    }

    pub fn password(&self) -> (s: &str)
        ensures
            s@ == self.values@[3]@,
    {
        self.values[3].as_str()
    }
}

// ── SourceKind ──────────────────────────────────────────────────────────────

/// The protocol source that the monitor is connected to.
#[derive(Debug, Default, Clone, Copy, PartialEq, Eq, Structural)]
pub enum SourceKind {
    #[default]
    Mqtt,
    ModbusTcp,
    Serial,
}

// ── ModbusForm ──────────────────────────────────────────────────────────────

/// State for the Modbus TCP connection form.
#[derive(Debug)]
pub struct ModbusForm {
    /// [host, port, unit_id, poll_ms]
    pub values: [String; 4],
    pub active: usize,
    pub status: ConnectStatus,
}

impl ModbusForm {
    pub const LABELS: [&'static str; 4] = ["Host", "Port", "Unit ID", "Poll ms"];

    pub fn new() -> (f: Self)
        ensures
            f.values@[0]@ == "localhost"@,
            f.values@[1]@ == "502"@,
            f.values@[2]@ == "1"@,
            f.values@[3]@ == "1000"@,
            f.active == 0,
            f.status == ConnectStatus::Idle,
    {
        ModbusForm {
            values: [
                "localhost".to_owned(),
                "502".to_owned(),
                "1".to_owned(),
                "1000".to_owned(),
            ],
            active: 0,
            status: ConnectStatus::Idle,
        }
    }

    pub fn next(&mut self)
        requires
            old(self).active < usize::MAX,
        ensures
            final(self).active == next_index(old(self).active as nat, 4),
            final(self).values == old(self).values,
            final(self).status == old(self).status,
    {
        self.active = (self.active + 1) % 4;
    }

    pub fn prev(&mut self)
        ensures
            final(self).active == prev_index(old(self).active as nat, 4),
            final(self).values == old(self).values,
            final(self).status == old(self).status,
    {
        self.active = if self.active == 0 { 3 } else { self.active - 1 };
    }

    pub fn push(&mut self, c: char)
        requires
            old(self).active < 4,
        ensures
            final(self).active == old(self).active,
            final(self).values@ == old(self).values@.update(
                old(self).active as int,
                final(self).values@[old(self).active as int],
            ),
            final(self).values@[old(self).active as int]@ == old(self).values@[old(
                self,
            ).active as int]@.push(c),
            final(self).status == old(self).status,
    {
        push_to(&mut self.values, self.active, c);
    }

    pub fn backspace(&mut self)
        requires
            old(self).active < 4,
        ensures
            final(self).active == old(self).active,
            final(self).values@ == old(self).values@.update(
                old(self).active as int,
                final(self).values@[old(self).active as int],
            ),
            final(self).values@[old(self).active as int]@ == (if old(self).values@[old(
                self,
            ).active as int]@.len() == 0 {
                old(self).values@[old(self).active as int]@
            } else {
                old(self).values@[old(self).active as int]@.drop_last()
            }),
            final(self).status == old(self).status,
    {
        pop_from(&mut self.values, self.active);
    }

    pub fn paste(&mut self, s: &str)
        requires
            old(self).active < 4,
        ensures
            final(self).active == old(self).active,
            final(self).values@ == old(self).values@.update(
                old(self).active as int,
                final(self).values@[old(self).active as int],
            ),
            final(self).values@[old(self).active as int]@ == old(self).values@[old(
                self,
            ).active as int]@ + s@,
            final(self).status == old(self).status,
    {
        append_to(&mut self.values, self.active, s);
    }

    pub fn host(&self) -> (s: &str)
        ensures
            s@ == self.values@[0]@,
    {
        self.values[0].as_str()
    }

    /// The port field as a number, 502 when it is not one.
    pub fn port(&self) -> (p: u16)
        ensures
            p as nat == field_number(self.values@[1]@, 0xffff, 502),
    {
        parse_or(&self.values[1], 0xffff, 502) as u16
    }

    /// The unit id field as a number, 1 when it is not one.
    pub fn unit_id(&self) -> (u: u8)
        ensures
            u as nat == field_number(self.values@[2]@, 0xff, 1),
    {
        parse_or(&self.values[2], 0xff, 1) as u8
    }

    /// The poll interval field in milliseconds, 1000 when it is not a number.
    pub fn poll_ms(&self) -> (ms: u64)
        ensures
            ms as nat == field_number(self.values@[3]@, u64::MAX as nat, 1000),
    {
        parse_or(&self.values[3], u64::MAX, 1000)
    }
}

// ── SerialForm ──────────────────────────────────────────────────────────────

pub open spec fn baud_rates() -> Seq<u32> {
    seq![1200u32, 2400, 4800, 9600, 19200, 38400, 57600, 115200, 230400, 460800, 921600]
}

pub open spec fn data_bits_values() -> Seq<u8> {
    seq![5u8, 6, 7, 8]
}

pub open spec fn parity_labels() -> Seq<Seq<char>> {
    seq!["None"@, "Odd"@, "Even"@]
}

pub open spec fn stop_bits_values() -> Seq<u8> {
    seq![1u8, 2]
}

fn baud_rate_at(i: usize) -> (b: u32)
    requires
        i < 11,
    ensures
        b == baud_rates()[i as int],
{
    match i {
        0 => 1200,
        1 => 2400,
        2 => 4800,
        3 => 9600,
        4 => 19200,
        5 => 38400,
        6 => 57600,
        7 => 115200,
        8 => 230400,
        9 => 460800,
        _ => 921600,
    }
}

fn data_bits_at(i: usize) -> (d: u8)
    requires
        i < 4,
    ensures
        d == data_bits_values()[i as int],
{
    match i {
        0 => 5,
        1 => 6,
        2 => 7,
        _ => 8,
    }
}

fn parity_label_at(i: usize) -> (s: &'static str)
    requires
        i < 3,
    ensures
        s@ == parity_labels()[i as int],
{
    match i {
        0 => "None",
        1 => "Odd",
        _ => "Even",
    }
}

fn stop_bits_at(i: usize) -> (d: u8)
    requires
        i < 2,
    ensures
        d == stop_bits_values()[i as int],
{
    if i == 0 {
        1
    } else {
        2
    }
}

/// State for the serial port connection form.
#[derive(Debug)]
pub struct SerialForm {
    pub available_ports: Vec<String>,
    /// index into available_ports
    pub port_idx: usize,
    /// index into the baud rates
    pub baud_idx: usize,
    /// index into the data bit counts
    pub data_idx: usize,
    /// index into the parity labels
    pub parity_idx: usize,
    /// index into the stop bit counts
    pub stop_idx: usize,
    /// 0=port, 1=baud, 2=data_bits, 3=parity, 4=stop_bits
    pub active: usize,
    pub status: ConnectStatus,
}

/// Index `i` moved back by one among `count` options, wrapping.
pub open spec fn option_left(i: nat, count: nat) -> nat {
    prev_index(i, count)
}

/// Index `i` moved on by one among `count` options, wrapping.
pub open spec fn option_right(i: nat, count: nat) -> nat {
    next_index(i, count)
}

impl SerialForm {
    pub const FIELD_COUNT: usize = 5;

    /// Every option index points into its list.
    pub open spec fn wf(&self) -> bool {
        &&& self.baud_idx < 11
        &&& self.data_idx < 4
        &&& self.parity_idx < 3
        &&& self.stop_idx < 2
        &&& self.available_ports@.len() == 0 || self.port_idx < self.available_ports@.len()
    }

    /// The form with 115200 baud, 8 data bits, no parity, 1 stop bit and no
    /// port listed yet; the program lists the machine's ports with
    /// `set_available_ports`.
    pub fn new() -> (f: Self)
        ensures
            f.wf(),
            f.available_ports@.len() == 0,
            f.port_idx == 0,
            f.baud_idx == 7,
            f.data_idx == 3,
            f.parity_idx == 0,
            f.stop_idx == 0,
            f.active == 0,
            f.status == ConnectStatus::Idle,
    {
        SerialForm {
            available_ports: Vec::new(),
            port_idx: 0,
            baud_idx: 7,
            data_idx: 3,
            parity_idx: 0,
            stop_idx: 0,
            active: 0,
            status: ConnectStatus::Idle,
        }
    }

    /// Replaces the list of ports and keeps the selection inside it.
    pub fn set_available_ports(&mut self, ports: Vec<String>)
        requires
            old(self).wf(),
        ensures
            final(self).wf(),
            final(self).available_ports == ports,
            final(self).port_idx == if ports@.len() == 0 {
                0
            } else if old(self).port_idx < ports@.len() {
                old(self).port_idx as int
            } else {
                ports@.len() - 1
            },
            final(self).baud_idx == old(self).baud_idx,
            final(self).data_idx == old(self).data_idx,
            final(self).parity_idx == old(self).parity_idx,
            final(self).stop_idx == old(self).stop_idx,
            final(self).active == old(self).active,
            final(self).status == old(self).status,
    {
        self.available_ports = ports;
        let last = if self.available_ports.len() == 0 { 0 } else { self.available_ports.len() - 1 };
        if self.port_idx > last {
            self.port_idx = last;
        }
    }

    /// Selects the first port named `name`, if there is one.
    pub fn select_port(&mut self, name: &str)
        ensures
            (exists|i: int| 0 <= i < old(self).available_ports@.len() && old(self).available_ports@[i]@
                == name@) ==> {
                &&& final(self).port_idx < old(self).available_ports@.len()
                &&& final(self).available_ports@[final(self).port_idx as int]@ == name@
                &&& forall|j: int| 0 <= j < final(self).port_idx ==> old(self).available_ports@[j]@ != name@
            },
            !(exists|i: int| 0 <= i < old(self).available_ports@.len() && old(self).available_ports@[i]@
                == name@) ==> final(self).port_idx == old(self).port_idx,
            final(self).available_ports == old(self).available_ports,
            final(self).baud_idx == old(self).baud_idx,
            final(self).data_idx == old(self).data_idx,
            final(self).parity_idx == old(self).parity_idx,
            final(self).stop_idx == old(self).stop_idx,
            final(self).active == old(self).active,
            final(self).status == old(self).status,
    {
        let mut i: usize = 0;
        while i < self.available_ports.len()
            invariant
                self.available_ports == old(self).available_ports,
                self.port_idx == old(self).port_idx,
                self.baud_idx == old(self).baud_idx,
                self.data_idx == old(self).data_idx,
                self.parity_idx == old(self).parity_idx,
                self.stop_idx == old(self).stop_idx,
                self.active == old(self).active,
                self.status == old(self).status,
                i <= self.available_ports@.len(),
                forall|j: int| 0 <= j < i ==> self.available_ports@[j]@ != name@,
            decreases self.available_ports@.len() - i,
        {
            let matches = crate::text::str_equal(self.available_ports[i].as_str(), name);
            if matches {
                self.port_idx = i;
                return;
            }
            i = i + 1;
        }
    }

    pub fn next(&mut self)
        requires
            old(self).active < usize::MAX,
        ensures
            final(self).active == next_index(old(self).active as nat, 5),
            final(self).available_ports == old(self).available_ports,
            final(self).port_idx == old(self).port_idx,
            final(self).baud_idx == old(self).baud_idx,
            final(self).data_idx == old(self).data_idx,
            final(self).parity_idx == old(self).parity_idx,
            final(self).stop_idx == old(self).stop_idx,
            final(self).status == old(self).status,
    {
        self.active = (self.active + 1) % Self::FIELD_COUNT;
    }

    pub fn prev(&mut self)
        ensures
            final(self).active == prev_index(old(self).active as nat, 5),
            final(self).available_ports == old(self).available_ports,
            final(self).port_idx == old(self).port_idx,
            final(self).baud_idx == old(self).baud_idx,
            final(self).data_idx == old(self).data_idx,
            final(self).parity_idx == old(self).parity_idx,
            final(self).stop_idx == old(self).stop_idx,
            final(self).status == old(self).status,
    {
        self.active = if self.active == 0 { Self::FIELD_COUNT - 1 } else { self.active - 1 };
    }

    /// Pasting does nothing here: every field is a choice.
    pub fn paste(&mut self, _s: &str)
        ensures
            *final(self) == *old(self),
    {
    }

    /// Moves the focused choice back by one, wrapping.
    pub fn left(&mut self)
        requires
            old(self).wf(),
        ensures
            final(self).wf(),
            final(self).available_ports == old(self).available_ports,
            final(self).active == old(self).active,
            final(self).status == old(self).status,
            final(self).port_idx == if old(self).active == 0 && old(self).available_ports@.len() > 0 {
                option_left(old(self).port_idx as nat, old(self).available_ports@.len()) as int
            } else {
                old(self).port_idx as int
            },
            final(self).baud_idx == if old(self).active == 1 {
                option_left(old(self).baud_idx as nat, 11) as int
            } else {
                old(self).baud_idx as int
            },
            final(self).data_idx == if old(self).active == 2 {
                option_left(old(self).data_idx as nat, 4) as int
            } else {
                old(self).data_idx as int
            },
            final(self).parity_idx == if old(self).active == 3 {
                option_left(old(self).parity_idx as nat, 3) as int
            } else {
                old(self).parity_idx as int
            },
            final(self).stop_idx == if old(self).active == 4 {
                option_left(old(self).stop_idx as nat, 2) as int
            } else {
                old(self).stop_idx as int
            },
    {
        match self.active {
            0 => {
                if self.available_ports.len() > 0 {
                    self.port_idx = if self.port_idx == 0 {
                        self.available_ports.len() - 1
                    } else {
                        self.port_idx - 1
                    };
                }
            },
            1 => self.baud_idx = if self.baud_idx == 0 { 10 } else { self.baud_idx - 1 },
            2 => self.data_idx = if self.data_idx == 0 { 3 } else { self.data_idx - 1 },
            3 => self.parity_idx = if self.parity_idx == 0 { 2 } else { self.parity_idx - 1 },
            4 => self.stop_idx = if self.stop_idx == 0 { 1 } else { self.stop_idx - 1 },
            _ => {},
        }
    }

    /// Moves the focused choice on by one, wrapping.
    pub fn right(&mut self)
        requires
            old(self).wf(),
        ensures
            final(self).wf(),
            final(self).available_ports == old(self).available_ports,
            final(self).active == old(self).active,
            final(self).status == old(self).status,
            final(self).port_idx == if old(self).active == 0 && old(self).available_ports@.len() > 0 {
                option_right(old(self).port_idx as nat, old(self).available_ports@.len()) as int
            } else {
                old(self).port_idx as int
            },
            final(self).baud_idx == if old(self).active == 1 {
                option_right(old(self).baud_idx as nat, 11) as int
            } else {
                old(self).baud_idx as int
            },
            final(self).data_idx == if old(self).active == 2 {
                option_right(old(self).data_idx as nat, 4) as int
            } else {
                old(self).data_idx as int
            },
            final(self).parity_idx == if old(self).active == 3 {
                option_right(old(self).parity_idx as nat, 3) as int
            } else {
                old(self).parity_idx as int
            },
            final(self).stop_idx == if old(self).active == 4 {
                option_right(old(self).stop_idx as nat, 2) as int
            } else {
                old(self).stop_idx as int
            },
    {
        match self.active {
            0 => {
                if self.available_ports.len() > 0 {
                    self.port_idx = (self.port_idx + 1) % self.available_ports.len();
                }
            },
            1 => self.baud_idx = (self.baud_idx + 1) % 11,
            2 => self.data_idx = (self.data_idx + 1) % 4,
            3 => self.parity_idx = (self.parity_idx + 1) % 3,
            4 => self.stop_idx = (self.stop_idx + 1) % 2,
            _ => {},
        }
    }

    /// The selected port name, or "" when the selection is outside the list.
    pub fn port(&self) -> (s: &str)
        ensures
            self.port_idx < self.available_ports@.len() ==> s@ == self.available_ports@[self.port_idx as int]@,
            self.port_idx >= self.available_ports@.len() ==> s@ == ""@,
    {
        if self.port_idx < self.available_ports.len() {
            self.available_ports[self.port_idx].as_str()
        } else {
            ""
        }
    }

    pub fn baud_rate(&self) -> (b: u32)
        requires
            self.wf(),
        ensures
            b == baud_rates()[self.baud_idx as int],
    {
        baud_rate_at(self.baud_idx)
    }

    pub fn data_bits_val(&self) -> (d: u8)
        requires
            self.wf(),
        ensures
            d == data_bits_values()[self.data_idx as int],
    {
        data_bits_at(self.data_idx)
    }

    pub fn parity_label(&self) -> (s: &'static str)
        requires
            self.wf(),
        ensures
            s@ == parity_labels()[self.parity_idx as int],
    {
        parity_label_at(self.parity_idx)
    }

    pub fn stop_bits_val(&self) -> (d: u8)
        requires
            self.wf(),
        ensures
            d == stop_bits_values()[self.stop_idx as int],
    {
        stop_bits_at(self.stop_idx)
    }

    pub fn baud_label(&self) -> (s: String)
        requires
            self.wf(),
        ensures
            s@ == decimal(baud_rates()[self.baud_idx as int] as nat),
    {
        u64_to_decimal(self.baud_rate() as u64)
    }

    pub fn data_label(&self) -> (s: String)
        requires
            self.wf(),
        ensures
            s@ == decimal(data_bits_values()[self.data_idx as int] as nat),
    {
        u64_to_decimal(self.data_bits_val() as u64)
    }

    pub fn stop_label(&self) -> (s: String)
        requires
            self.wf(),
        ensures
            s@ == decimal(stop_bits_values()[self.stop_idx as int] as nat),
    {
        u64_to_decimal(self.stop_bits_val() as u64)
    }
}

// ── FunctionCode and DisplayFormat ──────────────────────────────────────────

/// The Modbus read function to poll with.
#[derive(Debug, Clone, Copy, PartialEq, Eq, Structural, Default)]
pub enum FunctionCode {
    FC01Coil,
    FC02Discrete,
    FC03Holding,
    #[default]
    FC04Input,
}

pub open spec fn function_codes() -> Seq<FunctionCode> {
    seq![FunctionCode::FC01Coil, FunctionCode::FC02Discrete, FunctionCode::FC03Holding, FunctionCode::FC04Input]
}

pub open spec fn function_code_label(fc: FunctionCode) -> Seq<char> {
    match fc {
        FunctionCode::FC01Coil => "FC01 Coil"@,
        FunctionCode::FC02Discrete => "FC02 Discrete"@,
        FunctionCode::FC03Holding => "FC03 Holding"@,
        FunctionCode::FC04Input => "FC04 Input"@,
    }
}

/// Coils and discrete inputs are single bits; registers are 16-bit words.
pub open spec fn is_bit_code(fc: FunctionCode) -> bool {
    fc == FunctionCode::FC01Coil || fc == FunctionCode::FC02Discrete
}

impl FunctionCode {
    /// The `i`-th function code in selector order.
    pub fn from_index(i: usize) -> (fc: Self)
        requires
            i < 4,
        ensures
            fc == function_codes()[i as int],
    {
        match i {
            0 => FunctionCode::FC01Coil,
            1 => FunctionCode::FC02Discrete,
            2 => FunctionCode::FC03Holding,
            _ => FunctionCode::FC04Input,
        }
    }

    pub fn label(self) -> (s: &'static str)
        ensures
            s@ == function_code_label(self),
    {
        match self {
            FunctionCode::FC01Coil => "FC01 Coil",
            FunctionCode::FC02Discrete => "FC02 Discrete",
            FunctionCode::FC03Holding => "FC03 Holding",
            FunctionCode::FC04Input => "FC04 Input",
        }
    }

    pub fn is_bit(self) -> (b: bool)
        ensures
            b == is_bit_code(self),
    {
        match self {
            FunctionCode::FC01Coil | FunctionCode::FC02Discrete => true,
            _ => false,
        }
    }
}

/// How register values are shown.
#[derive(Debug, Clone, Copy, PartialEq, Eq, Structural, Default)]
pub enum DisplayFormat {
    #[default]
    Unsigned,
    Signed,
    Hex,
    Binary,
    Long,
    LongInverse,
    Float,
    FloatInverse,
    Double,
    DoubleInverse,
}

pub open spec fn display_formats() -> Seq<DisplayFormat> {
    seq![
        DisplayFormat::Unsigned,
        DisplayFormat::Signed,
        DisplayFormat::Hex,
        DisplayFormat::Binary,
        DisplayFormat::Long,
        DisplayFormat::LongInverse,
        DisplayFormat::Float,
        DisplayFormat::FloatInverse,
        DisplayFormat::Double,
        DisplayFormat::DoubleInverse,
    ]
}

pub open spec fn display_format_label(f: DisplayFormat) -> Seq<char> {
    match f {
        DisplayFormat::Unsigned => "Unsigned"@,
        DisplayFormat::Signed => "Signed"@,
        DisplayFormat::Hex => "Hex"@,
        DisplayFormat::Binary => "Binary"@,
        DisplayFormat::Long => "Long (AB CD)"@,
        DisplayFormat::LongInverse => "Long Inv (CD AB)"@,
        DisplayFormat::Float => "Float (AB CD)"@,
        DisplayFormat::FloatInverse => "Float Inv (CD AB)"@,
        DisplayFormat::Double => "Double (AB..GH)"@,
        DisplayFormat::DoubleInverse => "Double Inv (GH..AB)"@,
    }
}

/// The number of consecutive registers that one value spans.
pub open spec fn register_count_spec(f: DisplayFormat) -> nat {
    match f {
        DisplayFormat::Long | DisplayFormat::LongInverse | DisplayFormat::Float
        | DisplayFormat::FloatInverse => 2,
        DisplayFormat::Double | DisplayFormat::DoubleInverse => 4,
        _ => 1,
    }
}

impl DisplayFormat {
    /// The `i`-th format in selector order.
    pub fn from_index(i: usize) -> (f: Self)
        requires
            i < 10,
        ensures
            f == display_formats()[i as int],
    {
        match i {
            0 => DisplayFormat::Unsigned,
            1 => DisplayFormat::Signed,
            2 => DisplayFormat::Hex,
            3 => DisplayFormat::Binary,
            4 => DisplayFormat::Long,
            5 => DisplayFormat::LongInverse,
            6 => DisplayFormat::Float,
            7 => DisplayFormat::FloatInverse,
            8 => DisplayFormat::Double,
            _ => DisplayFormat::DoubleInverse,
        }
    }

    pub fn label(self) -> (s: &'static str)
        ensures
            s@ == display_format_label(self),
    {
        match self {
            DisplayFormat::Unsigned => "Unsigned",
            DisplayFormat::Signed => "Signed",
            DisplayFormat::Hex => "Hex",
            DisplayFormat::Binary => "Binary",
            DisplayFormat::Long => "Long (AB CD)",
            DisplayFormat::LongInverse => "Long Inv (CD AB)",
            DisplayFormat::Float => "Float (AB CD)",
            DisplayFormat::FloatInverse => "Float Inv (CD AB)",
            DisplayFormat::Double => "Double (AB..GH)",
            DisplayFormat::DoubleInverse => "Double Inv (GH..AB)",
        }
    }

    /// Number of consecutive registers needed to represent one value.
    pub fn register_count(self) -> (n: usize)
        ensures
            n as nat == register_count_spec(self),
    {
        match self {
            DisplayFormat::Long | DisplayFormat::LongInverse | DisplayFormat::Float
            | DisplayFormat::FloatInverse => 2,
            DisplayFormat::Double | DisplayFormat::DoubleInverse => 4,
            _ => 1,
        }
    }
}

// ── ModbusQueryForm ─────────────────────────────────────────────────────────

/// Live query-settings form shown in the Modbus monitor.
#[derive(Debug)]
pub struct ModbusQueryForm {
    /// index into the function codes
    pub fc_idx: usize,
    /// text input for start address
    pub start_input: String,
    /// text input for quantity
    pub qty_input: String,
    /// index into the display formats
    pub format_idx: usize,
    /// Which field is active: 0=FC, 1=Start, 2=Qty, 3=Format
    pub active: usize,
    /// Whether the form is in edit mode
    pub editing: bool,
}

pub open spec fn min_nat(a: nat, b: nat) -> nat {
    if a < b { a } else { b }
}

impl ModbusQueryForm {
    /// FC04, start 0, quantity 10, unsigned display, not editing.
    pub fn default_form() -> (f: Self)
        ensures
            f.fc_idx == 3,
            f.start_input@ == "0"@,
            f.qty_input@ == "10"@,
            f.format_idx == 0,
            f.active == 0,
            !f.editing,
    {
        ModbusQueryForm {
            fc_idx: 3,
            start_input: "0".to_owned(),
            qty_input: "10".to_owned(),
            format_idx: 0,
            active: 0,
            editing: false,
        }
    }

    /// The selected function code (the last one if the index is past the end).
    pub fn fc(&self) -> (fc: FunctionCode)
        ensures
            fc == function_codes()[min_nat(self.fc_idx as nat, 3) as int],
    {
        FunctionCode::from_index(if self.fc_idx < 3 { self.fc_idx } else { 3 })
    }

    /// The start address, 0 when the text is not a number.
    pub fn start(&self) -> (s: u16)
        ensures
            s as nat == field_number(self.start_input@, 0xffff, 0),
    {
        parse_or(&self.start_input, 0xffff, 0) as u16
    }

    /// The quantity, at least 1 (1 when the text is not a number).
    pub fn qty(&self) -> (q: u16)
        ensures
            q as nat == if field_number(self.qty_input@, 0xffff, 1) == 0 {
                1
            } else {
                field_number(self.qty_input@, 0xffff, 1)
            },
    {
        let q = parse_or(&self.qty_input, 0xffff, 1) as u16;
        if q < 1 {
            1
        } else {
            q
        }
    }

    /// The selected display format (the last one if the index is past the end).
    pub fn format(&self) -> (f: DisplayFormat)
        ensures
            f == display_formats()[min_nat(self.format_idx as nat, 9) as int],
    {
        DisplayFormat::from_index(if self.format_idx < 9 { self.format_idx } else { 9 })
    }

    pub fn next_field(&mut self)
        requires
            old(self).active < usize::MAX,
        ensures
            final(self).active == next_index(old(self).active as nat, 4),
            final(self).fc_idx == old(self).fc_idx,
            final(self).format_idx == old(self).format_idx,
            final(self).start_input == old(self).start_input,
            final(self).qty_input == old(self).qty_input,
            final(self).editing == old(self).editing,
    {
        self.active = (self.active + 1) % 4;
    }

    pub fn prev_field(&mut self)
        ensures
            final(self).active == prev_index(old(self).active as nat, 4),
            final(self).fc_idx == old(self).fc_idx,
            final(self).format_idx == old(self).format_idx,
            final(self).start_input == old(self).start_input,
            final(self).qty_input == old(self).qty_input,
            final(self).editing == old(self).editing,
    {
        self.active = if self.active == 0 { 3 } else { self.active - 1 };
    }

    /// Moves the focused selector (function code or format) back, wrapping.
    pub fn left(&mut self)
        ensures
            final(self).active == old(self).active,
            final(self).fc_idx == if old(self).active == 0 {
                option_left(old(self).fc_idx as nat, 4) as int
            } else {
                old(self).fc_idx as int
            },
            final(self).format_idx == if old(self).active == 3 {
                option_left(old(self).format_idx as nat, 10) as int
            } else {
                old(self).format_idx as int
            },
            final(self).start_input == old(self).start_input,
            final(self).qty_input == old(self).qty_input,
            final(self).editing == old(self).editing,
    {
        match self.active {
            0 => self.fc_idx = if self.fc_idx == 0 { 3 } else { self.fc_idx - 1 },
            3 => self.format_idx = if self.format_idx == 0 { 9 } else { self.format_idx - 1 },
            _ => {},
        }
    }

    /// Moves the focused selector on, wrapping.
    pub fn right(&mut self)
        requires
            old(self).fc_idx < usize::MAX,
            old(self).format_idx < usize::MAX,
        ensures
            final(self).active == old(self).active,
            final(self).fc_idx == if old(self).active == 0 {
                option_right(old(self).fc_idx as nat, 4) as int
            } else {
                old(self).fc_idx as int
            },
            final(self).format_idx == if old(self).active == 3 {
                option_right(old(self).format_idx as nat, 10) as int
            } else {
                old(self).format_idx as int
            },
            final(self).start_input == old(self).start_input,
            final(self).qty_input == old(self).qty_input,
            final(self).editing == old(self).editing,
    {
        match self.active {
            0 => self.fc_idx = (self.fc_idx + 1) % 4,
            3 => self.format_idx = (self.format_idx + 1) % 10,
            _ => {},
        }
    }

    /// Types a digit into the start or quantity field; other characters and
    /// other fields are ignored.
    pub fn push(&mut self, c: char)
        ensures
            final(self).start_input@ == if old(self).active == 1 && '0' <= c <= '9' {
                old(self).start_input@.push(c)
            } else {
                old(self).start_input@
            },
            final(self).qty_input@ == if old(self).active == 2 && '0' <= c <= '9' {
                old(self).qty_input@.push(c)
            } else {
                old(self).qty_input@
            },
            final(self).active == old(self).active,
            final(self).fc_idx == old(self).fc_idx,
            final(self).format_idx == old(self).format_idx,
            final(self).editing == old(self).editing,
    {
        if '0' <= c && c <= '9' {
            match self.active {
                1 => string_push(&mut self.start_input, c),
                2 => string_push(&mut self.qty_input, c),
                _ => {},
            }
        }
    }

    /// Deletes the last character of the start or quantity field.
    pub fn backspace(&mut self)
        ensures
            final(self).start_input@ == if old(self).active == 1 && old(self).start_input@.len() > 0 {
                old(self).start_input@.drop_last()
            } else {
                old(self).start_input@
            },
            final(self).qty_input@ == if old(self).active == 2 && old(self).qty_input@.len() > 0 {
                old(self).qty_input@.drop_last()
            } else {
                old(self).qty_input@
            },
            final(self).active == old(self).active,
            final(self).fc_idx == old(self).fc_idx,
            final(self).format_idx == old(self).format_idx,
            final(self).editing == old(self).editing,
    {
        match self.active {
            1 => {
                string_pop(&mut self.start_input);
            },
            2 => {
                string_pop(&mut self.qty_input);
            },
            _ => {},
        }
    }
}

impl Default for ModbusQueryForm {
    fn default() -> (f: Self)
        ensures
            f.fc_idx == 3,
            f.start_input@ == "0"@,
            f.qty_input@ == "10"@,
            f.format_idx == 0,
            f.active == 0,
            !f.editing,
    {
        Self::default_form()
    }
}

} // verus!
