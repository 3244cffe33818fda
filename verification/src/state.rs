//! What the monitor has received and how the user is looking at it: MQTT
//! topics and messages with their filters and selections, the Modbus register
//! table and tracked points, OPC UA rows and the serial log.

use vstd::prelude::*;
use vstd::string::StringSliceAdditionalSpecFns;
use vstd::utf8::{decode_utf8, encode_utf8, valid_utf8, is_char_boundary, is_continuation_byte};

use crate::mode::{DisplayFormat, FunctionCode, ModbusQueryForm, SourceKind};
use crate::text::{hex_lower_fixed, u64_to_hex_fixed, chars_of, string_from_chars};

verus! {

// ── Text conversions of std ─────────────────────────────────────────────────

/// What `String::from_utf8_lossy` makes of `bytes`.
pub uninterp spec fn utf8_lossy(bytes: Seq<u8>) -> Seq<char>;

/// Calls `String::from_utf8_lossy`: std documents that valid UTF-8 comes back
/// unchanged (invalid sequences become U+FFFD, which is not stated here).
#[verifier::external_body]
pub(crate) fn lossy_string(bytes: &[u8]) -> (s: String)
    ensures
        s@ == utf8_lossy(bytes@),
        valid_utf8(bytes@) ==> s@ == decode_utf8(bytes@),
{
    String::from_utf8_lossy(bytes).into_owned()
}

/// What `str::to_lowercase` makes of a text (Unicode lower-casing).
pub uninterp spec fn lowercase(s: Seq<char>) -> Seq<char>;

/// Calls `str::to_lowercase`.
#[verifier::external_body]
pub(crate) fn to_lowercase(s: &str) -> (r: String)
    ensures
        r@ == lowercase(s@),
{
    s.to_lowercase()
}

/// The UTF-8 encoding of `s`, copied into a vector.
pub(crate) fn utf8_bytes(s: &str) -> (b: Vec<u8>)
    ensures
        b@ == encode_utf8(s@),
{
    s.as_bytes_vec()
}

// ── Serial log ──────────────────────────────────────────────────────────────

#[derive(Debug, Clone, Copy, PartialEq, Eq, Structural, Default)]
pub enum SerialDisplayFormat {
    #[default]
    Ascii,
    Hex,
}

#[derive(Debug, Clone, Copy, PartialEq, Eq, Structural)]
pub enum SerialDirection {
    Rx,
    Tx,
}

/// One received line or sent message of the serial log.
#[derive(Debug, Clone)]
pub struct SerialEntry {
    /// "hh:mm:ss"
    pub timestamp: String,
    pub direction: SerialDirection,
    /// raw bytes (never converted through UTF-8)
    pub raw: Vec<u8>,
}

/// Bytes as two lower-case hex digits each, separated by single spaces.
pub open spec fn hex_join(raw: Seq<u8>) -> Seq<char>
    decreases raw.len(),
{
    if raw.len() == 0 {
        Seq::empty()
    } else if raw.len() == 1 {
        hex_lower_fixed(raw[0] as nat, 2)
    } else {
        hex_join(raw.drop_last()) + seq![' '] + hex_lower_fixed(raw.last() as nat, 2)
    }
}

pub fn hex_join_bytes(raw: &[u8]) -> (s: String)
    ensures
        s@ == hex_join(raw@),
{
    let mut out = String::new();
    let mut i: usize = 0;
    while i < raw.len()
        invariant
            i <= raw@.len(),
            out@ == hex_join(raw@.take(i as int)),
        decreases raw@.len() - i,
    {
        assert(raw@.take(i + 1).drop_last() =~= raw@.take(i as int));
        if i > 0 {
            crate::text::string_push(&mut out, ' ');
        }
        out.append(u64_to_hex_fixed(raw[i] as u64, 2, false).as_str());
        i = i + 1;
        assert(out@ =~= hex_join(raw@.take(i as int)));
    }
    assert(raw@.take(raw@.len() as int) =~= raw@);
    out
}

pub open spec fn serial_payload_text(raw: Seq<u8>, fmt: SerialDisplayFormat) -> Seq<char> {
    match fmt {
        SerialDisplayFormat::Ascii => utf8_lossy(raw),
        SerialDisplayFormat::Hex => hex_join(raw),
    }
}

pub open spec fn direction_arrow(d: SerialDirection) -> Seq<char> {
    match d {
        SerialDirection::Rx => " RX <- "@,
        SerialDirection::Tx => " TX -> "@,
    }
}

impl SerialEntry {
    /// A received line, stamped `timestamp` (the local time it arrived).
    pub fn rx(text: String, timestamp: String) -> (e: Self)
        ensures
            e.timestamp == timestamp,
            e.direction == SerialDirection::Rx,
            e.raw@ == encode_utf8(text@),
    {
        let bytes = utf8_bytes(text.as_str());
        SerialEntry { timestamp, direction: SerialDirection::Rx, raw: bytes }
    }

    /// Sent bytes, stamped `timestamp` (the local time they were sent).
    pub fn tx(bytes: Vec<u8>, timestamp: String) -> (e: Self)
        ensures
            e.timestamp == timestamp,
            e.direction == SerialDirection::Tx,
            e.raw == bytes,
    {
        SerialEntry { timestamp, direction: SerialDirection::Tx, raw: bytes }
    }

    /// Format for display. In Hex mode the payload bytes are hex-encoded.
    pub fn render(&self, fmt: SerialDisplayFormat) -> (s: String)
        ensures
            s@ == self.timestamp@ + direction_arrow(self.direction) + serial_payload_text(self.raw@, fmt),
    {
        let payload = match fmt {
            SerialDisplayFormat::Ascii => lossy_string(self.raw.as_slice()),
            SerialDisplayFormat::Hex => hex_join_bytes(self.raw.as_slice()),
        };
        let mut out = self.timestamp.clone();
        match self.direction {
            SerialDirection::Rx => out.append(" RX <- "),
            SerialDirection::Tx => out.append(" TX -> "),
        }
        out.append(payload.as_str());
        out
    }
}

// ── Rows ────────────────────────────────────────────────────────────────────

/// One polled register (or coil) and its raw value.
#[derive(Debug, Clone, Copy)]
pub struct ModbusRow {
    pub address: u16,
    pub value: u16,
}

/// The latest sample of one monitored OPC UA node.
#[derive(Debug, Clone)]
pub struct OpcUaRow {
    pub node_id: String,
    pub display_name: String,
    pub value: String,
    pub data_type: String,
    pub source_timestamp: String,
    pub server_timestamp: String,
}

/// A topic seen on the broker, with its message counters.
#[derive(Debug, Clone)]
pub struct TopicItem {
    pub name: String,
    pub msg_count: u64,
    /// messages/sec (updated each second)
    pub tps: u64,
    /// accumulator for current second
    pub tps_counter: u64,
    pub tps_history: Vec<u64>,
}

impl TopicItem {
    pub fn new(name: &str) -> (t: Self)
        ensures
            t.name@ == name@,
            t.msg_count == 0,
            t.tps == 0,
            t.tps_counter == 0,
            t.tps_history@.len() == 0,
    {
        TopicItem { name: name.to_owned(), msg_count: 0, tps: 0, tps_counter: 0, tps_history: Vec::new() }
    }
}

/// A received MQTT message as the monitor keeps it.
#[derive(Debug, Clone)]
pub struct Message {
    pub topic: String,
    pub payload: String,
    pub timestamp: String,
    pub qos: u8,
    pub retained: bool,
}

/// A message as the MQTT client delivers it.
#[derive(Debug, Clone)]
pub struct MqttMessage {
    pub topic: String,
    pub payload: Vec<u8>,
    pub qos: u8,
    pub retained: bool,
}

// ── Modbus trend points ─────────────────────────────────────────────────────

/// A sampled register value. Floating-point formats are kept as the bit
/// pattern of the `f32` or `f64` that the registers spell; the others as the
/// integer they spell.
#[derive(Debug, Clone, Copy, PartialEq, Eq, Structural)]
pub enum TrendValue {
    Number(i64),
    F32Bits(u32),
    F64Bits(u64),
}

/// One sample of a tracked register, with the minute and second it was taken.
#[derive(Debug, Clone)]
pub struct ModbusTrendSample {
    pub time_mmss: String,
    pub value: TrendValue,
}

/// A register address whose values are tracked for the trend chart.
#[derive(Debug, Clone)]
pub struct ModbusTrendPoint {
    pub address: u16,
    pub values: Vec<ModbusTrendSample>,
}

impl ModbusTrendPoint {
    pub fn new(address: u16) -> (p: Self)
        ensures
            p.address == address,
            p.values@.len() == 0,
    {
        ModbusTrendPoint { address, values: Vec::new() }
    }
}

/// The signed 16-bit value of a register.
pub open spec fn i16_of(v: u16) -> int {
    if v >= 0x8000 { v - 0x1_0000 } else { v as int }
}

/// The signed 32-bit value of two registers, high word first.
pub open spec fn i32_of_words(hi: u16, lo: u16) -> int {
    let u = hi as int * 0x1_0000 + lo as int;
    if u >= 0x8000_0000 { u - 0x1_0000_0000 } else { u }
}

pub open spec fn u32_of_words(hi: u16, lo: u16) -> u32 {
    (hi as int * 0x1_0000 + lo as int) as u32
}

pub open spec fn u64_of_words(w0: u16, w1: u16, w2: u16, w3: u16) -> u64 {
    (w0 as int * 0x1_0000_0000_0000 + w1 as int * 0x1_0000_0000 + w2 as int * 0x1_0000 + w3 as int) as u64
}

/// The value that the register at `idx` shows in format `fmt` when polled
/// with `fc`: coils are 0 or 1; a value spanning several registers is shown
/// only at the first register of its group, and only when the group is
/// complete.
pub open spec fn register_value(rows: Seq<ModbusRow>, idx: int, fmt: DisplayFormat, fc: FunctionCode) -> Option<TrendValue> {
    let n = crate::mode::register_count_spec(fmt);
    let w = |k: int| rows[idx + k].value;
    if crate::mode::is_bit_code(fc) {
        Some(TrendValue::Number(if rows[idx].value != 0 { 1 } else { 0 }))
    } else if n > 1 && idx % (n as int) != 0 {
        None
    } else {
        match fmt {
            DisplayFormat::Unsigned | DisplayFormat::Hex | DisplayFormat::Binary => Some(TrendValue::Number(rows[idx].value as i64)),
            DisplayFormat::Signed => Some(TrendValue::Number(i16_of(rows[idx].value) as i64)),
            DisplayFormat::Long => if idx + 1 < rows.len() {
                Some(TrendValue::Number(i32_of_words(w(0), w(1)) as i64))
            } else {
                None
            },
            DisplayFormat::LongInverse => if idx + 1 < rows.len() {
                Some(TrendValue::Number(i32_of_words(w(1), w(0)) as i64))
            } else {
                None
            },
            DisplayFormat::Float => if idx + 1 < rows.len() {
                Some(TrendValue::F32Bits(u32_of_words(w(0), w(1))))
            } else {
                None
            },
            DisplayFormat::FloatInverse => if idx + 1 < rows.len() {
                Some(TrendValue::F32Bits(u32_of_words(w(1), w(0))))
            } else {
                None
            },
            DisplayFormat::Double => if idx + 3 < rows.len() {
                Some(TrendValue::F64Bits(u64_of_words(w(0), w(1), w(2), w(3))))
            } else {
                None
            },
            DisplayFormat::DoubleInverse => if idx + 3 < rows.len() {
                Some(TrendValue::F64Bits(u64_of_words(w(3), w(2), w(1), w(0))))
            } else {
                None
            },
        }
    }
}

/// `rows` with the `n` registers from `idx` on in reverse order.
pub open spec fn words_reversed(rows: Seq<ModbusRow>, idx: int, n: nat) -> Seq<ModbusRow> {
    Seq::new(rows.len(), |k: int| if idx <= k < idx + n { rows[2 * idx + n - 1 - k] } else { rows[k] })
}

/// A "Long" value is the signed 32-bit number whose high word is the register
/// at `idx` and whose low word is the next one.
pub proof fn lemma_long_is_high_word_first(rows: Seq<ModbusRow>, idx: int, fc: FunctionCode)
    requires
        !crate::mode::is_bit_code(fc),
        0 <= idx,
        idx + 1 < rows.len(),
        idx % 2 == 0,
    ensures
        register_value(rows, idx, DisplayFormat::Long, fc) matches Some(TrendValue::Number(v)) && {
            &&& -0x8000_0000 <= v < 0x8000_0000
            &&& (v + 0x1_0000_0000) % 0x1_0000_0000 == rows[idx].value * 0x1_0000 + rows[idx + 1].value
        },
{
}

/// The word-swapped formats show what the plain ones show with the words of
/// the group in reverse order ("CD AB" for two registers, "GH EF CD AB" for
/// four).
pub proof fn lemma_inverse_formats_reverse_words(rows: Seq<ModbusRow>, idx: int, fc: FunctionCode)
    requires
        !crate::mode::is_bit_code(fc),
        0 <= idx,
        idx + 1 < rows.len(),
        idx % 2 == 0,
    ensures
        register_value(rows, idx, DisplayFormat::LongInverse, fc)
            == register_value(words_reversed(rows, idx, 2), idx, DisplayFormat::Long, fc),
        register_value(rows, idx, DisplayFormat::FloatInverse, fc)
            == register_value(words_reversed(rows, idx, 2), idx, DisplayFormat::Float, fc),
        idx % 4 == 0 ==> register_value(rows, idx, DisplayFormat::DoubleInverse, fc)
            == register_value(words_reversed(rows, idx, 4), idx, DisplayFormat::Double, fc),
{
    let r2 = words_reversed(rows, idx, 2);
    assert(r2[idx] == rows[idx + 1]);
    assert(r2[idx + 1] == rows[idx]);
    if idx % 4 == 0 && idx + 3 < rows.len() {
        let r4 = words_reversed(rows, idx, 4);
        assert(r4[idx] == rows[idx + 3]);
        assert(r4[idx + 1] == rows[idx + 2]);
        assert(r4[idx + 2] == rows[idx + 1]);
        assert(r4[idx + 3] == rows[idx]);
    }
}

/// `idx` is the first row with this address.
pub open spec fn first_row_with(rows: Seq<ModbusRow>, address: u16, idx: int) -> bool {
    &&& 0 <= idx < rows.len()
    &&& rows[idx].address == address
    &&& forall|j: int| 0 <= j < idx ==> rows[j].address != address
}

/// The value of the first row with `address`, in format `fmt`.
pub open spec fn value_for_address(rows: Seq<ModbusRow>, address: u16, fmt: DisplayFormat, fc: FunctionCode) -> Option<TrendValue> {
    if exists|i: int| 0 <= i < rows.len() && rows[i].address == address {
        let idx = choose|i: int| first_row_with(rows, address, i);
        register_value(rows, idx, fmt, fc)
    } else {
        None
    }
}

proof fn lemma_first_row_unique(rows: Seq<ModbusRow>, address: u16, a: int, b: int)
    requires
        first_row_with(rows, address, a),
        first_row_with(rows, address, b),
    ensures
        a == b,
{
}

/// The value that the register at `idx` shows.
pub fn register_value_at(rows: &[ModbusRow], idx: usize, fmt: DisplayFormat, fc: FunctionCode) -> (r: Option<TrendValue>)
    requires
        idx < rows@.len(),
    ensures
        r == register_value(rows@, idx as int, fmt, fc),
{
    if fc.is_bit() {
        return Some(TrendValue::Number(if rows[idx].value != 0 { 1 } else { 0 }));
    }
    let n = fmt.register_count();
    if n > 1 && idx % n != 0 {
        return None;
    }
    let len = rows.len();
    match fmt {
        DisplayFormat::Unsigned | DisplayFormat::Hex | DisplayFormat::Binary => Some(TrendValue::Number(rows[idx].value as i64)),
        DisplayFormat::Signed => {
            let v = rows[idx].value as i64;
            Some(TrendValue::Number(if v >= 0x8000 { v - 0x1_0000 } else { v }))
        },
        DisplayFormat::Long | DisplayFormat::LongInverse => {
            if idx + 1 < len {
                let (hi, lo) = if fmt == DisplayFormat::Long {
                    (rows[idx].value, rows[idx + 1].value)
                } else {
                    (rows[idx + 1].value, rows[idx].value)
                };
                let u = hi as i64 * 0x1_0000 + lo as i64;
                Some(TrendValue::Number(if u >= 0x8000_0000 { u - 0x1_0000_0000 } else { u }))
            } else {
                None
            }
        },
        DisplayFormat::Float | DisplayFormat::FloatInverse => {
            if idx + 1 < len {
                let (hi, lo) = if fmt == DisplayFormat::Float {
                    (rows[idx].value, rows[idx + 1].value)
                } else {
                    (rows[idx + 1].value, rows[idx].value)
                };
                Some(TrendValue::F32Bits(hi as u32 * 0x1_0000 + lo as u32))
            } else {
                None
            }
        },
        DisplayFormat::Double | DisplayFormat::DoubleInverse => {
            if idx + 3 < len {
                let (w0, w1, w2, w3) = if fmt == DisplayFormat::Double {
                    (rows[idx].value, rows[idx + 1].value, rows[idx + 2].value, rows[idx + 3].value)
                } else {
                    (rows[idx + 3].value, rows[idx + 2].value, rows[idx + 1].value, rows[idx].value)
                };
                Some(
                    TrendValue::F64Bits(
                        w0 as u64 * 0x1_0000_0000_0000 + w1 as u64 * 0x1_0000_0000 + w2 as u64 * 0x1_0000
                            + w3 as u64,
                    ),
                )
            } else {
                None
            }
        },
    }
}

/// The value of the first row with `address`, in format `fmt`.
pub fn numeric_display_for_address(rows: &[ModbusRow], address: u16, fmt: DisplayFormat, fc: FunctionCode) -> (r: Option<TrendValue>)
    ensures
        r == value_for_address(rows@, address, fmt, fc),
{
    let mut i: usize = 0;
    while i < rows.len()
        invariant
            i <= rows@.len(),
            forall|j: int| 0 <= j < i ==> rows@[j].address != address,
        decreases rows@.len() - i,
    {
        if rows[i].address == address {
            proof {
                assert(first_row_with(rows@, address, i as int));
                let c = choose|k: int| first_row_with(rows@, address, k);
                lemma_first_row_unique(rows@, address, c, i as int);
            }
            return register_value_at(rows, i, fmt, fc);
        }
        i = i + 1;
    }
    None
}

// ── Text search ─────────────────────────────────────────────────────────────

/// `needle` occurs in `hay` (the empty needle occurs everywhere).
pub open spec fn seq_contains(hay: Seq<char>, needle: Seq<char>) -> bool {
    exists|i: int| 0 <= i <= hay.len() - needle.len() && #[trigger] hay.subrange(i, i + needle.len()) == needle
}

fn matches_at(h: &Vec<char>, n: &Vec<char>, i: usize) -> (r: bool)
    requires
        i + n@.len() <= h@.len(),
    ensures
        r == (h@.subrange(i as int, i + n@.len()) == n@),
{
    let hl = h.len();
    let mut j: usize = 0;
    while j < n.len()
        invariant
            hl == h@.len(),
            i + n@.len() <= h@.len(),
            j <= n@.len(),
            forall|k: int| 0 <= k < j ==> h@[i + k] == n@[k],
        decreases n@.len() - j,
    {
        if h[i + j] != n[j] {
            assert(h@.subrange(i as int, i + n@.len())[j as int] != n@[j as int]);
            return false;
        }
        j = j + 1;
    }
    assert(h@.subrange(i as int, i + n@.len()) =~= n@);
    true
}

/// Whether `needle` occurs in `hay`, as `str::contains` answers.
pub fn text_contains(hay: &str, needle: &str) -> (r: bool)
    ensures
        r == seq_contains(hay@, needle@),
{
    let h = chars_of(hay);
    let n = chars_of(needle);
    if n.len() > h.len() {
        return false;
    }
    let limit = h.len() - n.len();
    let mut i: usize = 0;
    loop
        invariant
            h@ == hay@,
            n@ == needle@,
            n@.len() <= h@.len(),
            limit == h@.len() - n@.len(),
            i <= limit,
            forall|k: int| 0 <= k < i ==> #[trigger] h@.subrange(k, k + n@.len()) != n@,
        decreases limit - i,
    {
        if matches_at(&h, &n, i) {
            return true;
        }
        if i == limit {
            return false;
        }
        i = i + 1;
    }
}

// ── Message visibility ──────────────────────────────────────────────────────

/// A message is listed when it belongs to the focused topic (if any) and,
/// when a search is typed, its topic or payload contains the lower-cased
/// query after lower-casing.
pub open spec fn message_visible(m: Message, topic: Seq<char>, query: Seq<char>) -> bool {
    &&& (topic.len() == 0 || m.topic@ == topic)
    &&& (query.len() == 0 || seq_contains(lowercase(m.topic@), query) || seq_contains(lowercase(m.payload@), query))
}

/// The listed messages, oldest first.
pub open spec fn visible_list(msgs: Seq<Message>, topic: Seq<char>, query: Seq<char>) -> Seq<Message>
    decreases msgs.len(),
{
    if msgs.len() == 0 {
        Seq::empty()
    } else {
        let rest = visible_list(msgs.drop_last(), topic, query);
        if message_visible(msgs.last(), topic, query) {
            rest.push(msgs.last())
        } else {
            rest
        }
    }
}

/// Every listed message is a received one that passes the topic filter and
/// the search; every received message that does, is listed.
proof fn lemma_visible_list_members(msgs: Seq<Message>, topic: Seq<char>, query: Seq<char>)
    ensures
        forall|m: Message| visible_list(msgs, topic, query).contains(m)
            <==> msgs.contains(m) && message_visible(m, topic, query),
    decreases msgs.len(),
{
    if msgs.len() > 0 {
        lemma_visible_list_members(msgs.drop_last(), topic, query);
        let d = msgs.drop_last();
        let x = msgs.last();
        let rest = visible_list(d, topic, query);
        assert forall|m: Message| visible_list(msgs, topic, query).contains(m)
            <==> msgs.contains(m) && message_visible(m, topic, query) by {
            assert(msgs.contains(m) <==> d.contains(m) || m == x) by {
                if msgs.contains(m) {
                    let k = choose|k: int| 0 <= k < msgs.len() && msgs[k] == m;
                    if k < msgs.len() - 1 {
                        assert(d[k] == m);
                    }
                }
                if d.contains(m) {
                    let k = choose|k: int| 0 <= k < d.len() && d[k] == m;
                    assert(msgs[k] == m);
                }
                if m == x {
                    assert(msgs[msgs.len() - 1] == m);
                }
            }
            assert(rest.push(x).contains(m) <==> rest.contains(m) || m == x) by {
                if rest.push(x).contains(m) {
                    let k = choose|k: int| 0 <= k < rest.push(x).len() && rest.push(x)[k] == m;
                    if k < rest.len() {
                        assert(rest[k] == m);
                    }
                }
                if rest.contains(m) {
                    let k = choose|k: int| 0 <= k < rest.len() && rest[k] == m;
                    assert(rest.push(x)[k] == m);
                }
                if m == x {
                    assert(rest.push(x)[rest.len() as int] == m);
                }
            }
        }
    }
}

/// The search finds a message by its payload as well as by its topic, in
/// any letter case: a received message on the focused topic (or on any
/// topic when none is focused) whose lower-cased topic or payload holds the
/// lower-cased search text is listed; a listed message is always one of
/// these.
pub proof fn lemma_search_finds_topic_or_payload(msgs: Seq<Message>, m: Message, topic: Seq<char>, query: Seq<char>)
    requires
        msgs.contains(m),
        topic.len() == 0 || m.topic@ == topic,
        query.len() == 0 || seq_contains(lowercase(m.topic@), query) || seq_contains(lowercase(m.payload@), query),
    ensures
        visible_list(msgs, topic, query).contains(m),
{
    lemma_visible_list_members(msgs, topic, query);
}

/// A listed message is a received one on the focused topic (if any) whose
/// lower-cased topic or payload holds the search text.
pub proof fn lemma_listed_messages_match(msgs: Seq<Message>, m: Message, topic: Seq<char>, query: Seq<char>)
    requires
        visible_list(msgs, topic, query).contains(m),
    ensures
        msgs.contains(m),
        topic.len() == 0 || m.topic@ == topic,
        query.len() == 0 || seq_contains(lowercase(m.topic@), query) || seq_contains(lowercase(m.payload@), query),
{
    lemma_visible_list_members(msgs, topic, query);
}

/// The messages of every topic but `name`, in order.
pub open spec fn without_topic(msgs: Seq<Message>, name: Seq<char>) -> Seq<Message>
    decreases msgs.len(),
{
    if msgs.len() == 0 {
        Seq::empty()
    } else {
        let rest = without_topic(msgs.drop_last(), name);
        if msgs.last().topic@ != name {
            rest.push(msgs.last())
        } else {
            rest
        }
    }
}

/// The strings other than `name`, in order.
pub open spec fn without_string(v: Seq<String>, name: Seq<char>) -> Seq<String>
    decreases v.len(),
{
    if v.len() == 0 {
        Seq::empty()
    } else {
        let rest = without_string(v.drop_last(), name);
        if v.last()@ != name {
            rest.push(v.last())
        } else {
            rest
        }
    }
}

/// The number of messages of topic `name`.
pub open spec fn count_topic(msgs: Seq<Message>, name: Seq<char>) -> nat
    decreases msgs.len(),
{
    if msgs.len() == 0 {
        0
    } else {
        count_topic(msgs.drop_last(), name) + if msgs.last().topic@ == name { 1nat } else { 0nat }
    }
}

/// A copy of a message, equal to it.
pub fn clone_message(m: &Message) -> (r: Message)
    ensures
        r == *m,
{
    Message {
        topic: m.topic.clone(),
        payload: m.payload.clone(),
        timestamp: m.timestamp.clone(),
        qos: m.qos,
        retained: m.retained,
    }
}

/// The tps history after one more second: the newest rate appended and
/// only the last 60 kept.
pub open spec fn history_after(h: Seq<u64>, rate: u64) -> Seq<u64> {
    if h.push(rate).len() > 60 {
        h.push(rate).drop_first()
    } else {
        h.push(rate)
    }
}

/// A topic at the end of a second: its rate is the counted messages.
pub open spec fn topic_after_second(t: TopicItem) -> TopicItem {
    TopicItem { tps: t.tps_counter, tps_counter: 0, tps_history: t.tps_history, ..t }
}

/// A topic that received one more message.
pub open spec fn topic_bumped(t: TopicItem) -> TopicItem {
    TopicItem { msg_count: (t.msg_count + 1) as u64, tps_counter: (t.tps_counter + 1) as u64, ..t }
}

/// The message cursor after moving up in a list of `count` messages: from
/// following the newest onto the newest, otherwise one up (stopping at the
/// oldest).
pub open spec fn cursor_after_prev(c: Option<usize>, count: nat) -> Option<usize> {
    if count == 0 {
        c
    } else {
        match c {
            None => Some((count - 1) as usize),
            Some(i) => Some(if i == 0 { 0usize } else { (i - 1) as usize }),
        }
    }
}

/// The message cursor after moving down: one down, and past the newest back
/// to following new messages.
pub open spec fn cursor_after_next(c: Option<usize>, count: nat) -> Option<usize> {
    if count == 0 {
        c
    } else {
        match c {
            None => None,
            Some(i) => if i + 1 >= count { None } else { Some((i + 1) as usize) },
        }
    }
}

/// The selection after the topic at `idx` is removed from a list that then
/// has `len` topics.
pub open spec fn selection_after_delete(idx: nat, len: nat) -> Option<usize> {
    if len == 0 {
        None
    } else if idx < len {
        Some(idx as usize)
    } else {
        Some((len - 1) as usize)
    }
}

// ── Application state ───────────────────────────────────────────────────────

#[derive(Debug)]
pub struct AppState {
    pub connected: bool,
    pub paused: bool,
    pub search_mode: bool,
    pub search_query: String,
    pub subscribe_mode: bool,
    pub subscribe_input: String,
    pub publish_mode: bool,
    pub publish_input: String,
    pub broker: String,
    /// None = show all topics; Some(i) = filter by topics[i]
    pub selected_topic_idx: Option<usize>,
    pub topics: Vec<TopicItem>,
    pub messages: Vec<Message>,
    /// None = auto-follow newest; Some(i) = cursor at index i in filtered list
    pub msg_cursor: Option<usize>,
    /// Yank (copy selection) mode — only active when paused
    pub yank_mode: bool,
    /// Selection anchor (byte offset in current msg payload)
    pub yank_start: usize,
    /// Selection cursor (byte offset; selection = [min..max])
    pub yank_cursor: usize,
    /// Show "back to connect?" confirmation dialog
    pub confirm_back: bool,
    /// Last error message for display in the error bar
    pub last_error: Option<String>,
    /// Protocol version label shown in status bar
    pub mqtt_version: &'static str,
    /// 100 ms tick accumulator; TPS is flushed every 10 ticks
    pub tick_count: u8,
    /// Topics we have subscribed to (for save/restore and delete)
    pub subscribed_topics: Vec<String>,
    /// Auto-select first topic when it appears (set when connecting with saved topics)
    pub auto_select_first: bool,
    /// Which protocol source is active
    pub source_kind: SourceKind,
    /// Polled register rows from Modbus source
    pub modbus_rows: Vec<ModbusRow>,
    /// Query settings form for Modbus monitor
    pub modbus_query: ModbusQueryForm,
    /// Scroll offset for the Modbus data table
    pub modbus_table_offset: usize,
    /// Tracked Modbus points rendered in the trend chart
    pub modbus_trend_points: Vec<ModbusTrendPoint>,
    /// Selected tracked point index
    pub modbus_trend_selected: usize,
    /// Add-point input mode for the trend chart
    pub modbus_add_point_mode: bool,
    /// Address input buffer for add-point mode
    pub modbus_add_point_input: String,
    /// Lines received from / sent to the serial port (capped at 2000)
    pub serial_lines: Vec<SerialEntry>,
    /// Scroll offset for the serial monitor view
    pub serial_line_offset: usize,
    /// Write (send) mode active in serial monitor
    pub serial_write_mode: bool,
    /// Input buffer for serial write mode
    pub serial_write_input: String,
    /// Display format for received serial data
    pub serial_display_format: SerialDisplayFormat,
    /// Pause auto-scroll in serial monitor (new lines still buffered)
    pub serial_paused: bool,
    /// Latest values for monitored OPC UA nodes.
    pub opcua_rows: Vec<OpcUaRow>,
    /// Node IDs being monitored by OPC UA source.
    pub opcua_node_ids: Vec<String>,
    /// Scroll offset for OPC UA monitor
    pub opcua_offset: usize,
    /// Add-node input mode for OPC UA monitor.
    pub opcua_add_node_mode: bool,
    /// Input buffer for add-node mode.
    pub opcua_add_node_input: String,
    /// Delete-node input mode for OPC UA monitor.
    pub opcua_delete_node_mode: bool,
    /// Input buffer for delete-node mode.
    pub opcua_delete_node_input: String,
    /// Local time ("hh:mm:ss") of the last successful OPC UA poll.
    pub opcua_last_refresh: Option<String>,
}

impl AppState {
    /// The state before anything is connected.
    pub open spec fn is_initial(&self) -> bool {
        &&& !self.connected && !self.paused && !self.search_mode && self.search_query@.len() == 0
        &&& !self.subscribe_mode && self.subscribe_input@.len() == 0
        &&& !self.publish_mode && self.publish_input@.len() == 0 && self.broker@.len() == 0
        &&& self.selected_topic_idx is None && self.topics@.len() == 0 && self.messages@.len() == 0
        &&& self.msg_cursor is None && !self.yank_mode && self.yank_start == 0 && self.yank_cursor == 0
        &&& !self.confirm_back && self.last_error is None && self.mqtt_version@ == "MQTT 3.1.1"@
        &&& self.tick_count == 0 && self.subscribed_topics@.len() == 0 && !self.auto_select_first
        &&& self.source_kind == SourceKind::Mqtt && self.modbus_rows@.len() == 0
        &&& self.modbus_query.fc_idx == 3 && self.modbus_query.start_input@ == "0"@
        &&& self.modbus_query.qty_input@ == "10"@ && self.modbus_query.format_idx == 0
        &&& self.modbus_query.active == 0 && !self.modbus_query.editing
        &&& self.modbus_table_offset == 0 && self.modbus_trend_points@.len() == 0
        &&& self.modbus_trend_selected == 0 && !self.modbus_add_point_mode
        &&& self.modbus_add_point_input@.len() == 0 && self.serial_lines@.len() == 0
        &&& self.serial_line_offset == 0 && !self.serial_write_mode && self.serial_write_input@.len() == 0
        &&& self.serial_display_format == SerialDisplayFormat::Ascii && !self.serial_paused
        &&& self.opcua_rows@.len() == 0 && self.opcua_node_ids@.len() == 0 && self.opcua_offset == 0
        &&& !self.opcua_add_node_mode && self.opcua_add_node_input@.len() == 0
        &&& !self.opcua_delete_node_mode && self.opcua_delete_node_input@.len() == 0
        &&& self.opcua_last_refresh is None
    }

    pub fn new_state() -> (s: Self)
        ensures
            s.is_initial(),
    {
        AppState {
            connected: false,
            paused: false,
            search_mode: false,
            search_query: String::new(),
            subscribe_mode: false,
            subscribe_input: String::new(),
            publish_mode: false,
            publish_input: String::new(),
            broker: String::new(),
            selected_topic_idx: None,
            topics: Vec::new(),
            messages: Vec::new(),
            msg_cursor: None,
            yank_mode: false,
            yank_start: 0,
            yank_cursor: 0,
            confirm_back: false,
            last_error: None,
            mqtt_version: "MQTT 3.1.1",
            tick_count: 0,
            subscribed_topics: Vec::new(),
            auto_select_first: false,
            source_kind: SourceKind::Mqtt,
            modbus_rows: Vec::new(),
            modbus_query: ModbusQueryForm::default_form(),
            modbus_table_offset: 0,
            modbus_trend_points: Vec::new(),
            modbus_trend_selected: 0,
            modbus_add_point_mode: false,
            modbus_add_point_input: String::new(),
            serial_lines: Vec::new(),
            serial_line_offset: 0,
            serial_write_mode: false,
            serial_write_input: String::new(),
            serial_display_format: SerialDisplayFormat::Ascii,
            serial_paused: false,
            opcua_rows: Vec::new(),
            opcua_node_ids: Vec::new(),
            opcua_offset: 0,
            opcua_add_node_mode: false,
            opcua_add_node_input: String::new(),
            opcua_delete_node_mode: false,
            opcua_delete_node_input: String::new(),
            opcua_last_refresh: None,
        }
    }

    // ── Search ──────────────────────────────────────────────────────────────

    pub fn enter_search(&mut self)
        ensures
            *final(self) == (AppState { search_mode: true, ..*old(self) }),
    {
        self.search_mode = true;
    }

    /// Leaves search mode, dropping the query when `clear` is set.
    pub fn exit_search(&mut self, clear: bool)
        ensures
            clear ==> final(self).search_query@ == Seq::<char>::empty(),
            !clear ==> final(self).search_query == old(self).search_query,
            *final(self) == (AppState { search_mode: false, search_query: final(self).search_query, ..*old(self) }),
    {
        self.search_mode = false;
        if clear {
            self.search_query = String::new();
        }
    }

    pub fn push_search(&mut self, c: char)
        ensures
            final(self).search_query@ == old(self).search_query@.push(c),
            *final(self) == (AppState { search_query: final(self).search_query, ..*old(self) }),
    {
        crate::text::string_push(&mut self.search_query, c);
    }

    pub fn backspace_search(&mut self)
        ensures
            final(self).search_query@ == if old(self).search_query@.len() == 0 {
                old(self).search_query@
            } else {
                old(self).search_query@.drop_last()
            },
            *final(self) == (AppState { search_query: final(self).search_query, ..*old(self) }),
    {
        crate::text::string_pop(&mut self.search_query);
    }

    /// Pauses or resumes the message stream.
    pub fn toggle_pause(&mut self)
        ensures
            *final(self) == (AppState { paused: !old(self).paused, ..*old(self) }),
    {
        self.paused = !self.paused;
    }

    // ── Topic navigation ────────────────────────────────────────────────────

    #[verifier::rlimit(40)]
    pub fn select_topic_next(&mut self)
        ensures
            old(self).topics@.len() == 0 ==> *final(self) == *old(self),
            old(self).topics@.len() > 0 ==> *final(self) == (AppState {
                selected_topic_idx: Some(match old(self).selected_topic_idx {
                    None => 0usize,
                    Some(i) => if i + 1 < old(self).topics@.len() { (i + 1) as usize } else { (old(self).topics@.len() - 1) as usize },
                }),
                msg_cursor: None,
                ..*old(self)
            }),
    {
        if self.topics.len() == 0 {
            return;
        }
        let last = self.topics.len() - 1;
        self.selected_topic_idx = Some(match self.selected_topic_idx {
            None => 0,
            Some(i) => if i < last { i + 1 } else { last },
        });
        self.msg_cursor = None;
    }

    #[verifier::rlimit(40)]
    pub fn select_topic_prev(&mut self)
        ensures
            *final(self) == (AppState {
                selected_topic_idx: match old(self).selected_topic_idx {
                    None => None,
                    Some(i) => if i == 0 { None } else { Some((i - 1) as usize) },
                },
                msg_cursor: None,
                ..*old(self)
            }),
    {
        self.selected_topic_idx = match self.selected_topic_idx {
            None => None,
            Some(i) => if i == 0 { None } else { Some(i - 1) },
        };
        self.msg_cursor = None;
    }

    #[verifier::rlimit(40)]
    pub fn clear_topic_filter(&mut self)
        ensures
            *final(self) == (AppState { selected_topic_idx: None, msg_cursor: None, ..*old(self) }),
    {
        self.selected_topic_idx = None;
        self.msg_cursor = None;
    }

    /// The focused topic, if the selection points at one.
    pub open spec fn selected_topic(&self) -> Option<TopicItem> {
        match self.selected_topic_idx {
            Some(i) => if i < self.topics@.len() { Some(self.topics@[i as int]) } else { None },
            None => None,
        }
    }

    /// The name of the focused topic, or "" for all topics.
    pub open spec fn topic_filter(&self) -> Seq<char> {
        match self.selected_topic() {
            Some(t) => t.name@,
            None => Seq::empty(),
        }
    }

    pub fn selected_topic_name(&self) -> (r: Option<&str>)
        ensures
            match self.selected_topic() {
                Some(t) => r matches Some(s) && s@ == t.name@,
                None => r is None,
            },
    {
        match self.selected_topic_idx {
            Some(i) => if i < self.topics.len() { Some(self.topics[i].name.as_str()) } else { None },
            None => None,
        }
    }

    // ── Message filtering ───────────────────────────────────────────────────

    /// The messages listed under the current topic filter and search.
    pub open spec fn visible_messages(&self) -> Seq<Message> {
        visible_list(self.messages@, self.topic_filter(), lowercase(self.search_query@))
    }

    /// The messages listed under the current topic filter and search, oldest first.
    pub fn filtered_messages(&self) -> (r: Vec<&Message>)
        ensures
            r@.len() == self.visible_messages().len(),
            forall|k: int| 0 <= k < r@.len() ==> *r@[k] == self.visible_messages()[k],
    {
        let q = to_lowercase(self.search_query.as_str());
        proof {
            reveal_strlit("");
        }
        let topic: &str = match self.selected_topic_name() {
            Some(t) => t,
            None => "",
        };
        let mut r: Vec<&Message> = Vec::new();
        let mut i: usize = 0;
        while i < self.messages.len()
            invariant
                i <= self.messages@.len(),
                q@ == lowercase(self.search_query@),
                topic@ == self.topic_filter(),
                r@.len() == visible_list(self.messages@.take(i as int), topic@, q@).len(),
                forall|k: int| 0 <= k < r@.len() ==> *r@[k] == visible_list(self.messages@.take(i as int), topic@, q@)[k],
            decreases self.messages@.len() - i,
        {
            let m = &self.messages[i];
            assert(self.messages@.take(i + 1).drop_last() =~= self.messages@.take(i as int));
            assert(self.messages@.take(i + 1).last() == *m);
            let topic_ok = topic.is_empty() || crate::text::str_equal(m.topic.as_str(), topic);
            let query_ok = q.as_str().is_empty() || text_contains(to_lowercase(m.topic.as_str()).as_str(), q.as_str())
                || text_contains(to_lowercase(m.payload.as_str()).as_str(), q.as_str());
            if topic_ok && query_ok {
                r.push(m);
            }
            i = i + 1;
        }
        assert(self.messages@.take(self.messages@.len() as int) =~= self.messages@);
        r
    }

    // ── Message navigation ──────────────────────────────────────────────────

    /// The number of listed messages.
    pub fn visible_count(&self) -> (n: usize)
        ensures
            n == self.visible_messages().len(),
    {
        self.filtered_messages().len()
    }

    #[verifier::rlimit(40)]
    pub fn select_msg_prev(&mut self)
        ensures
            *final(self) == (AppState {
                msg_cursor: cursor_after_prev(old(self).msg_cursor, old(self).visible_messages().len()),
                ..*old(self)
            }),
    {
        let count = self.visible_count();
        if count == 0 {
            return;
        }
        self.msg_cursor = Some(match self.msg_cursor {
            None => count - 1,
            Some(i) => if i == 0 { 0 } else { i - 1 },
        });
    }

    /// Moves the cursor to the next message; past the newest it follows new
    /// messages again.
    #[verifier::rlimit(40)]
    pub fn select_msg_next(&mut self)
        ensures
            *final(self) == (AppState {
                msg_cursor: cursor_after_next(old(self).msg_cursor, old(self).visible_messages().len()),
                ..*old(self)
            }),
    {
        let count = self.visible_count();
        if count == 0 {
            return;
        }
        match self.msg_cursor {
            None => {},
            Some(i) => {
                if i >= count - 1 {
                    self.msg_cursor = None;
                } else {
                    self.msg_cursor = Some(i + 1);
                }
            },
        }
    }

    /// The message under the cursor.
    pub open spec fn selected_message_spec(&self) -> Option<Message> {
        match self.msg_cursor {
            Some(i) => if i < self.visible_messages().len() { Some(self.visible_messages()[i as int]) } else { None },
            None => None,
        }
    }

    pub fn selected_message(&self) -> (r: Option<&Message>)
        ensures
            match self.selected_message_spec() {
                Some(m) => r matches Some(x) && *x == m,
                None => r is None,
            },
    {
        let idx = match self.msg_cursor {
            Some(i) => i,
            None => return None,
        };
        let list = self.filtered_messages();
        if idx < list.len() {
            Some(list[idx])
        } else {
            None
        }
    }

    // ── Yank mode ───────────────────────────────────────────────────────────

    /// Enters yank mode on the selected message (the newest listed one when
    /// the cursor follows new messages); does nothing when none is listed.
    #[verifier::rlimit(40)]
    pub fn enter_yank_mode(&mut self)
        ensures
            (old(self).msg_cursor is None && old(self).visible_messages().len() == 0) ==> *final(self) == *old(self),
            !(old(self).msg_cursor is None && old(self).visible_messages().len() == 0) ==> *final(self) == (AppState {
                msg_cursor: match old(self).msg_cursor {
                    Some(i) => Some(i),
                    None => Some((old(self).visible_messages().len() - 1) as usize),
                },
                yank_mode: true,
                yank_start: 0,
                yank_cursor: 0,
                ..*old(self)
            }),
    {
        if self.msg_cursor.is_none() {
            let count = self.visible_count();
            if count > 0 {
                self.msg_cursor = Some(count - 1);
            } else {
                return;
            }
        }
        self.yank_mode = true;
        self.yank_start = 0;
        self.yank_cursor = 0;
    }

    pub fn exit_yank_mode(&mut self)
        ensures
            *final(self) == (AppState { yank_mode: false, yank_start: 0, yank_cursor: 0, ..*old(self) }),
    {
        self.yank_mode = false;
        self.yank_start = 0;
        self.yank_cursor = 0;
    }

    /// Moves the yank cursor back to the start of the previous character of
    /// the selected message's payload.
    #[verifier::rlimit(40)]
    pub fn yank_left(&mut self)
        requires
            old(self).selected_message_spec() matches Some(m) ==> old(self).yank_cursor == 0 || is_char_boundary(
                encode_utf8(m.payload@),
                old(self).yank_cursor as int,
            ),
        ensures
            match old(self).selected_message_spec() {
                Some(m) => if old(self).yank_cursor == 0 {
                    *final(self) == *old(self)
                } else {
                    &&& *final(self) == (AppState { yank_cursor: final(self).yank_cursor, ..*old(self) })
                    &&& final(self).yank_cursor < old(self).yank_cursor
                    &&& is_char_boundary(encode_utf8(m.payload@), final(self).yank_cursor as int)
                    &&& forall|k: int| final(self).yank_cursor < k < old(self).yank_cursor ==> !is_char_boundary(encode_utf8(m.payload@), k)
                },
                None => *final(self) == *old(self),
            },
    {
        if self.yank_cursor == 0 {
            return;
        }
        let sel = self.selected_message();
        match sel {
            None => {},
            Some(msg) => {
                let bytes = utf8_bytes(msg.payload.as_str());
                let ghost b = encode_utf8(msg.payload@);
                proof {
                    vstd::utf8::encode_utf8_valid_utf8(msg.payload@);
                    vstd::utf8::is_char_boundary_start_end_of_seq(b);
                }
                let cursor = self.yank_cursor;
                assert(cursor <= b.len()) by {
                    assert(is_char_boundary(b, cursor as int));
                }
                let mut j: usize = cursor - 1;
                while j > 0 && bytes[j] >= 0x80 && bytes[j] <= 0xbf
                    invariant
                        bytes@ == b,
                        valid_utf8(b),
                        0 <= j < cursor <= b.len(),
                        forall|k: int| j < k < cursor ==> !is_char_boundary(b, k),
                    decreases j,
                {
                    proof {
                        vstd::utf8::is_char_boundary_iff_not_is_continuation_byte(b, j as int);
                    }
                    j = j - 1;
                }
                proof {
                    if j > 0 {
                        vstd::utf8::is_char_boundary_iff_not_is_continuation_byte(b, j as int);
                    }
                }
                self.yank_cursor = j;
            },
        }
    }

    /// Moves the yank cursor past the next character of the selected
    /// message's payload, up to its end.
    #[verifier::rlimit(40)]
    pub fn yank_right(&mut self)
        requires
            old(self).selected_message_spec() matches Some(m) ==> (old(self).yank_cursor >= encode_utf8(m.payload@).len() || is_char_boundary(
                encode_utf8(m.payload@),
                old(self).yank_cursor as int,
            )),
        ensures
            match old(self).selected_message_spec() {
                Some(m) => if old(self).yank_cursor >= encode_utf8(m.payload@).len() {
                    *final(self) == *old(self)
                } else {
                    &&& *final(self) == (AppState { yank_cursor: final(self).yank_cursor, ..*old(self) })
                    &&& old(self).yank_cursor < final(self).yank_cursor <= encode_utf8(m.payload@).len()
                    &&& is_char_boundary(encode_utf8(m.payload@), final(self).yank_cursor as int)
                    &&& forall|k: int| old(self).yank_cursor < k < final(self).yank_cursor ==> !is_char_boundary(encode_utf8(m.payload@), k)
                },
                None => *final(self) == *old(self),
            },
    {
        let sel = self.selected_message();
        match sel {
            None => {},
            Some(msg) => {
                let bytes = utf8_bytes(msg.payload.as_str());
                let ghost b = encode_utf8(msg.payload@);
                proof {
                    vstd::utf8::encode_utf8_valid_utf8(msg.payload@);
                    vstd::utf8::is_char_boundary_start_end_of_seq(b);
                }
                let len = bytes.len();
                let cursor = self.yank_cursor;
                if cursor >= len {
                    return;
                }
                let mut k: usize = cursor + 1;
                while k < len && bytes[k] >= 0x80 && bytes[k] <= 0xbf
                    invariant
                        bytes@ == b,
                        len == b.len(),
                        valid_utf8(b),
                        cursor < k <= len,
                        forall|x: int| cursor < x < k ==> !is_char_boundary(b, x),
                    decreases len - k,
                {
                    proof {
                        vstd::utf8::is_char_boundary_iff_not_is_continuation_byte(b, k as int);
                    }
                    k = k + 1;
                }
                proof {
                    if k < len {
                        vstd::utf8::is_char_boundary_iff_not_is_continuation_byte(b, k as int);
                    }
                }
                self.yank_cursor = k;
            },
        }
    }

    /// The selected part of the selected message's payload (all of it when
    /// nothing is selected), for the clipboard.
    pub fn yank_text(&self) -> (r: Option<String>)
        requires
            self.selected_message_spec() matches Some(m) ==> ({
                let b = encode_utf8(m.payload@);
                let lo = if self.yank_start < self.yank_cursor { self.yank_start } else { self.yank_cursor };
                let hi = if self.yank_start < self.yank_cursor { self.yank_cursor } else { self.yank_start };
                &&& (lo >= b.len() || is_char_boundary(b, lo as int))
                &&& (hi >= b.len() || is_char_boundary(b, hi as int))
            }),
        ensures
            match self.selected_message_spec() {
                None => r is None,
                Some(m) => r matches Some(t) && ({
                    let b = encode_utf8(m.payload@);
                    let lo = if self.yank_start < self.yank_cursor { self.yank_start } else { self.yank_cursor };
                    let hi = if self.yank_start < self.yank_cursor { self.yank_cursor } else { self.yank_start };
                    let start = if lo < b.len() { lo as int } else { b.len() as int };
                    let end = if hi < b.len() { hi as int } else { b.len() as int };
                    if start == end {
                        t@ == m.payload@
                    } else {
                        encode_utf8(t@) == b.subrange(start, end)
                    }
                }),
            },
    {
        let msg = match self.selected_message() {
            Some(m) => m,
            None => return None,
        };
        let ghost b = encode_utf8(msg.payload@);
        let bytes = utf8_bytes(msg.payload.as_str());
        let len = bytes.len();
        let lo = if self.yank_start < self.yank_cursor { self.yank_start } else { self.yank_cursor };
        let hi = if self.yank_start < self.yank_cursor { self.yank_cursor } else { self.yank_start };
        let start = if lo < len { lo } else { len };
        let end = if hi < len { hi } else { len };
        if start == end {
            return Some(msg.payload.clone());
        }
        proof {
            vstd::utf8::encode_utf8_valid_utf8(msg.payload@);
            vstd::utf8::is_char_boundary_start_end_of_seq(b);
            assert(is_char_boundary(b, end as int));
            assert(is_char_boundary(b, start as int));
            vstd::utf8::valid_utf8_split(b, end as int);
            vstd::utf8::is_char_boundary_iff_not_is_continuation_byte(b, start as int);
            let prefix = b.subrange(0, end as int);
            assert(prefix[start as int] == b[start as int]);
            vstd::utf8::is_char_boundary_iff_not_is_continuation_byte(prefix, start as int);
        }
        let (prefix, _) = msg.payload.as_str().split_at(end);
        let (_, part) = prefix.split_at(start);
        assert(part.spec_bytes() =~= b.subrange(start as int, end as int));
        Some(part.to_owned())
    }
}

impl Default for AppState {
    fn default() -> (s: Self)
        ensures
            s.is_initial(),
    {
        Self::new_state()
    }
}

} // verus!
