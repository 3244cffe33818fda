//! Settings kept between runs: the `[mqtt]`, `[modbus]`, `[opcua]`,
//! `[iec104]` and `[serial]` sections of the configuration file. Reading and
//! writing the file is the application's; the library holds the values and
//! the rules for updating them. Passwords are never kept.

use vstd::prelude::*;

use crate::mode::MqttVersion;

verus! {

/// Persisted settings for the MQTT source.
#[derive(Debug)]
pub struct MqttConfig {
    pub host: String,
    pub port: u16,
    pub username: String,
    /// "v311" | "v5"
    pub version: String,
    pub topics: Vec<String>,
}

impl MqttConfig {
    /// localhost:1883, no user, MQTT 3.1.1, no topics.
    pub fn default_config() -> (c: Self)
        ensures
            c.host@ == "localhost"@,
            c.port == 1883,
            c.username@ == Seq::<char>::empty(),
            c.version@ == "v311"@,
            c.topics@.len() == 0,
    {
        MqttConfig {
            host: "localhost".to_owned(),
            port: 1883,
            username: String::new(),
            version: "v311".to_owned(),
            topics: Vec::new(),
        }
    }
}

impl Default for MqttConfig {
    fn default() -> (c: Self)
        ensures
            c.host@ == "localhost"@,
            c.port == 1883,
            c.username@ == Seq::<char>::empty(),
            c.version@ == "v311"@,
            c.topics@.len() == 0,
    {
        Self::default_config()
    }
}

/// Persisted settings for the Modbus TCP source.
#[derive(Debug)]
pub struct ModbusPersistedConfig {
    pub host: String,
    pub port: u16,
    pub unit_id: u8,
    pub poll_interval_ms: u64,
}

impl ModbusPersistedConfig {
    /// localhost:502, unit 1, polled every second.
    pub fn default_config() -> (c: Self)
        ensures
            c.host@ == "localhost"@,
            c.port == 502,
            c.unit_id == 1,
            c.poll_interval_ms == 1000,
    {
        ModbusPersistedConfig {
            host: "localhost".to_owned(),
            port: 502,
            unit_id: 1,
            poll_interval_ms: 1000,
        }
    }
}

impl Default for ModbusPersistedConfig {
    fn default() -> (c: Self)
        ensures
            c.host@ == "localhost"@,
            c.port == 502,
            c.unit_id == 1,
            c.poll_interval_ms == 1000,
    {
        Self::default_config()
    }
}

/// Persisted settings for the OPC UA source.
#[derive(Debug)]
pub struct OpcUaPersistedConfig {
    pub endpoint_url: String,
    pub node_ids: Vec<String>,
    pub poll_interval_ms: u64,
    pub username: String,
}

/// Persisted settings for the IEC 104 source.
#[derive(Debug)]
pub struct Iec104PersistedConfig {
    pub host: String,
    pub port: u16,
    pub common_address: u16,
    pub originator_address: u8,
}

/// Persisted settings for the serial source.
#[derive(Debug)]
pub struct SerialPersistedConfig {
    pub port: String,
    pub baud_rate: u32,
    /// 5, 6, 7 or 8
    pub data_bits: u8,
    /// "None", "Odd" or "Even"
    pub parity: String,
    /// 1 or 2
    pub stop_bits: u8,
}

pub open spec fn same_opcua_section(a: OpcUaPersistedConfig, b: OpcUaPersistedConfig) -> bool {
    &&& a.endpoint_url@ == b.endpoint_url@
    &&& crate::text::strings(a.node_ids@) == crate::text::strings(b.node_ids@)
    &&& a.poll_interval_ms == b.poll_interval_ms
    &&& a.username@ == b.username@
}

pub open spec fn same_iec104_section(a: Iec104PersistedConfig, b: Iec104PersistedConfig) -> bool {
    &&& a.host@ == b.host@
    &&& a.port == b.port
    &&& a.common_address == b.common_address
    &&& a.originator_address == b.originator_address
}

pub open spec fn same_serial_section(a: SerialPersistedConfig, b: SerialPersistedConfig) -> bool {
    &&& a.port@ == b.port@
    &&& a.baud_rate == b.baud_rate
    &&& a.data_bits == b.data_bits
    &&& a.parity@ == b.parity@
    &&& a.stop_bits == b.stop_bits
}

impl OpcUaPersistedConfig {
    /// opc.tcp://localhost:4840, no node, polled every second, anonymous.
    pub fn default_config() -> (c: Self)
        ensures
            c.endpoint_url@ == "opc.tcp://localhost:4840"@,
            c.node_ids@.len() == 0,
            c.poll_interval_ms == 1000,
            c.username@.len() == 0,
    {
        OpcUaPersistedConfig {
            endpoint_url: "opc.tcp://localhost:4840".to_owned(),
            node_ids: Vec::new(),
            poll_interval_ms: 1000,
            username: String::new(),
        }
    }

    /// A copy of these settings.
    pub fn copy(&self) -> (c: Self)
        ensures
            same_opcua_section(c, *self),
    {
        let ids = clone_strings(self.node_ids.as_slice());
        assert(crate::text::strings(ids@) =~= crate::text::strings(self.node_ids@));
        OpcUaPersistedConfig {
            endpoint_url: self.endpoint_url.clone(),
            node_ids: ids,
            poll_interval_ms: self.poll_interval_ms,
            username: self.username.clone(),
        }
    }
}

impl Iec104PersistedConfig {
    /// localhost:2404, common address 1, originator address 0.
    pub fn default_config() -> (c: Self)
        ensures
            c.host@ == "localhost"@,
            c.port == 2404,
            c.common_address == 1,
            c.originator_address == 0,
    {
        Iec104PersistedConfig { host: "localhost".to_owned(), port: 2404, common_address: 1, originator_address: 0 }
    }

    /// A copy of these settings.
    pub fn copy(&self) -> (c: Self)
        ensures
            same_iec104_section(c, *self),
    {
        Iec104PersistedConfig {
            host: self.host.clone(),
            port: self.port,
            common_address: self.common_address,
            originator_address: self.originator_address,
        }
    }
}

impl SerialPersistedConfig {
    /// No port chosen, 115200 baud, 8 data bits, no parity, 1 stop bit (as
    /// the serial form starts).
    pub fn default_config() -> (c: Self)
        ensures
            c.port@.len() == 0,
            c.baud_rate == 115200,
            c.data_bits == 8,
            c.parity@ == "None"@,
            c.stop_bits == 1,
    {
        SerialPersistedConfig {
            port: String::new(),
            baud_rate: 115200,
            data_bits: 8,
            parity: "None".to_owned(),
            stop_bits: 1,
        }
    }

    /// A copy of these settings.
    pub fn copy(&self) -> (c: Self)
        ensures
            same_serial_section(c, *self),
    {
        SerialPersistedConfig {
            port: self.port.clone(),
            baud_rate: self.baud_rate,
            data_bits: self.data_bits,
            parity: self.parity.clone(),
            stop_bits: self.stop_bits,
        }
    }
}

/// The whole configuration file.
#[derive(Debug)]
pub struct SavedConfig {
    pub mqtt: MqttConfig,
    pub modbus: ModbusPersistedConfig,
    pub opcua: OpcUaPersistedConfig,
    pub iec104: Iec104PersistedConfig,
    pub serial: SerialPersistedConfig,
}

/// The `[opcua]`, `[iec104]` and `[serial]` sections of `cfg` are those of
/// `saved`.
pub open spec fn other_sections_kept(cfg: SavedConfig, saved: SavedConfig) -> bool {
    &&& same_opcua_section(cfg.opcua, saved.opcua)
    &&& same_iec104_section(cfg.iec104, saved.iec104)
    &&& same_serial_section(cfg.serial, saved.serial)
}

/// The version a saved `version` text names: "v5" is MQTT 5, anything else 3.1.1.
pub open spec fn saved_version(text: Seq<char>) -> MqttVersion {
    if text == "v5"@ {
        MqttVersion::V5
    } else {
        MqttVersion::V311
    }
}

/// The text saved for a version.
pub open spec fn version_text(v: MqttVersion) -> Seq<char> {
    match v {
        MqttVersion::V5 => "v5"@,
        MqttVersion::V311 => "v311"@,
    }
}

/// Saving a version and reading it back gives the same version.
pub proof fn lemma_version_round_trip(v: MqttVersion)
    ensures
        saved_version(version_text(v)) == v,
{
    reveal_strlit("v5");
    reveal_strlit("v311");
    if v == MqttVersion::V311 {
        assert(version_text(v).len() != ("v5"@).len());
    }
}

/// The text to save for `v`.
pub fn version_string(v: MqttVersion) -> (s: String)
    ensures
        s@ == version_text(v),
{
    match v {
        MqttVersion::V5 => "v5".to_owned(),
        MqttVersion::V311 => "v311".to_owned(),
    }
}

impl SavedConfig {
    /// Defaults for every section.
    pub fn default_config() -> (c: Self)
        ensures
            c.mqtt.host@ == "localhost"@,
            c.mqtt.port == 1883,
            c.mqtt.username@ == Seq::<char>::empty(),
            c.mqtt.version@ == "v311"@,
            c.mqtt.topics@.len() == 0,
            c.modbus.host@ == "localhost"@,
            c.modbus.port == 502,
            c.modbus.unit_id == 1,
            c.modbus.poll_interval_ms == 1000,
            c.opcua.endpoint_url@ == "opc.tcp://localhost:4840"@,
            c.opcua.node_ids@.len() == 0,
            c.opcua.poll_interval_ms == 1000,
            c.opcua.username@.len() == 0,
            c.iec104.host@ == "localhost"@,
            c.iec104.port == 2404,
            c.iec104.common_address == 1,
            c.iec104.originator_address == 0,
            c.serial.port@.len() == 0,
            c.serial.baud_rate == 115200,
            c.serial.data_bits == 8,
            c.serial.parity@ == "None"@,
            c.serial.stop_bits == 1,
    {
        SavedConfig {
            mqtt: MqttConfig::default_config(),
            modbus: ModbusPersistedConfig::default_config(),
            opcua: OpcUaPersistedConfig::default_config(),
            iec104: Iec104PersistedConfig::default_config(),
            serial: SerialPersistedConfig::default_config(),
        }
    }

    pub fn mqtt_version(&self) -> (v: MqttVersion)
        ensures
            v == saved_version(self.mqtt.version@),
    {
        if crate::text::str_equal(self.mqtt.version.as_str(), "v5") {
            MqttVersion::V5
        } else {
            MqttVersion::V311
        }
    }
}

impl Default for SavedConfig {
    fn default() -> (c: Self)
        ensures
            c.mqtt.host@ == "localhost"@,
            c.mqtt.port == 1883,
            c.mqtt.version@ == "v311"@,
            c.mqtt.topics@.len() == 0,
            c.modbus.host@ == "localhost"@,
            c.modbus.port == 502,
            c.modbus.unit_id == 1,
            c.modbus.poll_interval_ms == 1000,
            c.opcua.endpoint_url@ == "opc.tcp://localhost:4840"@,
            c.opcua.node_ids@.len() == 0,
            c.opcua.poll_interval_ms == 1000,
            c.opcua.username@.len() == 0,
            c.iec104.host@ == "localhost"@,
            c.iec104.port == 2404,
            c.iec104.common_address == 1,
            c.iec104.originator_address == 0,
            c.serial.port@.len() == 0,
            c.serial.baud_rate == 115200,
            c.serial.data_bits == 8,
            c.serial.parity@ == "None"@,
            c.serial.stop_bits == 1,
    {
        Self::default_config()
    }
}

/// Copies of `topics`, in order.
pub fn clone_strings(topics: &[String]) -> (v: Vec<String>)
    ensures
        v@.len() == topics@.len(),
        forall|i: int| 0 <= i < topics@.len() ==> #[trigger] v@[i]@ == topics@[i]@,
{
    let mut v: Vec<String> = Vec::new();
    let mut i: usize = 0;
    while i < topics.len()
        invariant
            i <= topics@.len(),
            v@.len() == i,
            forall|j: int| 0 <= j < i ==> #[trigger] v@[j]@ == topics@[j]@,
        decreases topics@.len() - i,
    {
        v.push(topics[i].clone());
        i = i + 1;
    }
    v
}

/// Replaces only the MQTT topics of a loaded configuration, so that
/// subscribing at runtime never overwrites the broker credentials; the
/// caller loads the file before and saves it after.
pub fn update_topics(cfg: &mut SavedConfig, topics: &[String])
    ensures
        final(cfg).mqtt.topics@.len() == topics@.len(),
        forall|i: int| 0 <= i < topics@.len() ==> #[trigger] final(cfg).mqtt.topics@[i]@ == topics@[i]@,
        final(cfg).mqtt.host == old(cfg).mqtt.host,
        final(cfg).mqtt.port == old(cfg).mqtt.port,
        final(cfg).mqtt.username == old(cfg).mqtt.username,
        final(cfg).mqtt.version == old(cfg).mqtt.version,
        final(cfg).modbus == old(cfg).modbus,
        final(cfg).opcua == old(cfg).opcua,
        final(cfg).iec104 == old(cfg).iec104,
        final(cfg).serial == old(cfg).serial,
{
    cfg.mqtt.topics = clone_strings(topics);
}

} // verus!
