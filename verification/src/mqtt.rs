//! MQTT source settings and commands, and the settings built from the
//! connection form.

use vstd::prelude::*;

use crate::mode::{ConnectForm, MqttVersion, field_number};
use crate::text::{hex_lower_fixed, u64_to_hex_fixed};

verus! {

/// Runtime settings of the MQTT source.
#[derive(Debug)]
pub struct MqttConfig {
    pub host: String,
    pub port: u16,
    pub client_id: String,
    pub topics: Vec<String>,
    pub keep_alive_secs: u64,
    pub username: Option<String>,
    pub password: Option<String>,
    pub version: MqttVersion,
}

impl MqttConfig {
    /// localhost:1883 as "pulse-tui", subscribed to "#", 5 s keep-alive,
    /// anonymous, MQTT 3.1.1.
    pub fn default_config() -> (c: Self)
        ensures
            c.host@ == "localhost"@,
            c.port == 1883,
            c.client_id@ == "pulse-tui"@,
            c.topics@.len() == 1 && c.topics@[0]@ == "#"@,
            c.keep_alive_secs == 5,
            c.username is None,
            c.password is None,
            c.version == MqttVersion::V311,
    {
        let mut topics: Vec<String> = Vec::new();
        topics.push("#".to_owned());
        MqttConfig {
            host: "localhost".to_owned(),
            port: 1883,
            client_id: "pulse-tui".to_owned(),
            topics,
            keep_alive_secs: 5,
            username: None,
            password: None,
            version: MqttVersion::V311,
        }
    }
}

impl Default for MqttConfig {
    fn default() -> (c: Self)
        ensures
            c.host@ == "localhost"@,
            c.port == 1883,
            c.client_id@ == "pulse-tui"@,
            c.keep_alive_secs == 5,
            c.username is None,
            c.password is None,
            c.version == MqttVersion::V311,
    {
        Self::default_config()
    }
}

/// A request to the running MQTT source.
#[derive(Debug)]
pub enum MqttCommand {
    Subscribe(String),
    Unsubscribe(String),
    Publish { topic: String, payload: String },
}

/// Calls `SystemTime::now().duration_since(UNIX_EPOCH)` and takes the
/// nanoseconds of the current second (0 when the clock is before the epoch);
/// std documents them as below one billion.
#[verifier::external_body]
fn clock_subsec_nanos() -> (n: u32)
    ensures
        n < 1_000_000_000,
{
    std::time::SystemTime::now()
        .duration_since(std::time::UNIX_EPOCH)
        .unwrap_or(std::time::Duration::ZERO)
        .subsec_nanos()
}

/// The low 16 bits of `nanos` as four lower-case hex digits.
pub fn hex_suffix(nanos: u32) -> (s: String)
    ensures
        s@ == hex_lower_fixed((nanos % 0x1_0000) as nat, 4),
{
    u64_to_hex_fixed((nanos % 0x1_0000) as u64, 4, false)
}

/// Four hex digits taken from the clock, to make client ids differ.
pub fn random_hex_suffix() -> (s: String)
    ensures
        s@.len() == 4,
{
    let nanos = clock_subsec_nanos();
    let s = hex_suffix(nanos);
    proof {
        lemma_hex_fixed_len((nanos % 0x1_0000) as nat, 4);
    }
    s
}

proof fn lemma_hex_fixed_len(n: nat, w: nat)
    ensures
        hex_lower_fixed(n, w).len() == w,
    decreases w,
{
    if w > 0 {
        lemma_hex_fixed_len(n / 16, (w - 1) as nat);
    }
}

/// The text of a form field, or nothing when it is empty.
pub open spec fn optional_text(s: Seq<char>) -> Option<Seq<char>> {
    if s.len() == 0 { None } else { Some(s) }
}

fn optional_string(s: &str) -> (r: Option<String>)
    ensures
        match optional_text(s@) {
            None => r is None,
            Some(t) => r matches Some(x) && x@ == t,
        },
{
    if s.is_empty() {
        None
    } else {
        Some(s.to_owned())
    }
}

/// The settings for a connection from the form: client id "pulse-tui-"
/// followed by `suffix`, the given topics, 5 s keep-alive, and the user name
/// and password only where they are filled in.
pub fn config_from_form(form: &ConnectForm, topics: &[String], suffix: &str) -> (c: MqttConfig)
    ensures
        c.host@ == form.values@[0]@,
        c.port as nat == field_number(form.values@[1]@, 0xffff, 1883),
        c.client_id@ == "pulse-tui-"@ + suffix@,
        c.topics@.len() == topics@.len(),
        forall|i: int| 0 <= i < topics@.len() ==> #[trigger] c.topics@[i]@ == topics@[i]@,
        c.keep_alive_secs == 5,
        match optional_text(form.values@[2]@) {
            None => c.username is None,
            Some(t) => c.username matches Some(x) && x@ == t,
        },
        match optional_text(form.values@[3]@) {
            None => c.password is None,
            Some(t) => c.password matches Some(x) && x@ == t,
        },
        c.version == form.mqtt_version,
{
    let mut client_id = "pulse-tui-".to_owned();
    client_id.append(suffix);
    MqttConfig {
        host: form.host().to_owned(),
        port: form.port(),
        client_id,
        topics: crate::config::clone_strings(topics),
        keep_alive_secs: 5,
        username: optional_string(form.username()),
        password: optional_string(form.password()),
        version: form.mqtt_version,
    }
}

} // verus!
