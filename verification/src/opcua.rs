//! OPC UA source settings and commands, and the list of monitored node ids
//! that the commands edit.

use vstd::prelude::*;

use crate::state::without_string;
use crate::text::{decimal, i64_to_decimal, int_decimal, strings, u64_to_decimal};

verus! {

/// Runtime settings of the OPC UA source.
#[derive(Debug, Clone)]
pub struct OpcUaConfig {
    /// OPC UA server endpoint URL, e.g. "opc.tcp://localhost:4840"
    pub endpoint_url: String,
    /// Node ID strings to monitor.
    pub node_ids: Vec<String>,
    /// How often to poll the node, in milliseconds.
    pub poll_interval_ms: u64,
    /// Optional username for UserName identity token (empty = Anonymous).
    pub username: String,
    /// Optional password for UserName identity token.
    pub password: String,
}

impl OpcUaConfig {
    pub fn default_config() -> (c: Self)
        ensures
            c.endpoint_url@ == "opc.tcp://localhost:4840"@,
            c.node_ids@.len() == 0,
            c.poll_interval_ms == 1000,
            c.username@.len() == 0,
            c.password@.len() == 0,
    {
        OpcUaConfig {
            endpoint_url: "opc.tcp://localhost:4840".to_owned(),
            node_ids: Vec::new(),
            poll_interval_ms: 1000,
            username: String::new(),
            password: String::new(),
        }
    }
}

impl OpcUaConfig {
    /// The settings saved in the `[opcua]` section, with `password` (which is
    /// never saved).
    pub fn from_saved(saved: &crate::config::OpcUaPersistedConfig, password: String) -> (c: Self)
        ensures
            c.endpoint_url@ == saved.endpoint_url@,
            strings(c.node_ids@) == strings(saved.node_ids@),
            c.poll_interval_ms == saved.poll_interval_ms,
            c.username@ == saved.username@,
            c.password == password,
    {
        let ids = crate::config::clone_strings(saved.node_ids.as_slice());
        assert(strings(ids@) =~= strings(saved.node_ids@));
        OpcUaConfig {
            endpoint_url: saved.endpoint_url.clone(),
            node_ids: ids,
            poll_interval_ms: saved.poll_interval_ms,
            username: saved.username.clone(),
            password,
        }
    }
}

impl Default for OpcUaConfig {
    fn default() -> (c: Self)
        ensures
            c.endpoint_url@ == "opc.tcp://localhost:4840"@,
            c.node_ids@.len() == 0,
            c.poll_interval_ms == 1000,
            c.username@.len() == 0,
            c.password@.len() == 0,
    {
        Self::default_config()
    }
}

/// Commands that the main loop can send into the running OPC UA task.
pub enum OpcUaCommand {
    /// Add one monitored node.
    AddNode(String),
    /// Remove one monitored node.
    RemoveNode(String),
}

/// Adds `id` at the end unless it is already monitored.
pub fn add_node_id(ids: &mut Vec<String>, id: String)
    ensures
        strings(old(ids)@).contains(id@) ==> final(ids)@ == old(ids)@,
        !strings(old(ids)@).contains(id@) ==> final(ids)@ == old(ids)@.push(id),
{
    let mut i: usize = 0;
    while i < ids.len()
        invariant
            ids@ == old(ids)@,
            i <= ids@.len(),
            forall|j: int| 0 <= j < i ==> ids@[j]@ != id@,
        decreases ids@.len() - i,
    {
        if crate::text::str_equal(ids[i].as_str(), id.as_str()) {
            assert(strings(ids@)[i as int] == id@);
            return;
        }
        i = i + 1;
    }
    assert(!strings(ids@).contains(id@)) by {
        if strings(ids@).contains(id@) {
            let k = choose|k: int| 0 <= k < strings(ids@).len() && strings(ids@)[k] == id@;
            assert(ids@[k]@ == id@);
        }
    }
    ids.push(id);
}

/// Removes every occurrence of `id`.
pub fn remove_node_id(ids: &mut Vec<String>, id: &str)
    ensures
        final(ids)@ == without_string(old(ids)@, id@),
{
    let mut kept: Vec<String> = Vec::new();
    let mut i: usize = 0;
    while i < ids.len()
        invariant
            ids@ == old(ids)@,
            i <= ids@.len(),
            kept@ == without_string(ids@.take(i as int), id@),
        decreases ids@.len() - i,
    {
        assert(ids@.take(i + 1).drop_last() =~= ids@.take(i as int));
        if !crate::text::str_equal(ids[i].as_str(), id) {
            kept.push(ids[i].clone());
        }
        i = i + 1;
    }
    assert(ids@.take(ids@.len() as int) =~= ids@);
    *ids = kept;
}

/// Applies a command to the list of monitored nodes.
pub fn apply_command(ids: &mut Vec<String>, cmd: OpcUaCommand)
    ensures
        match cmd {
            OpcUaCommand::AddNode(id) => (strings(old(ids)@).contains(id@) ==> final(ids)@ == old(ids)@)
                && (!strings(old(ids)@).contains(id@) ==> final(ids)@ == old(ids)@.push(id)),
            OpcUaCommand::RemoveNode(id) => final(ids)@ == without_string(old(ids)@, id@),
        },
{
    match cmd {
        OpcUaCommand::AddNode(id) => add_node_id(ids, id),
        OpcUaCommand::RemoveNode(id) => remove_node_id(ids, id.as_str()),
    }
}

/// A list without any copy of `name` is left as it is by removing `name`.
proof fn lemma_remove_absent(v: Seq<String>, name: Seq<char>)
    requires
        !strings(v).contains(name),
    ensures
        without_string(v, name) == v,
    decreases v.len(),
{
    if v.len() > 0 {
        assert(strings(v.drop_last()) =~= strings(v).drop_last());
        assert(strings(v)[v.len() - 1] == v.last()@);
        assert forall|k: int| 0 <= k < strings(v.drop_last()).len() implies strings(v.drop_last())[k] != name by {
            assert(strings(v.drop_last())[k] == strings(v)[k]);
        }
        lemma_remove_absent(v.drop_last(), name);
        assert(v.drop_last().push(v.last()) =~= v);
    }
}

/// After removing `name`, no monitored node is named `name`.
pub proof fn lemma_remove_leaves_none(v: Seq<String>, name: Seq<char>)
    ensures
        !strings(without_string(v, name)).contains(name),
    decreases v.len(),
{
    if v.len() > 0 {
        lemma_remove_leaves_none(v.drop_last(), name);
        let rest = without_string(v.drop_last(), name);
        if v.last()@ != name {
            assert(strings(rest.push(v.last())) =~= strings(rest).push(v.last()@));
        }
    }
}

/// Adding a node that is not monitored and then removing it gives the list
/// back as it was.
pub proof fn lemma_add_then_remove(ids: Seq<String>, id: String)
    requires
        !strings(ids).contains(id@),
    ensures
        without_string(ids.push(id), id@) == ids,
{
    assert(ids.push(id).drop_last() =~= ids);
    lemma_remove_absent(ids, id@);
}

// ── Values read from the server ─────────────────────────────────────────────

/// A value read from a node, as plain values: integers and booleans as
/// they are, everything whose text the OPC UA library itself writes (floats,
/// strings, dates, ids, status codes, raw structures) as that text.
#[derive(Debug)]
pub enum OpcValue {
    Empty,
    Boolean(bool),
    Signed(i64),
    Unsigned(u64),
    Text(String),
    /// A value wrapped in another value.
    Nested(Box<OpcValue>),
    Array(Vec<OpcValue>),
}

/// The text shown for a value: "—" when empty, "[]" for an empty array, the
/// items of an array separated by ", ".
pub open spec fn value_text(v: OpcValue) -> Seq<char>
    decreases v, 0nat,
{
    match v {
        OpcValue::Empty => "—"@,
        OpcValue::Boolean(b) => if b { "true"@ } else { "false"@ },
        OpcValue::Signed(n) => int_decimal(n as int),
        OpcValue::Unsigned(n) => decimal(n as nat),
        OpcValue::Text(t) => t@,
        OpcValue::Nested(b) => value_text(*b),
        OpcValue::Array(vs) => if vs@.len() == 0 {
            "[]"@
        } else {
            items_text(vs@, vs@.len())
        },
    }
}

/// The texts of the first `n` items, separated by ", ".
pub open spec fn items_text(vs: Seq<OpcValue>, n: nat) -> Seq<char>
    decreases vs, n,
{
    if n == 0 || n > vs.len() {
        Seq::empty()
    } else if n == 1 {
        value_text(vs[0])
    } else {
        items_text(vs, (n - 1) as nat) + ", "@ + value_text(vs[n - 1])
    }
}

/// The text shown for a value in the OPC UA table.
pub fn format_value(v: &OpcValue) -> (s: String)
    ensures
        s@ == value_text(*v),
    decreases v,
{
    match v {
        OpcValue::Empty => "—".to_owned(),
        OpcValue::Boolean(b) => if *b { "true".to_owned() } else { "false".to_owned() },
        OpcValue::Signed(n) => i64_to_decimal(*n),
        OpcValue::Unsigned(n) => u64_to_decimal(*n),
        OpcValue::Text(t) => t.clone(),
        OpcValue::Nested(b) => format_value(&**b),
        OpcValue::Array(vs) => {
            if vs.len() == 0 {
                return "[]".to_owned();
            }
            let mut out = String::new();
            let mut i: usize = 0;
            while i < vs.len()
                invariant
                    i <= vs@.len(),
                    vs@.len() > 0,
                    *v == OpcValue::Array(*vs),
                    out@ == items_text(vs@, i as nat),
                decreases vs@.len() - i,
            {
                proof {
                    let items: Vec<OpcValue> = (*v)->Array_0;
                    assert(items == *vs);
                    assert(decreases_to!(*v => (*v)->Array_0));
                    assert(decreases_to!(items => items@));
                    assert(decreases_to!(items@ => items@[i as int]));
                }
                let item = format_value(&vs[i]);
                if i > 0 {
                    out.append(", ");
                }
                out.append(item.as_str());
                i = i + 1;
            }
            out
        },
    }
}

} // verus!
