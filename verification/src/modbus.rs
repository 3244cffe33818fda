//! Modbus TCP source settings and commands, and what a poll reply becomes:
//! coils as 0/1 words, and rows numbered from the start address.

use vstd::prelude::*;

use crate::mode::FunctionCode;
use crate::state::ModbusRow;

verus! {

/// Runtime settings of the Modbus TCP source.
#[derive(Debug)]
pub struct ModbusConfig {
    pub host: String,
    pub port: u16,
    pub unit_id: u8,
    pub poll_interval_ms: u64,
}

impl ModbusConfig {
    /// localhost:502, unit 1, polled every second.
    pub fn default_config() -> (c: Self)
        ensures
            c.host@ == "localhost"@,
            c.port == 502,
            c.unit_id == 1,
            c.poll_interval_ms == 1000,
    {
        ModbusConfig { host: "localhost".to_owned(), port: 502, unit_id: 1, poll_interval_ms: 1000 }
    }

    /// The settings that the connection form holds.
    pub fn from_form(form: &crate::mode::ModbusForm) -> (c: Self)
        ensures
            c.host@ == form.values@[0]@,
            c.port as nat == crate::mode::field_number(form.values@[1]@, 0xffff, 502),
            c.unit_id as nat == crate::mode::field_number(form.values@[2]@, 0xff, 1),
            c.poll_interval_ms as nat == crate::mode::field_number(form.values@[3]@, u64::MAX as nat, 1000),
    {
        ModbusConfig {
            host: form.host().to_owned(),
            port: form.port(),
            unit_id: form.unit_id(),
            poll_interval_ms: form.poll_ms(),
        }
    }
}

impl Default for ModbusConfig {
    fn default() -> (c: Self)
        ensures
            c.host@ == "localhost"@,
            c.port == 502,
            c.unit_id == 1,
            c.poll_interval_ms == 1000,
    {
        Self::default_config()
    }
}

/// A request to the running Modbus source.
#[derive(Debug)]
pub enum ModbusCommand {
    SetQuery { fc: FunctionCode, start: u16, quantity: u16 },
}

/// Coil and discrete-input states as register words: 1 for on, 0 for off.
pub fn bits_to_registers(bits: &[bool]) -> (words: Vec<u16>)
    ensures
        words@.len() == bits@.len(),
        forall|i: int| 0 <= i < bits@.len() ==> #[trigger] words@[i] == if bits@[i] { 1u16 } else { 0u16 },
{
    let mut words: Vec<u16> = Vec::new();
    let mut i: usize = 0;
    while i < bits.len()
        invariant
            i <= bits@.len(),
            words@.len() == i,
            forall|k: int| 0 <= k < i ==> #[trigger] words@[k] == if bits@[k] { 1u16 } else { 0u16 },
        decreases bits@.len() - i,
    {
        words.push(if bits[i] { 1 } else { 0 });
        i = i + 1;
    }
    words
}

/// The address of the `i`-th polled value: the start address plus `i`,
/// wrapping at 65536 as `u16::wrapping_add` does.
pub open spec fn row_address(start: u16, i: int) -> u16 {
    ((start as int + i) % 0x1_0000) as u16
}

/// The rows of a poll reply that began at `start`.
pub fn rows_from_values(start: u16, values: &[u16]) -> (rows: Vec<ModbusRow>)
    ensures
        rows@.len() == values@.len(),
        forall|i: int| 0 <= i < values@.len() ==> #[trigger] rows@[i].address == row_address(start, i)
            && rows@[i].value == values@[i],
{
    let mut rows: Vec<ModbusRow> = Vec::new();
    let mut i: usize = 0;
    let mut address: u16 = start;
    while i < values.len()
        invariant
            i <= values@.len(),
            rows@.len() == i,
            address == row_address(start, i as int),
            forall|k: int| 0 <= k < i ==> #[trigger] rows@[k].address == row_address(start, k)
                && rows@[k].value == values@[k],
        decreases values@.len() - i,
    {
        rows.push(ModbusRow { address, value: values[i] });
        address = if address == 0xffff { 0 } else { address + 1 };
        i = i + 1;
    }
    rows
}

} // verus!
