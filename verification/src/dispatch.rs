//! Which handler an event goes to: keys by the screen shown (and, on the
//! monitor, by the dialog or input line that is open), other events by
//! their kind.

use vstd::prelude::*;

use crate::control::{
    Action, AppEvent, Controller, KeyPress, connected_step, disconnected_step, error_step, message_step,
    modbus_data_step, paste_step, tick_step,
};
use crate::form_keys::{connect_step, connecting_step, form_input, modbus_connect_step, source_select_step};
use crate::line_keys::{confirm_input, confirm_step, line_input, publish_step, search_step, subscribe_step};
use crate::modbus_keys::{query_input, query_step, table_input, table_step};
use crate::mode::{AppMode, SourceKind};
use crate::monitor_keys::{monitor_input, monitor_step};
use crate::yank_keys::{yank_input, yank_step};

verus! {

/// What a key does on the monitor: the Modbus query form while it is
/// edited, else the Modbus table; on an MQTT source the open dialog or input
/// line (the question whether to leave, subscribe, yank, search, publish,
/// in that order), else the monitor itself.
pub open spec fn monitor_key_step(old: Controller, new: Controller, key: KeyPress, acts: Seq<Action>) -> bool {
    let s = old.state;
    if s.source_kind == SourceKind::ModbusTcp && s.modbus_query.editing {
        query_step(old, new, query_input(key), acts)
    } else if s.source_kind == SourceKind::ModbusTcp {
        table_step(old, new, table_input(key), acts)
    } else if s.confirm_back {
        confirm_step(old, new, confirm_input(key), acts)
    } else if s.subscribe_mode {
        subscribe_step(old, new, line_input(key), acts)
    } else if s.yank_mode {
        yank_step(old, new, yank_input(key), acts)
    } else if s.search_mode {
        search_step(old, new, line_input(key), acts)
    } else if s.publish_mode {
        publish_step(old, new, line_input(key), acts)
    } else {
        monitor_step(old, new, monitor_input(key, old), acts)
    }
}

/// What a key does, by the screen shown. The serial screens take no keys.
pub open spec fn key_step(old: Controller, new: Controller, key: KeyPress, acts: Seq<Action>) -> bool {
    match old.mode {
        AppMode::SourceSelect => source_select_step(old, new, key, acts),
        AppMode::Connect => connect_step(old, new, form_input(key, old.form.active == 4), acts),
        AppMode::Connecting => connecting_step(old, new, key, acts),
        AppMode::ModbusConnect => modbus_connect_step(old, new, form_input(key, false), acts),
        AppMode::ModbusConnecting => connecting_step(old, new, key, acts),
        AppMode::Monitor => monitor_key_step(old, new, key, acts),
        _ => new == old && acts.len() == 0,
    }
}

/// What an event does. OPC UA samples, serial lines and IEC 104 frames are
/// not acted on by this loop.
pub open spec fn event_step(old: Controller, new: Controller, ev: AppEvent, acts: Seq<Action>) -> bool {
    match ev {
        AppEvent::Tick => acts.len() == 0 && tick_step(old, new),
        AppEvent::Key(k) => key_step(old, new, k, acts),
        AppEvent::Paste(s) => acts.len() == 0 && paste_step(old, new, s@),
        AppEvent::MqttMessage { message, received_at } => acts.len() == 0 && message_step(old, new, message, received_at),
        AppEvent::ModbusData { start, values } => acts.len() == 0 && modbus_data_step(old, new, start, values@),
        AppEvent::Connected => acts.len() == 0 && connected_step(old, new),
        AppEvent::Disconnected => disconnected_step(old, new, acts),
        AppEvent::Error(e) => acts.len() == 0 && error_step(old, new, e),
        _ => acts.len() == 0 && new == old,
    }
}

impl Controller {
    /// Handles a key press.
    pub fn on_key(&mut self, key: KeyPress) -> (acts: Vec<Action>)
        requires
            old(self).wf(),
        ensures
            final(self).wf(),
            key_step(*old(self), *final(self), key, acts@),
    {
        match self.mode {
            AppMode::SourceSelect => self.source_select_key(key),
            AppMode::Connect => self.connect_key(key),
            AppMode::Connecting => self.connecting_key(key),
            AppMode::ModbusConnect => self.modbus_connect_key(key),
            AppMode::ModbusConnecting => self.connecting_key(key),
            AppMode::Monitor => self.monitor_screen_key(key),
            _ => Vec::new(),
        }
    }

    fn monitor_screen_key(&mut self, key: KeyPress) -> (acts: Vec<Action>)
        requires
            old(self).wf(),
        ensures
            final(self).wf(),
            monitor_key_step(*old(self), *final(self), key, acts@),
    {
        let modbus = self.state.source_kind == SourceKind::ModbusTcp;
        if modbus && self.state.modbus_query.editing {
            self.query_key(key)
        } else if modbus {
            self.table_key(key)
        } else if self.state.confirm_back {
            self.confirm_key(key)
        } else if self.state.subscribe_mode {
            self.subscribe_key(key)
        } else if self.state.yank_mode {
            self.yank_key(key)
        } else if self.state.search_mode {
            self.search_key(key)
        } else if self.state.publish_mode {
            self.publish_key(key)
        } else {
            self.monitor_key(key)
        }
    }

    /// Handles an event and says what the program is to do next.
    pub fn handle(&mut self, ev: AppEvent) -> (acts: Vec<Action>)
        requires
            old(self).wf(),
        ensures
            final(self).wf(),
            event_step(*old(self), *final(self), ev, acts@),
    {
        match ev {
            AppEvent::Tick => {
                self.on_tick();
                Vec::new()
            },
            AppEvent::Key(k) => self.on_key(k),
            AppEvent::Paste(s) => {
                self.on_paste(s.as_str());
                Vec::new()
            },
            AppEvent::MqttMessage { message, received_at } => {
                self.on_mqtt_message(message, received_at);
                Vec::new()
            },
            AppEvent::ModbusData { start, values } => {
                self.on_modbus_data(start, values);
                Vec::new()
            },
            AppEvent::Connected => {
                self.on_connected();
                Vec::new()
            },
            AppEvent::Disconnected => self.on_disconnected(),
            AppEvent::Error(e) => {
                self.on_error(e);
                Vec::new()
            },
            _ => Vec::new(),
        }
    }
}

} // verus!
