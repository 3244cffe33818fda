//! Keys on the source selection screen, the connection forms and the
//! screens shown while a connection is made.

use vstd::prelude::*;

use crate::config::SavedConfig;
use crate::control::{Action, Args, Controller, mqtt_form_from, started_from, KeyCode, KeyMods, KeyPress, ctrl_c, is_ctrl_c, is_plain, one, plain, strings_equal_view};
use crate::text::strings;
use crate::modbus::ModbusConfig;
use crate::mode::{AppMode, ConnectForm, ConnectStatus, ModbusForm, SourceKind, field_number};
use crate::mqtt::{MqttConfig, config_from_form, random_hex_suffix};
use crate::state::AppState;
use crate::config::lemma_version_round_trip;
use crate::text::{decimal, lemma_parse_decimal};

verus! {

// ── Keys on the source selection and connection screens ────────────────────

/// What a key does on the source selection screen.
pub open spec fn source_select_step(old: Controller, new: Controller, key: KeyPress, acts: Seq<Action>) -> bool {
    &&& (ctrl_c(key) || plain(key, KeyCode::Char('q')) ==> new == old && acts == seq![Action::Quit])
    &&& (!(ctrl_c(key) || plain(key, KeyCode::Char('q'))) ==> acts.len() == 0)
    &&& (plain(key, KeyCode::Up) ==> new == (Controller { source_select_idx: if old.source_select_idx == 0 { 1 } else { (old.source_select_idx - 1) as usize }, ..old }))
    &&& (plain(key, KeyCode::Down) ==> new == (Controller { source_select_idx: ((old.source_select_idx + 1) % 2) as usize, ..old }))
    &&& (plain(key, KeyCode::Enter) ==> new == (Controller { mode: if old.source_select_idx == 0 { AppMode::Connect } else { AppMode::ModbusConnect }, ..old }))
    &&& (plain(key, KeyCode::Char('m')) || plain(key, KeyCode::Char('1')) ==> new == (Controller { mode: AppMode::Connect, ..old }))
    &&& (plain(key, KeyCode::Char('b')) || plain(key, KeyCode::Char('2')) ==> new == (Controller { mode: AppMode::ModbusConnect, ..old }))
    &&& (!(ctrl_c(key) || plain(key, KeyCode::Char('q')) || plain(key, KeyCode::Up) || plain(key, KeyCode::Down) || plain(key, KeyCode::Enter) || plain(key, KeyCode::Char('m')) || plain(key, KeyCode::Char('1')) || plain(key, KeyCode::Char('b')) || plain(key, KeyCode::Char('2'))) ==> new == old)
}

/// What a key does while a connection is being made.
pub open spec fn connecting_step(old: Controller, new: Controller, key: KeyPress, acts: Seq<Action>) -> bool {
    &&& (ctrl_c(key) ==> new == old && acts == seq![Action::Quit])
    &&& (!ctrl_c(key) && plain(key, KeyCode::Esc) && old.mode == AppMode::Connecting ==> new == (Controller { mqtt_running: false, mode: AppMode::Connect, form: crate::mode::ConnectForm { status: ConnectStatus::Idle, ..old.form }, ..old }) && acts.len() == 1 && acts[0] is StopMqtt)
    &&& (!ctrl_c(key) && plain(key, KeyCode::Esc) && old.mode == AppMode::ModbusConnecting ==> new == (Controller { modbus_running: false, mode: AppMode::ModbusConnect, modbus_form: crate::mode::ModbusForm { status: ConnectStatus::Idle, ..old.modbus_form }, ..old }) && acts.len() == 1 && acts[0] is StopModbus)
    &&& (!ctrl_c(key) && !plain(key, KeyCode::Esc) ==> new == old && acts.len() == 0)
}

impl Controller {
    /// Keys on the source selection screen: Up and Down move between MQTT
    /// and Modbus TCP, Enter (or m, 1, b, 2) opens a connection form, q and
    /// Ctrl-C quit.
    #[verifier::rlimit(60)]
    pub fn source_select_key(&mut self, key: KeyPress) -> (acts: Vec<Action>)
        requires
            old(self).wf(),
        ensures
            final(self).wf(),
            source_select_step(*old(self), *final(self), key, acts@),
    {
        if is_ctrl_c(key) || is_plain(key, KeyCode::Char('q')) {
            return one(Action::Quit);
        }
        if is_plain(key, KeyCode::Up) {
            self.source_select_idx = if self.source_select_idx == 0 { 1 } else { self.source_select_idx - 1 };
        } else if is_plain(key, KeyCode::Down) {
            self.source_select_idx = (self.source_select_idx + 1) % 2;
        } else if is_plain(key, KeyCode::Enter) {
            self.mode = if self.source_select_idx == 0 { AppMode::Connect } else { AppMode::ModbusConnect };
        } else if is_plain(key, KeyCode::Char('m')) || is_plain(key, KeyCode::Char('1')) {
            self.mode = AppMode::Connect;
        } else if is_plain(key, KeyCode::Char('b')) || is_plain(key, KeyCode::Char('2')) {
            self.mode = AppMode::ModbusConnect;
        }
        Vec::new()
    }

    /// Keys while a connection is being made: Esc gives up and goes back to
    /// the form, Ctrl-C quits.
    #[verifier::rlimit(60)]
    pub fn connecting_key(&mut self, key: KeyPress) -> (acts: Vec<Action>)
        requires
            old(self).wf(),
            old(self).mode == AppMode::Connecting || old(self).mode == AppMode::ModbusConnecting,
        ensures
            final(self).wf(),
            connecting_step(*old(self), *final(self), key, acts@),
    {
        if is_ctrl_c(key) {
            return one(Action::Quit);
        }
        if is_plain(key, KeyCode::Esc) {
            if self.mode == AppMode::Connecting {
                self.mqtt_running = false;
                self.mode = AppMode::Connect;
                self.form.status = ConnectStatus::Idle;
                return one(Action::StopMqtt);
            } else {
                self.modbus_running = false;
                self.mode = AppMode::ModbusConnect;
                self.modbus_form.status = ConnectStatus::Idle;
                return one(Action::StopModbus);
            }
        }
        Vec::new()
    }
}

// ── The connection forms ────────────────────────────────────────────────────

/// The Modbus section saved from the Modbus form.
pub open spec fn modbus_section_from(m: crate::config::ModbusPersistedConfig, f: ModbusForm) -> bool {
    &&& m.host@ == f.values@[0]@
    &&& m.port as nat == field_number(f.values@[1]@, 0xffff, 502)
    &&& m.unit_id as nat == field_number(f.values@[2]@, 0xff, 1)
    &&& m.poll_interval_ms as nat == field_number(f.values@[3]@, u64::MAX as nat, 1000)
}

/// The settings saved when connecting to a broker from the MQTT form.
pub open spec fn saved_from_mqtt_form(cfg: SavedConfig, c: Controller) -> bool {
    &&& cfg.mqtt.host@ == c.form.values@[0]@
    &&& cfg.mqtt.port as nat == field_number(c.form.values@[1]@, 0xffff, 1883)
    &&& cfg.mqtt.username@ == c.form.values@[2]@
    &&& cfg.mqtt.version@ == crate::config::version_text(c.form.mqtt_version)
    &&& strings(cfg.mqtt.topics@) == strings(c.initial_topics@)
    &&& modbus_section_from(cfg.modbus, c.modbus_form)
    &&& crate::config::other_sections_kept(cfg, c.saved)
}

/// The settings saved when connecting to a Modbus device: the MQTT section
/// as it was loaded.
pub open spec fn saved_from_modbus_form(cfg: SavedConfig, c: Controller) -> bool {
    &&& cfg.mqtt.host@ == c.saved.mqtt.host@
    &&& cfg.mqtt.port == c.saved.mqtt.port
    &&& cfg.mqtt.username@ == c.saved.mqtt.username@
    &&& cfg.mqtt.version@ == c.saved.mqtt.version@
    &&& strings(cfg.mqtt.topics@) == strings(c.saved.mqtt.topics@)
    &&& modbus_section_from(cfg.modbus, c.modbus_form)
    &&& crate::config::other_sections_kept(cfg, c.saved)
}

/// The Modbus form `new` shows what was used from `old`: the host as typed,
/// each number field as the number that was used, written in decimal (so one
/// typed as a plain decimal number that fits comes back as typed).
pub open spec fn modbus_fields_restored(old: ModbusForm, new: ModbusForm) -> bool {
    &&& new.values@[0]@ == old.values@[0]@
    &&& new.values@[1]@ == decimal(field_number(old.values@[1]@, 0xffff, 502))
    &&& new.values@[2]@ == decimal(field_number(old.values@[2]@, 0xff, 1))
    &&& new.values@[3]@ == decimal(field_number(old.values@[3]@, u64::MAX as nat, 1000))
    &&& forall|n: nat| n <= 0xffff && old.values@[1]@ == decimal(n) ==> new.values@[1]@ == old.values@[1]@
    &&& forall|n: nat| n <= 0xff && old.values@[2]@ == decimal(n) ==> new.values@[2]@ == old.values@[2]@
    &&& forall|n: nat| n <= u64::MAX && old.values@[3]@ == decimal(n) ==> new.values@[3]@ == old.values@[3]@
}

proof fn lemma_modbus_section_restored(old: ModbusForm, cfg: SavedConfig, new: ModbusForm)
    requires
        modbus_section_from(cfg.modbus, old),
        crate::control::modbus_form_from(new, cfg),
    ensures
        modbus_fields_restored(old, new),
{
    assert forall|n: nat| n <= 0xffff && old.values@[1]@ == decimal(n) implies new.values@[1]@ == old.values@[1]@ by {
        lemma_parse_decimal(n, 0xffff);
    }
    assert forall|n: nat| n <= 0xff && old.values@[2]@ == decimal(n) implies new.values@[2]@ == old.values@[2]@ by {
        lemma_parse_decimal(n, 0xff);
    }
    assert forall|n: nat| n <= u64::MAX && old.values@[3]@ == decimal(n) implies new.values@[3]@ == old.values@[3]@ by {
        lemma_parse_decimal(n, u64::MAX as nat);
    }
}

/// What connecting from the MQTT form saves comes back at the next start
/// with the default command line: the broker, the user name and the version
/// as they were in the form, the port as the number that was used (so a port
/// typed as a plain decimal number comes back as typed), and the Modbus form
/// as `modbus_fields_restored` says.
pub proof fn lemma_mqtt_settings_restored(old: Controller, cfg: SavedConfig, args: Args, next: Controller)
    requires
        saved_from_mqtt_form(cfg, old),
        args.broker@ == "localhost"@,
        args.port == 1883,
        started_from(next, args, cfg),
    ensures
        next.form.values@[0]@ == old.form.values@[0]@,
        next.form.values@[1]@ == decimal(field_number(old.form.values@[1]@, 0xffff, 1883)),
        forall|n: nat| n <= 0xffff && old.form.values@[1]@ == decimal(n) ==> next.form.values@[1]@ == old.form.values@[1]@,
        next.form.values@[2]@ == old.form.values@[2]@,
        next.form.mqtt_version == old.form.mqtt_version,
        modbus_fields_restored(old.modbus_form, next.modbus_form),
{
    lemma_version_round_trip(old.form.mqtt_version);
    assert forall|n: nat| n <= 0xffff && old.form.values@[1]@ == decimal(n) implies next.form.values@[1]@ == old.form.values@[1]@ by {
        lemma_parse_decimal(n, 0xffff);
    }
    lemma_modbus_section_restored(old.modbus_form, cfg, next.modbus_form);
}

/// What connecting from the Modbus form saves comes back at the next start:
/// the Modbus form as `modbus_fields_restored` says, and the MQTT form as
/// the settings loaded before would fill it.
pub proof fn lemma_modbus_settings_restored(old: Controller, cfg: SavedConfig, args: Args, next: Controller)
    requires
        saved_from_modbus_form(cfg, old),
        started_from(next, args, cfg),
    ensures
        modbus_fields_restored(old.modbus_form, next.modbus_form),
        mqtt_form_from(next.form, args, old.saved),
{
    lemma_modbus_section_restored(old.modbus_form, cfg, next.modbus_form);
}

/// The settings of the MQTT source started from the form: the client id is
/// "pulse-tui-" and four more characters.
pub open spec fn mqtt_source_from(m: MqttConfig, c: Controller) -> bool {
    &&& m.host@ == c.form.values@[0]@
    &&& m.port as nat == field_number(c.form.values@[1]@, 0xffff, 1883)
    &&& m.client_id@.len() == 14 && m.client_id@.take(10) == "pulse-tui-"@
    &&& strings(m.topics@) == strings(c.initial_topics@)
    &&& m.keep_alive_secs == 5
    &&& match crate::mqtt::optional_text(c.form.values@[2]@) {
        None => m.username is None,
        Some(t) => m.username matches Some(x) && x@ == t,
    }
    &&& match crate::mqtt::optional_text(c.form.values@[3]@) {
        None => m.password is None,
        Some(t) => m.password matches Some(x) && x@ == t,
    }
    &&& m.version == c.form.mqtt_version
}

pub open spec fn modbus_source_from(m: ModbusConfig, f: ModbusForm) -> bool {
    &&& m.host@ == f.values@[0]@
    &&& m.port as nat == field_number(f.values@[1]@, 0xffff, 502)
    &&& m.unit_id as nat == field_number(f.values@[2]@, 0xff, 1)
    &&& m.poll_interval_ms as nat == field_number(f.values@[3]@, u64::MAX as nat, 1000)
}

fn modbus_section(f: &ModbusForm) -> (m: crate::config::ModbusPersistedConfig)
    ensures
        modbus_section_from(m, *f),
{
    crate::config::ModbusPersistedConfig {
        host: f.host().to_owned(),
        port: f.port(),
        unit_id: f.unit_id(),
        poll_interval_ms: f.poll_ms(),
    }
}


/// What a key means on a connection form.
#[derive(Debug, Clone, Copy, PartialEq, Eq, Structural)]
pub enum FormInput {
    Quit,
    /// Focus the next field.
    Next,
    /// Focus the previous field.
    Prev,
    /// Delete the last character of the focused field.
    Erase,
    /// Switch the MQTT version (when the version selector is focused).
    ToggleVersion,
    /// Save the settings and connect.
    Submit,
    /// Go back to the source selection.
    Back,
    Type(char),
    Ignore,
}

/// Tab and Down (Shift-Tab too) focus the next field, Shift-BackTab and Up
/// the previous one; Left, Right and Space switch the version where the
/// version selector is focused; Ctrl-C quits.
pub open spec fn form_input(key: KeyPress, version_focused: bool) -> FormInput {
    if ctrl_c(key) {
        FormInput::Quit
    } else if (key.code == KeyCode::Tab && (key.mods == KeyMods::Plain || key.mods == KeyMods::Shift)) || plain(key, KeyCode::Down) {
        FormInput::Next
    } else if (key.mods == KeyMods::Shift && key.code == KeyCode::BackTab) || plain(key, KeyCode::Up) {
        FormInput::Prev
    } else if plain(key, KeyCode::Backspace) {
        FormInput::Erase
    } else if version_focused && (plain(key, KeyCode::Left) || plain(key, KeyCode::Right) || plain(key, KeyCode::Char(' '))) {
        FormInput::ToggleVersion
    } else if plain(key, KeyCode::Enter) {
        FormInput::Submit
    } else if plain(key, KeyCode::Esc) {
        FormInput::Back
    } else if key.mods == KeyMods::Plain && key.code is Char {
        FormInput::Type(key.code->0)
    } else {
        FormInput::Ignore
    }
}

pub fn classify_form_key(key: KeyPress, version_focused: bool) -> (r: FormInput)
    ensures
        r == form_input(key, version_focused),
{
    if is_ctrl_c(key) {
        return FormInput::Quit;
    }
    let plain_or_shift = key.mods == KeyMods::Plain || key.mods == KeyMods::Shift;
    if (key.code == KeyCode::Tab && plain_or_shift) || is_plain(key, KeyCode::Down) {
        return FormInput::Next;
    }
    if (key.mods == KeyMods::Shift && key.code == KeyCode::BackTab) || is_plain(key, KeyCode::Up) {
        return FormInput::Prev;
    }
    if is_plain(key, KeyCode::Backspace) {
        return FormInput::Erase;
    }
    if version_focused && (is_plain(key, KeyCode::Left) || is_plain(key, KeyCode::Right) || is_plain(key, KeyCode::Char(' '))) {
        return FormInput::ToggleVersion;
    }
    if is_plain(key, KeyCode::Enter) {
        return FormInput::Submit;
    }
    if is_plain(key, KeyCode::Esc) {
        return FormInput::Back;
    }
    if key.mods == KeyMods::Plain {
        if let KeyCode::Char(c) = key.code {
            return FormInput::Type(c);
        }
    }
    FormInput::Ignore
}

/// The text of field `i` after `f` with `g` applied, the other fields kept.
pub open spec fn field_edited(old: [String; 4], new: [String; 4], i: int, g: spec_fn(Seq<char>) -> Seq<char>) -> bool {
    0 <= i < 4 && new@ == old@.update(i, new@[i]) && new@[i]@ == g(old@[i]@)
}

pub open spec fn erased(t: Seq<char>) -> Seq<char> {
    if t.len() == 0 { t } else { t.drop_last() }
}

/// What an input does on the MQTT form.
#[verifier::opaque]
pub open spec fn connect_step(old: Controller, new: Controller, input: FormInput, acts: Seq<Action>) -> bool {
    match input {
        FormInput::Quit => new == old && acts == seq![Action::Quit],
        FormInput::Next => acts.len() == 0 && new == (Controller {
            form: ConnectForm { active: ((old.form.active + 1) % 5) as usize, ..old.form },
            ..old
        }),
        FormInput::Prev => acts.len() == 0 && new == (Controller {
            form: ConnectForm { active: if old.form.active == 0 { 4 } else { (old.form.active - 1) as usize }, ..old.form },
            ..old
        }),
        FormInput::Erase => {
            &&& acts.len() == 0
            &&& new == (Controller { form: ConnectForm { values: new.form.values, status: ConnectStatus::Idle, ..old.form }, ..old })
            &&& old.form.active < 4 ==> field_edited(old.form.values, new.form.values, old.form.active as int, |t: Seq<char>| erased(t))
            &&& old.form.active >= 4 ==> new.form.values == old.form.values
        },
        FormInput::ToggleVersion => acts.len() == 0 && new == (Controller {
            form: ConnectForm { mqtt_version: crate::mode::other_version(old.form.mqtt_version), ..old.form },
            ..old
        }),
        FormInput::Submit => {
            &&& new == (Controller {
                mode: AppMode::Connecting,
                mqtt_running: true,
                form: ConnectForm { status: ConnectStatus::Connecting, ..old.form },
                state: AppState {
                    subscribed_topics: new.state.subscribed_topics,
                    auto_select_first: old.initial_topics@.len() > 0,
                    mqtt_version: new.state.mqtt_version,
                    ..old.state
                },
                ..old
            })
            &&& strings(new.state.subscribed_topics@) == strings(old.initial_topics@)
            &&& new.state.mqtt_version@ == crate::mode::mqtt_version_label(old.form.mqtt_version)
            &&& acts.len() == 2
            &&& acts[0] matches Action::Save(cfg) && saved_from_mqtt_form(cfg, old)
            &&& acts[1] matches Action::StartMqtt(m) && mqtt_source_from(m, old)
        },
        FormInput::Back => acts.len() == 0 && new == (Controller { mode: AppMode::SourceSelect, ..old }),
        FormInput::Type(c) => {
            &&& acts.len() == 0
            &&& new == (Controller { form: ConnectForm { values: new.form.values, status: ConnectStatus::Idle, ..old.form }, ..old })
            &&& old.form.active < 4 ==> field_edited(old.form.values, new.form.values, old.form.active as int, |t: Seq<char>| t.push(c))
            &&& old.form.active >= 4 ==> new.form.values == old.form.values
        },
        FormInput::Ignore => acts.len() == 0 && new == old,
    }
}

/// What an input does on the Modbus form.
#[verifier::opaque]
pub open spec fn modbus_connect_step(old: Controller, new: Controller, input: FormInput, acts: Seq<Action>) -> bool {
    match input {
        FormInput::Quit => new == old && acts == seq![Action::Quit],
        FormInput::Next => acts.len() == 0 && new == (Controller {
            modbus_form: ModbusForm { active: ((old.modbus_form.active + 1) % 4) as usize, ..old.modbus_form },
            ..old
        }),
        FormInput::Prev => acts.len() == 0 && new == (Controller {
            modbus_form: ModbusForm {
                active: if old.modbus_form.active == 0 { 3 } else { (old.modbus_form.active - 1) as usize },
                ..old.modbus_form
            },
            ..old
        }),
        FormInput::Erase => {
            &&& acts.len() == 0
            &&& new == (Controller {
                modbus_form: ModbusForm { values: new.modbus_form.values, status: ConnectStatus::Idle, ..old.modbus_form },
                ..old
            })
            &&& field_edited(old.modbus_form.values, new.modbus_form.values, old.modbus_form.active as int, |t: Seq<char>| erased(t))
        },
        FormInput::Submit => {
            &&& new == (Controller {
                mode: AppMode::ModbusConnecting,
                modbus_running: true,
                modbus_form: ModbusForm { status: ConnectStatus::Connecting, ..old.modbus_form },
                state: AppState { mqtt_version: new.state.mqtt_version, source_kind: SourceKind::ModbusTcp, ..old.state },
                ..old
            })
            &&& new.state.mqtt_version@ == "Modbus TCP"@
            &&& acts.len() == 2
            &&& acts[0] matches Action::Save(cfg) && saved_from_modbus_form(cfg, old)
            &&& acts[1] matches Action::StartModbus(m) && modbus_source_from(m, old.modbus_form)
        },
        FormInput::Back => acts.len() == 0 && new == (Controller { mode: AppMode::SourceSelect, ..old }),
        FormInput::Type(c) => {
            &&& acts.len() == 0
            &&& new == (Controller {
                modbus_form: ModbusForm { values: new.modbus_form.values, status: ConnectStatus::Idle, ..old.modbus_form },
                ..old
            })
            &&& field_edited(old.modbus_form.values, new.modbus_form.values, old.modbus_form.active as int, |t: Seq<char>| t.push(c))
        },
        _ => acts.len() == 0 && new == old,
    }
}

impl Controller {
    /// Keys on the MQTT connection form (see `form_input`): typing and
    /// Backspace edit the focused field, Enter saves the settings and
    /// connects, Esc goes back.
    pub fn connect_key(&mut self, key: KeyPress) -> (acts: Vec<Action>)
        requires
            old(self).wf(),
        ensures
            final(self).wf(),
            connect_step(*old(self), *final(self), form_input(key, old(self).form.active == 4), acts@),
    {
        let input = classify_form_key(key, self.form.active == 4);
        self.connect_input(input)
    }

    fn connect_input(&mut self, input: FormInput) -> (acts: Vec<Action>)
        requires
            old(self).wf(),
            input == FormInput::ToggleVersion ==> old(self).form.active == 4,
        ensures
            final(self).wf(),
            connect_step(*old(self), *final(self), input, acts@),
    {
        match input {
            FormInput::Quit => {
                proof {
                    reveal(connect_step);
                }
                one(Action::Quit)
            },
            FormInput::Next => self.connect_next(),
            FormInput::Prev => self.connect_prev(),
            FormInput::Erase => self.connect_erase(),
            FormInput::ToggleVersion => self.connect_toggle(),
            FormInput::Submit => self.start_mqtt(),
            FormInput::Back => self.go_back(),
            FormInput::Type(c) => self.connect_type(c),
            FormInput::Ignore => {
                proof {
                    reveal(connect_step);
                }
                Vec::new()
            },
        }
    }

    #[verifier::rlimit(60)]
    fn connect_next(&mut self) -> (acts: Vec<Action>)
        requires
            old(self).wf(),
        ensures
            final(self).wf(),
            connect_step(*old(self), *final(self), FormInput::Next, acts@),
    {
        proof {
            reveal(connect_step);
        }
        self.form.next();
        Vec::new()
    }

    #[verifier::rlimit(60)]
    fn connect_prev(&mut self) -> (acts: Vec<Action>)
        requires
            old(self).wf(),
        ensures
            final(self).wf(),
            connect_step(*old(self), *final(self), FormInput::Prev, acts@),
    {
        proof {
            reveal(connect_step);
        }
        self.form.prev();
        Vec::new()
    }

    #[verifier::rlimit(60)]
    fn connect_erase(&mut self) -> (acts: Vec<Action>)
        requires
            old(self).wf(),
        ensures
            final(self).wf(),
            connect_step(*old(self), *final(self), FormInput::Erase, acts@),
    {
        proof {
            reveal(connect_step);
        }
        self.form.backspace();
        self.form.status = ConnectStatus::Idle;
        Vec::new()
    }

    #[verifier::rlimit(60)]
    fn connect_toggle(&mut self) -> (acts: Vec<Action>)
        requires
            old(self).wf(),
        ensures
            final(self).wf(),
            connect_step(*old(self), *final(self), FormInput::ToggleVersion, acts@),
    {
        proof {
            reveal(connect_step);
        }
        self.form.mqtt_version.toggle();
        Vec::new()
    }

    #[verifier::rlimit(60)]
    fn go_back(&mut self) -> (acts: Vec<Action>)
        requires
            old(self).wf(),
        ensures
            final(self).wf(),
            connect_step(*old(self), *final(self), FormInput::Back, acts@),
            modbus_connect_step(*old(self), *final(self), FormInput::Back, acts@),
    {
        proof {
            reveal(connect_step);
            reveal(modbus_connect_step);
        }
        self.mode = AppMode::SourceSelect;
        Vec::new()
    }

    #[verifier::rlimit(60)]
    fn connect_type(&mut self, c: char) -> (acts: Vec<Action>)
        requires
            old(self).wf(),
        ensures
            final(self).wf(),
            connect_step(*old(self), *final(self), FormInput::Type(c), acts@),
    {
        proof {
            reveal(connect_step);
        }
        self.form.push(c);
        self.form.status = ConnectStatus::Idle;
        Vec::new()
    }

    /// Keys on the Modbus connection form: as on the MQTT form, without the
    /// version selector.
    pub fn modbus_connect_key(&mut self, key: KeyPress) -> (acts: Vec<Action>)
        requires
            old(self).wf(),
        ensures
            final(self).wf(),
            modbus_connect_step(*old(self), *final(self), form_input(key, false), acts@),
    {
        let input = classify_form_key(key, false);
        self.modbus_connect_input(input)
    }

    fn modbus_connect_input(&mut self, input: FormInput) -> (acts: Vec<Action>)
        requires
            old(self).wf(),
        ensures
            final(self).wf(),
            modbus_connect_step(*old(self), *final(self), input, acts@),
    {
        match input {
            FormInput::Quit => {
                proof {
                    reveal(modbus_connect_step);
                }
                one(Action::Quit)
            },
            FormInput::Next => self.modbus_next(),
            FormInput::Prev => self.modbus_prev(),
            FormInput::Erase => self.modbus_erase(),
            FormInput::Submit => self.start_modbus(),
            FormInput::Back => self.go_back(),
            FormInput::Type(c) => self.modbus_type(c),
            _ => {
                proof {
                    reveal(modbus_connect_step);
                }
                Vec::new()
            },
        }
    }

    #[verifier::rlimit(60)]
    fn modbus_next(&mut self) -> (acts: Vec<Action>)
        requires
            old(self).wf(),
        ensures
            final(self).wf(),
            modbus_connect_step(*old(self), *final(self), FormInput::Next, acts@),
    {
        proof {
            reveal(modbus_connect_step);
        }
        self.modbus_form.next();
        Vec::new()
    }

    #[verifier::rlimit(60)]
    fn modbus_prev(&mut self) -> (acts: Vec<Action>)
        requires
            old(self).wf(),
        ensures
            final(self).wf(),
            modbus_connect_step(*old(self), *final(self), FormInput::Prev, acts@),
    {
        proof {
            reveal(modbus_connect_step);
        }
        self.modbus_form.prev();
        Vec::new()
    }

    #[verifier::rlimit(60)]
    fn modbus_erase(&mut self) -> (acts: Vec<Action>)
        requires
            old(self).wf(),
        ensures
            final(self).wf(),
            modbus_connect_step(*old(self), *final(self), FormInput::Erase, acts@),
    {
        proof {
            reveal(modbus_connect_step);
        }
        self.modbus_form.backspace();
        self.modbus_form.status = ConnectStatus::Idle;
        Vec::new()
    }

    #[verifier::rlimit(60)]
    fn modbus_type(&mut self, c: char) -> (acts: Vec<Action>)
        requires
            old(self).wf(),
        ensures
            final(self).wf(),
            modbus_connect_step(*old(self), *final(self), FormInput::Type(c), acts@),
    {
        proof {
            reveal(modbus_connect_step);
        }
        self.modbus_form.push(c);
        self.modbus_form.status = ConnectStatus::Idle;
        Vec::new()
    }

    /// Saves the settings and starts the MQTT source from the form.
    #[verifier::rlimit(100)]
    #[verifier::spinoff_prover]
    fn start_mqtt(&mut self) -> (acts: Vec<Action>)
        requires
            old(self).wf(),
        ensures
            final(self).wf(),
            *final(self) == (Controller {
                mode: AppMode::Connecting,
                mqtt_running: true,
                form: crate::mode::ConnectForm { status: ConnectStatus::Connecting, ..old(self).form },
                state: AppState {
                    subscribed_topics: final(self).state.subscribed_topics,
                    auto_select_first: old(self).initial_topics@.len() > 0,
                    mqtt_version: final(self).state.mqtt_version,
                    ..old(self).state
                },
                ..*old(self)
            }),
            strings(final(self).state.subscribed_topics@) == strings(old(self).initial_topics@),
            final(self).state.mqtt_version@ == crate::mode::mqtt_version_label(old(self).form.mqtt_version),
            acts@.len() == 2,
            acts@[0] matches Action::Save(cfg) && saved_from_mqtt_form(cfg, *old(self)),
            acts@[1] matches Action::StartMqtt(m) && mqtt_source_from(m, *old(self)),
            connect_step(*old(self), *final(self), FormInput::Submit, acts@),
    {
        proof {
            reveal(connect_step);
        }
        let cfg = SavedConfig {
            mqtt: crate::config::MqttConfig {
                host: self.form.host().to_owned(),
                port: self.form.port(),
                username: self.form.username().to_owned(),
                version: crate::config::version_string(self.form.mqtt_version),
                topics: strings_equal_view(&self.initial_topics),
            },
            modbus: modbus_section(&self.modbus_form),
            opcua: self.saved.opcua.copy(),
            iec104: self.saved.iec104.copy(),
            serial: self.saved.serial.copy(),
        };
        let suffix = random_hex_suffix();
        let source = config_from_form(&self.form, self.initial_topics.as_slice(), suffix.as_str());
        proof {
            reveal_strlit("pulse-tui-");
            assert(source.client_id@.take(10) =~= "pulse-tui-"@);
            assert(strings(source.topics@) =~= strings(self.initial_topics@));
        }
        self.state.subscribed_topics = strings_equal_view(&self.initial_topics);
        self.state.auto_select_first = self.initial_topics.len() > 0;
        self.state.mqtt_version = self.form.mqtt_version.label();
        self.form.status = ConnectStatus::Connecting;
        self.mqtt_running = true;
        self.mode = AppMode::Connecting;
        let mut acts: Vec<Action> = Vec::new();
        acts.push(Action::Save(cfg));
        acts.push(Action::StartMqtt(source));
        acts
    }

    /// Saves the settings and starts the Modbus source from the form.
    #[verifier::rlimit(100)]
    #[verifier::spinoff_prover]
    fn start_modbus(&mut self) -> (acts: Vec<Action>)
        requires
            old(self).wf(),
        ensures
            final(self).wf(),
            *final(self) == (Controller {
                mode: AppMode::ModbusConnecting,
                modbus_running: true,
                modbus_form: crate::mode::ModbusForm { status: ConnectStatus::Connecting, ..old(self).modbus_form },
                state: AppState {
                    mqtt_version: final(self).state.mqtt_version,
                    source_kind: SourceKind::ModbusTcp,
                    ..old(self).state
                },
                ..*old(self)
            }),
            final(self).state.mqtt_version@ == "Modbus TCP"@,
            acts@.len() == 2,
            acts@[0] matches Action::Save(cfg) && saved_from_modbus_form(cfg, *old(self)),
            acts@[1] matches Action::StartModbus(m) && modbus_source_from(m, old(self).modbus_form),
            modbus_connect_step(*old(self), *final(self), FormInput::Submit, acts@),
    {
        proof {
            reveal(modbus_connect_step);
        }
        let cfg = SavedConfig {
            mqtt: crate::config::MqttConfig {
                host: self.saved.mqtt.host.clone(),
                port: self.saved.mqtt.port,
                username: self.saved.mqtt.username.clone(),
                version: self.saved.mqtt.version.clone(),
                topics: strings_equal_view(&self.saved.mqtt.topics),
            },
            modbus: modbus_section(&self.modbus_form),
            opcua: self.saved.opcua.copy(),
            iec104: self.saved.iec104.copy(),
            serial: self.saved.serial.copy(),
        };
        let source = ModbusConfig::from_form(&self.modbus_form);
        self.state.mqtt_version = "Modbus TCP";
        self.state.source_kind = SourceKind::ModbusTcp;
        self.modbus_form.status = ConnectStatus::Connecting;
        self.modbus_running = true;
        self.mode = AppMode::ModbusConnecting;
        let mut acts: Vec<Action> = Vec::new();
        acts.push(Action::Save(cfg));
        acts.push(Action::StartModbus(source));
        acts
    }
}

} // verus!
