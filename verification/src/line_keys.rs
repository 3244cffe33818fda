//! Keys while an input line (subscribe, search, publish) or the question
//! whether to leave the monitor is open, and the trimming of typed text.

use vstd::prelude::*;

use crate::control::{Action, Controller, KeyCode, KeyMods, KeyPress, contains_text, ctrl_c, is_ctrl_c, is_plain, one, plain, strings_equal_view};
use crate::text::strings;
use crate::form_keys::erased;
use crate::mode::{AppMode, ConnectForm, ConnectStatus, ModbusForm, SourceKind};
use crate::mqtt::MqttCommand;
use crate::state::AppState;
use crate::text::{chars_of, string_from_chars};
use crate::ui::{char_is_whitespace, is_whitespace};

verus! {

// ── Text helpers ────────────────────────────────────────────────────────────

/// The index of the first character at or after `i` that is not white space.
pub open spec fn lead_from(s: Seq<char>, i: int) -> int
    decreases s.len() - i,
{
    if 0 <= i < s.len() && is_whitespace(s[i]) {
        lead_from(s, i + 1)
    } else {
        i
    }
}

/// One past the last character before `j` that is not white space.
pub open spec fn trail_to(s: Seq<char>, j: int) -> int
    decreases j,
{
    if 0 < j <= s.len() && is_whitespace(s[j - 1]) {
        trail_to(s, j - 1)
    } else {
        j
    }
}

/// `s` without white space at either end, as `str::trim` gives it.
pub open spec fn trimmed(s: Seq<char>) -> Seq<char> {
    let a = lead_from(s, 0);
    if a >= s.len() {
        Seq::empty()
    } else {
        s.subrange(a, trail_to(s, s.len() as int))
    }
}

proof fn lemma_lead_trail(s: Seq<char>, i: int, j: int)
    requires
        0 <= i <= s.len(),
        0 <= j <= s.len(),
    ensures
        i <= lead_from(s, i) <= s.len(),
        0 <= trail_to(s, j) <= j,
        lead_from(s, i) < s.len() ==> !is_whitespace(s[lead_from(s, i)]),
        trail_to(s, j) > 0 ==> !is_whitespace(s[trail_to(s, j) - 1]),
    decreases s.len() - i + j,
{
    if i < s.len() && is_whitespace(s[i]) {
        lemma_lead_trail(s, i + 1, j);
    }
    if 0 < j && is_whitespace(s[j - 1]) {
        lemma_lead_trail(s, i, j - 1);
    }
}

proof fn lemma_trail_after_lead(s: Seq<char>, j: int)
    requires
        0 <= j <= s.len(),
        lead_from(s, 0) < j,
    ensures
        lead_from(s, 0) < trail_to(s, j),
    decreases j,
{
    lemma_lead_trail(s, 0, j);
    if 0 < j && is_whitespace(s[j - 1]) {
        if j - 1 == lead_from(s, 0) {
            lemma_lead_trail(s, 0, 0);
        } else {
            lemma_trail_after_lead(s, j - 1);
        }
    }
}

/// `str::trim`, written out.
pub fn trim_text(t: &str) -> (r: String)
    ensures
        r@ == trimmed(t@),
{
    let v = chars_of(t);
    let n = v.len();
    let mut a: usize = 0;
    while a < n && char_is_whitespace(v[a])
        invariant
            v@ == t@,
            n == v@.len(),
            a <= n,
            lead_from(v@, a as int) == lead_from(v@, 0),
        decreases n - a,
    {
        a = a + 1;
    }
    if a >= n {
        return String::new();
    }
    let mut b: usize = n;
    while b > 0 && char_is_whitespace(v[b - 1])
        invariant
            v@ == t@,
            n == v@.len(),
            b <= n,
            trail_to(v@, b as int) == trail_to(v@, n as int),
        decreases b,
    {
        b = b - 1;
    }
    proof {
        lemma_trail_after_lead(v@, n as int);
    }
    let mut piece: Vec<char> = Vec::new();
    let mut k = a;
    while k < b
        invariant
            a <= k <= b <= v@.len(),
            piece@ == v@.subrange(a as int, k as int),
        decreases b - k,
    {
        piece.push(v[k]);
        assert(piece@ =~= v@.subrange(a as int, k + 1));
        k = k + 1;
    }
    string_from_chars(&piece)
}

// ── Input lines: subscribe, search, publish ─────────────────────────────────

/// What a key means while an input line is open.
#[derive(Debug, Clone, Copy, PartialEq, Eq, Structural)]
pub enum LineInput {
    Quit,
    /// Esc
    Cancel,
    /// Enter
    Submit,
    /// Backspace
    Erase,
    Type(char),
    Ignore,
}

/// Characters are typed with or without Shift.
pub open spec fn line_input(key: KeyPress) -> LineInput {
    if ctrl_c(key) {
        LineInput::Quit
    } else if plain(key, KeyCode::Esc) {
        LineInput::Cancel
    } else if plain(key, KeyCode::Enter) {
        LineInput::Submit
    } else if plain(key, KeyCode::Backspace) {
        LineInput::Erase
    } else if (key.mods == KeyMods::Plain || key.mods == KeyMods::Shift) && key.code is Char {
        LineInput::Type(key.code->0)
    } else {
        LineInput::Ignore
    }
}

pub fn classify_line_key(key: KeyPress) -> (r: LineInput)
    ensures
        r == line_input(key),
{
    if is_ctrl_c(key) {
        return LineInput::Quit;
    }
    if is_plain(key, KeyCode::Esc) {
        return LineInput::Cancel;
    }
    if is_plain(key, KeyCode::Enter) {
        return LineInput::Submit;
    }
    if is_plain(key, KeyCode::Backspace) {
        return LineInput::Erase;
    }
    if key.mods == KeyMods::Plain || key.mods == KeyMods::Shift {
        if let KeyCode::Char(c) = key.code {
            return LineInput::Type(c);
        }
    }
    LineInput::Ignore
}

/// What Enter on the subscribe line does: a non-empty (trimmed) topic is
/// subscribed to on an MQTT source, and added to the saved topics when it
/// is new; the line closes either way.
#[verifier::opaque]
pub open spec fn subscribe_submitted(old: Controller, new: Controller, acts: Seq<Action>) -> bool {
    let topic = trimmed(old.state.subscribe_input@);
    let take = topic.len() > 0 && old.state.source_kind == SourceKind::Mqtt;
    let fresh = !strings(old.state.subscribed_topics@).contains(topic);
    &&& new == (Controller {
        state: AppState {
            subscribe_mode: false,
            subscribe_input: new.state.subscribe_input,
            subscribed_topics: new.state.subscribed_topics,
            ..old.state
        },
        ..old
    })
    &&& new.state.subscribe_input@.len() == 0
    &&& strings(new.state.subscribed_topics@) == if take && fresh {
        strings(old.state.subscribed_topics@).push(topic)
    } else {
        strings(old.state.subscribed_topics@)
    }
    &&& acts.len() == (if take && old.mqtt_running { 1int } else { 0int }) + (if take && fresh { 1int } else { 0int })
    &&& take && old.mqtt_running ==> (acts[0] matches Action::SendMqtt(MqttCommand::Subscribe(t)) && t@ == topic)
    &&& take && fresh ==> (acts.last() matches Action::SaveTopics(v) && strings(v@) == strings(new.state.subscribed_topics@))
}

#[verifier::opaque]
pub open spec fn subscribe_step(old: Controller, new: Controller, input: LineInput, acts: Seq<Action>) -> bool {
    match input {
        LineInput::Quit => new == old && acts == seq![Action::Quit],
        LineInput::Cancel => acts.len() == 0 && new == (Controller {
            state: AppState { subscribe_mode: false, subscribe_input: new.state.subscribe_input, ..old.state },
            ..old
        }) && new.state.subscribe_input@.len() == 0,
        LineInput::Submit => subscribe_submitted(old, new, acts),
        LineInput::Erase => acts.len() == 0 && new == (Controller {
            state: AppState { subscribe_input: new.state.subscribe_input, ..old.state },
            ..old
        }) && new.state.subscribe_input@ == erased(old.state.subscribe_input@),
        LineInput::Type(c) => acts.len() == 0 && new == (Controller {
            state: AppState { subscribe_input: new.state.subscribe_input, ..old.state },
            ..old
        }) && new.state.subscribe_input@ == old.state.subscribe_input@.push(c),
        LineInput::Ignore => acts.len() == 0 && new == old,
    }
}

#[verifier::opaque]
pub open spec fn search_step(old: Controller, new: Controller, input: LineInput, acts: Seq<Action>) -> bool {
    match input {
        LineInput::Quit => new == old && acts == seq![Action::Quit],
        LineInput::Cancel => acts.len() == 0 && new == (Controller {
            state: AppState { search_mode: false, search_query: new.state.search_query, ..old.state },
            ..old
        }) && new.state.search_query@.len() == 0,
        LineInput::Submit => acts.len() == 0 && new == (Controller {
            state: AppState { search_mode: false, ..old.state },
            ..old
        }),
        LineInput::Erase => acts.len() == 0 && new == (Controller {
            state: AppState { search_query: new.state.search_query, ..old.state },
            ..old
        }) && new.state.search_query@ == erased(old.state.search_query@),
        LineInput::Type(c) => acts.len() == 0 && new == (Controller {
            state: AppState { search_query: new.state.search_query, ..old.state },
            ..old
        }) && new.state.search_query@ == old.state.search_query@.push(c),
        LineInput::Ignore => acts.len() == 0 && new == old,
    }
}

/// What Enter on the publish line does: the trimmed text is published to
/// the focused topic (when the MQTT source runs); the line closes either way.
#[verifier::opaque]
pub open spec fn publish_submitted(old: Controller, new: Controller, acts: Seq<Action>) -> bool {
    &&& new == (Controller {
        state: AppState { publish_mode: false, publish_input: new.state.publish_input, ..old.state },
        ..old
    })
    &&& new.state.publish_input@.len() == 0
    &&& match old.state.selected_topic() {
        Some(t) => if old.mqtt_running {
            acts.len() == 1 && (acts[0] matches Action::SendMqtt(MqttCommand::Publish { topic, payload })
                && topic@ == t.name@ && payload@ == trimmed(old.state.publish_input@))
        } else {
            acts.len() == 0
        },
        None => acts.len() == 0,
    }
}

#[verifier::opaque]
pub open spec fn publish_step(old: Controller, new: Controller, input: LineInput, acts: Seq<Action>) -> bool {
    match input {
        LineInput::Quit => new == old && acts == seq![Action::Quit],
        LineInput::Cancel => acts.len() == 0 && new == (Controller {
            state: AppState { publish_mode: false, publish_input: new.state.publish_input, ..old.state },
            ..old
        }) && new.state.publish_input@.len() == 0,
        LineInput::Submit => publish_submitted(old, new, acts),
        LineInput::Erase => acts.len() == 0 && new == (Controller {
            state: AppState { publish_input: new.state.publish_input, ..old.state },
            ..old
        }) && new.state.publish_input@ == erased(old.state.publish_input@),
        LineInput::Type(c) => acts.len() == 0 && new == (Controller {
            state: AppState { publish_input: new.state.publish_input, ..old.state },
            ..old
        }) && new.state.publish_input@ == old.state.publish_input@.push(c),
        LineInput::Ignore => acts.len() == 0 && new == old,
    }
}

impl Controller {
    /// Keys while the subscribe line is open.
    pub fn subscribe_key(&mut self, key: KeyPress) -> (acts: Vec<Action>)
        requires
            old(self).wf(),
        ensures
            final(self).wf(),
            subscribe_step(*old(self), *final(self), line_input(key), acts@),
    {
        match classify_line_key(key) {
            LineInput::Quit => {
                proof {
                    reveal(subscribe_step);
                }
                one(Action::Quit)
            },
            LineInput::Cancel => self.subscribe_cancel(),
            LineInput::Submit => {
                let acts = self.subscribe_submit();
                proof {
                    reveal(subscribe_step);
                }
                acts
            },
            LineInput::Erase => self.subscribe_erase(),
            LineInput::Type(c) => self.subscribe_type(c),
            LineInput::Ignore => {
                proof {
                    reveal(subscribe_step);
                }
                Vec::new()
            },
        }
    }

    #[verifier::rlimit(60)]
    pub(crate) fn subscribe_cancel(&mut self) -> (acts: Vec<Action>)
        requires
            old(self).wf(),
        ensures
            final(self).wf(),
            subscribe_step(*old(self), *final(self), LineInput::Cancel, acts@),
    {
        proof {
            reveal(subscribe_step);
        }
        self.state.subscribe_mode = false;
        self.state.subscribe_input = String::new();
        Vec::new()
    }

    #[verifier::rlimit(60)]
    pub(crate) fn subscribe_erase(&mut self) -> (acts: Vec<Action>)
        requires
            old(self).wf(),
        ensures
            final(self).wf(),
            subscribe_step(*old(self), *final(self), LineInput::Erase, acts@),
    {
        proof {
            reveal(subscribe_step);
        }
        crate::text::string_pop(&mut self.state.subscribe_input);
        Vec::new()
    }

    #[verifier::rlimit(60)]
    pub(crate) fn subscribe_type(&mut self, c: char) -> (acts: Vec<Action>)
        requires
            old(self).wf(),
        ensures
            final(self).wf(),
            subscribe_step(*old(self), *final(self), LineInput::Type(c), acts@),
    {
        proof {
            reveal(subscribe_step);
        }
        crate::text::string_push(&mut self.state.subscribe_input, c);
        Vec::new()
    }

    #[verifier::rlimit(60)]
    fn subscribe_submit(&mut self) -> (acts: Vec<Action>)
        requires
            old(self).wf(),
        ensures
            final(self).wf(),
            subscribe_submitted(*old(self), *final(self), acts@),
    {
        let mut topics: Vec<String> = Vec::new();
        std::mem::swap(&mut topics, &mut self.state.subscribed_topics);
        let (acts, topics) = subscribe_plan(
            self.state.subscribe_input.as_str(),
            self.state.source_kind == SourceKind::Mqtt,
            self.mqtt_running,
            topics,
        );
        self.state.subscribed_topics = topics;
        self.state.subscribe_mode = false;
        self.state.subscribe_input = String::new();
        proof {
            reveal(subscribe_submitted);
        }
        acts
    }

    /// Keys while the search line is open: Esc drops the query, Enter keeps it.
    pub fn search_key(&mut self, key: KeyPress) -> (acts: Vec<Action>)
        requires
            old(self).wf(),
        ensures
            final(self).wf(),
            search_step(*old(self), *final(self), line_input(key), acts@),
    {
        let input = classify_line_key(key);
        match input {
            LineInput::Quit => {
                proof {
                    reveal(search_step);
                }
                one(Action::Quit)
            },
            LineInput::Ignore => {
                proof {
                    reveal(search_step);
                }
                Vec::new()
            },
            _ => self.search_edit(input),
        }
    }

    fn search_edit(&mut self, input: LineInput) -> (acts: Vec<Action>)
        requires
            old(self).wf(),
            !(input is Quit || input is Ignore),
        ensures
            final(self).wf(),
            search_step(*old(self), *final(self), input, acts@),
    {
        match input {
            LineInput::Cancel => self.search_close(true),
            LineInput::Submit => self.search_close(false),
            LineInput::Erase => self.search_erase(),
            LineInput::Type(c) => self.search_type(c),
            _ => Vec::new(),
        }
    }

    #[verifier::rlimit(60)]
    fn search_close(&mut self, clear: bool) -> (acts: Vec<Action>)
        requires
            old(self).wf(),
        ensures
            final(self).wf(),
            search_step(*old(self), *final(self), if clear { LineInput::Cancel } else { LineInput::Submit }, acts@),
    {
        proof {
            reveal(search_step);
        }
        self.state.exit_search(clear);
        Vec::new()
    }

    #[verifier::rlimit(60)]
    fn search_erase(&mut self) -> (acts: Vec<Action>)
        requires
            old(self).wf(),
        ensures
            final(self).wf(),
            search_step(*old(self), *final(self), LineInput::Erase, acts@),
    {
        proof {
            reveal(search_step);
        }
        self.state.backspace_search();
        Vec::new()
    }

    #[verifier::rlimit(60)]
    fn search_type(&mut self, c: char) -> (acts: Vec<Action>)
        requires
            old(self).wf(),
        ensures
            final(self).wf(),
            search_step(*old(self), *final(self), LineInput::Type(c), acts@),
    {
        proof {
            reveal(search_step);
        }
        self.state.push_search(c);
        Vec::new()
    }

    /// Keys while the publish line is open.
    pub fn publish_key(&mut self, key: KeyPress) -> (acts: Vec<Action>)
        requires
            old(self).wf(),
        ensures
            final(self).wf(),
            publish_step(*old(self), *final(self), line_input(key), acts@),
    {
        match classify_line_key(key) {
            LineInput::Quit => {
                proof {
                    reveal(publish_step);
                }
                one(Action::Quit)
            },
            LineInput::Cancel => self.publish_cancel(),
            LineInput::Submit => {
                let acts = self.publish_submit();
                proof {
                    reveal(publish_step);
                }
                acts
            },
            LineInput::Erase => self.publish_erase(),
            LineInput::Type(c) => self.publish_type(c),
            LineInput::Ignore => {
                proof {
                    reveal(publish_step);
                }
                Vec::new()
            },
        }
    }

    #[verifier::rlimit(60)]
    fn publish_cancel(&mut self) -> (acts: Vec<Action>)
        requires
            old(self).wf(),
        ensures
            final(self).wf(),
            publish_step(*old(self), *final(self), LineInput::Cancel, acts@),
    {
        proof {
            reveal(publish_step);
        }
        self.state.publish_mode = false;
        self.state.publish_input = String::new();
        Vec::new()
    }

    #[verifier::rlimit(60)]
    fn publish_erase(&mut self) -> (acts: Vec<Action>)
        requires
            old(self).wf(),
        ensures
            final(self).wf(),
            publish_step(*old(self), *final(self), LineInput::Erase, acts@),
    {
        proof {
            reveal(publish_step);
        }
        crate::text::string_pop(&mut self.state.publish_input);
        Vec::new()
    }

    #[verifier::rlimit(60)]
    fn publish_type(&mut self, c: char) -> (acts: Vec<Action>)
        requires
            old(self).wf(),
        ensures
            final(self).wf(),
            publish_step(*old(self), *final(self), LineInput::Type(c), acts@),
    {
        proof {
            reveal(publish_step);
        }
        crate::text::string_push(&mut self.state.publish_input, c);
        Vec::new()
    }

    #[verifier::rlimit(60)]
    fn publish_submit(&mut self) -> (acts: Vec<Action>)
        requires
            old(self).wf(),
        ensures
            final(self).wf(),
            publish_submitted(*old(self), *final(self), acts@),
    {
        let acts = publish_plan(self.state.selected_topic_name(), self.state.publish_input.as_str(), self.mqtt_running);
        self.state.publish_mode = false;
        self.state.publish_input = String::new();
        proof {
            reveal(publish_submitted);
        }
        acts
    }
}

// ── Leaving the monitor ─────────────────────────────────────────────────────

#[derive(Debug, Clone, Copy, PartialEq, Eq, Structural)]
pub enum ConfirmInput {
    Quit,
    /// y or Enter: disconnect and go back.
    Leave,
    /// Any other key closes the question.
    Stay,
}

pub open spec fn confirm_input(key: KeyPress) -> ConfirmInput {
    if ctrl_c(key) {
        ConfirmInput::Quit
    } else if plain(key, KeyCode::Char('y')) || plain(key, KeyCode::Enter) {
        ConfirmInput::Leave
    } else {
        ConfirmInput::Stay
    }
}

#[verifier::opaque]
pub open spec fn confirm_step(old: Controller, new: Controller, input: ConfirmInput, acts: Seq<Action>) -> bool {
    match input {
        ConfirmInput::Quit => new == old && acts == seq![Action::Quit],
        ConfirmInput::Leave => {
            &&& new == (Controller {
                mode: AppMode::SourceSelect,
                state: new.state,
                mqtt_running: false,
                modbus_running: false,
                form: ConnectForm { status: ConnectStatus::Idle, ..old.form },
                modbus_form: ModbusForm { status: ConnectStatus::Idle, ..old.modbus_form },
                ..old
            })
            &&& new.state.is_initial()
            &&& acts == (if old.mqtt_running { seq![Action::StopMqtt] } else { Seq::empty() }) + (if old.modbus_running {
                seq![Action::StopModbus]
            } else {
                Seq::empty()
            })
        },
        ConfirmInput::Stay => acts.len() == 0 && new == (Controller {
            state: AppState { confirm_back: false, ..old.state },
            ..old
        }),
    }
}

impl Controller {
    /// Keys while the monitor asks whether to disconnect and go back.
    pub fn confirm_key(&mut self, key: KeyPress) -> (acts: Vec<Action>)
        requires
            old(self).wf(),
        ensures
            final(self).wf(),
            confirm_step(*old(self), *final(self), confirm_input(key), acts@),
    {
        if is_ctrl_c(key) {
            proof {
                reveal(confirm_step);
            }
            return one(Action::Quit);
        }
        if is_plain(key, KeyCode::Char('y')) || is_plain(key, KeyCode::Enter) {
            return self.leave_monitor();
        }
        self.stay_on_monitor()
    }

    #[verifier::rlimit(60)]
    fn stay_on_monitor(&mut self) -> (acts: Vec<Action>)
        requires
            old(self).wf(),
        ensures
            final(self).wf(),
            confirm_step(*old(self), *final(self), ConfirmInput::Stay, acts@),
    {
        proof {
            reveal(confirm_step);
        }
        self.state.confirm_back = false;
        Vec::new()
    }

    fn leave_monitor(&mut self) -> (acts: Vec<Action>)
        requires
            old(self).wf(),
        ensures
            final(self).wf(),
            confirm_step(*old(self), *final(self), ConfirmInput::Leave, acts@),
    {
        let acts = stop_actions(self.mqtt_running, self.modbus_running);
        self.mqtt_running = false;
        self.modbus_running = false;
        self.state = AppState::new_state();
        self.mode = AppMode::SourceSelect;
        self.form.status = ConnectStatus::Idle;
        self.modbus_form.status = ConnectStatus::Idle;
        proof {
            reveal(confirm_step);
        }
        acts
    }
}

/// What Enter on the subscribe line sends and keeps, from the typed text,
/// whether the source is MQTT and runs, and the subscribed topics.
fn subscribe_plan(input: &str, mqtt: bool, running: bool, topics: Vec<String>) -> (r: (Vec<Action>, Vec<String>))
    ensures
        ({
            let topic = trimmed(input@);
            let take = topic.len() > 0 && mqtt;
            let fresh = !strings(topics@).contains(topic);
            &&& strings(r.1@) == if take && fresh { strings(topics@).push(topic) } else { strings(topics@) }
            &&& r.0@.len() == (if take && running { 1int } else { 0int }) + (if take && fresh { 1int } else { 0int })
            &&& take && running ==> (r.0@[0] matches Action::SendMqtt(MqttCommand::Subscribe(t)) && t@ == topic)
            &&& take && fresh ==> (r.0@.last() matches Action::SaveTopics(v) && strings(v@) == strings(r.1@))
        }),
{
    let topic = trim_text(input);
    let mut acts: Vec<Action> = Vec::new();
    let mut topics = topics;
    if !topic.as_str().is_empty() && mqtt {
        if running {
            acts.push(Action::SendMqtt(MqttCommand::Subscribe(topic.clone())));
        }
        if !contains_text(&topics, topic.as_str()) {
            let ghost before = strings(topics@);
            let ghost t = topic@;
            topics.push(topic);
            assert(strings(topics@) =~= before.push(t));
            acts.push(Action::SaveTopics(strings_equal_view(&topics)));
        }
    }
    (acts, topics)
}

/// What Enter on the publish line sends: the trimmed text to the focused
/// topic, when there is one and the source runs.
fn publish_plan(topic: Option<&str>, input: &str, running: bool) -> (acts: Vec<Action>)
    ensures
        match topic {
            Some(t) => if running {
                acts@.len() == 1 && (acts@[0] matches Action::SendMqtt(MqttCommand::Publish { topic, payload })
                    && topic@ == t@ && payload@ == trimmed(input@))
            } else {
                acts@.len() == 0
            },
            None => acts@.len() == 0,
        },
{
    let mut acts: Vec<Action> = Vec::new();
    if let Some(t) = topic {
        if running {
            acts.push(Action::SendMqtt(MqttCommand::Publish { topic: t.to_owned(), payload: trim_text(input) }));
        }
    }
    acts
}

/// The requests that stop the running sources.
fn stop_actions(mqtt: bool, modbus: bool) -> (acts: Vec<Action>)
    ensures
        acts@ == (if mqtt { seq![Action::StopMqtt] } else { Seq::empty() }) + (if modbus {
            seq![Action::StopModbus]
        } else {
            Seq::empty()
        }),
{
    let mut acts: Vec<Action> = Vec::new();
    if mqtt {
        acts.push(Action::StopMqtt);
    }
    if modbus {
        acts.push(Action::StopModbus);
    }
    assert(acts@ =~= (if mqtt { seq![Action::StopMqtt] } else { Seq::empty() }) + (if modbus {
        seq![Action::StopModbus]
    } else {
        Seq::empty()
    }));
    acts
}

} // verus!
