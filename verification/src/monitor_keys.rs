//! Keys on the MQTT monitor when no input line or dialog is open.

use vstd::prelude::*;

use crate::control::{Action, Controller, KeyCode, KeyPress, ctrl_c, is_ctrl_c, is_plain, one, plain, strings_equal_view};
use crate::text::strings;
use crate::mode::SourceKind;
use crate::mqtt::MqttCommand;
use crate::state::{AppState, cursor_after_next, cursor_after_prev, selection_after_delete, without_string, without_topic};
use crate::ui::Panel;

verus! {

// ── What the monitor's AppState methods give ────────────────────────────────

pub open spec fn after_topic_next(s: AppState) -> AppState {
    if s.topics@.len() == 0 {
        s
    } else {
        AppState {
            selected_topic_idx: Some(match s.selected_topic_idx {
                None => 0usize,
                Some(i) => if i + 1 < s.topics@.len() { (i + 1) as usize } else { (s.topics@.len() - 1) as usize },
            }),
            msg_cursor: None,
            ..s
        }
    }
}

pub open spec fn after_topic_prev(s: AppState) -> AppState {
    AppState {
        selected_topic_idx: match s.selected_topic_idx {
            None => None,
            Some(i) => if i == 0 { None } else { Some((i - 1) as usize) },
        },
        msg_cursor: None,
        ..s
    }
}

pub open spec fn after_msg_prev(s: AppState) -> AppState {
    AppState { msg_cursor: cursor_after_prev(s.msg_cursor, s.visible_messages().len()), ..s }
}

pub open spec fn after_msg_next(s: AppState) -> AppState {
    AppState { msg_cursor: cursor_after_next(s.msg_cursor, s.visible_messages().len()), ..s }
}

pub open spec fn after_yank_enter(s: AppState) -> AppState {
    if s.msg_cursor is None && s.visible_messages().len() == 0 {
        s
    } else {
        AppState {
            msg_cursor: match s.msg_cursor {
                Some(i) => Some(i),
                None => Some((s.visible_messages().len() - 1) as usize),
            },
            yank_mode: true,
            yank_start: 0,
            yank_cursor: 0,
            ..s
        }
    }
}

/// What `AppState::delete_selected_topic` does.
pub open spec fn topic_deleted(old: AppState, new: AppState, r: Option<String>) -> bool {
    match old.selected_topic() {
        None => r is None && new == old,
        Some(t) => {
            let idx = old.selected_topic_idx->0;
            &&& r matches Some(name) && name@ == t.name@
            &&& new == (AppState {
                topics: new.topics,
                messages: new.messages,
                subscribed_topics: new.subscribed_topics,
                selected_topic_idx: new.selected_topic_idx,
                msg_cursor: None,
                ..old
            })
            &&& new.topics@ == old.topics@.remove(idx as int)
            &&& new.messages@ == without_topic(old.messages@, t.name@)
            &&& new.subscribed_topics@ == without_string(old.subscribed_topics@, t.name@)
            &&& new.selected_topic_idx == selection_after_delete(idx as nat, new.topics@.len())
        },
    }
}

// ── The monitor screen ──────────────────────────────────────────────────────

/// What a key means on the MQTT monitor when no input line or dialog is open.
#[derive(Debug, Clone, Copy, PartialEq, Eq, Structural)]
pub enum MonitorInput {
    Quit,
    /// Esc: drop the topic filter, or ask whether to go back.
    Escape,
    /// Tab: move the focus to the other panel.
    SwitchPanel,
    Up,
    Down,
    Pause,
    Search,
    Subscribe,
    Publish,
    Yank,
    Delete,
    ClearError,
    Ignore,
}

/// `s` opens the subscribe line and `p` the publish line only for an MQTT
/// source (`p` and `d` only with a topic focused, `d` only in the topic
/// panel); `y` enters yank mode only while paused (checked on use).
pub open spec fn monitor_input(key: KeyPress, c: Controller) -> MonitorInput {
    let mqtt = c.state.source_kind == SourceKind::Mqtt;
    let focused = c.state.selected_topic_idx is Some;
    if ctrl_c(key) || plain(key, KeyCode::Char('q')) {
        MonitorInput::Quit
    } else if plain(key, KeyCode::Esc) {
        MonitorInput::Escape
    } else if plain(key, KeyCode::Tab) {
        MonitorInput::SwitchPanel
    } else if plain(key, KeyCode::Up) {
        MonitorInput::Up
    } else if plain(key, KeyCode::Down) {
        MonitorInput::Down
    } else if plain(key, KeyCode::Char(' ')) {
        MonitorInput::Pause
    } else if plain(key, KeyCode::Char('/')) {
        MonitorInput::Search
    } else if plain(key, KeyCode::Char('s')) && mqtt {
        MonitorInput::Subscribe
    } else if plain(key, KeyCode::Char('p')) && focused && mqtt {
        MonitorInput::Publish
    } else if plain(key, KeyCode::Char('y')) {
        MonitorInput::Yank
    } else if plain(key, KeyCode::Char('d')) && c.active_panel == Panel::Topics && focused && mqtt {
        MonitorInput::Delete
    } else if plain(key, KeyCode::Char('c')) {
        MonitorInput::ClearError
    } else {
        MonitorInput::Ignore
    }
}

#[verifier::opaque]
pub open spec fn monitor_step(old: Controller, new: Controller, input: MonitorInput, acts: Seq<Action>) -> bool {
    match input {
        MonitorInput::Quit => new == old && acts == seq![Action::Quit],
        MonitorInput::Escape => acts.len() == 0 && new == (Controller {
            state: if old.state.selected_topic_idx is Some {
                AppState { selected_topic_idx: None, msg_cursor: None, ..old.state }
            } else {
                AppState { confirm_back: true, ..old.state }
            },
            ..old
        }),
        MonitorInput::SwitchPanel => acts.len() == 0 && new == (Controller {
            active_panel: crate::ui::other_panel(old.active_panel),
            ..old
        }),
        MonitorInput::Up => acts.len() == 0 && new == (Controller {
            state: if old.active_panel == Panel::Topics { after_topic_prev(old.state) } else { after_msg_prev(old.state) },
            ..old
        }),
        MonitorInput::Down => acts.len() == 0 && new == (Controller {
            state: if old.active_panel == Panel::Topics { after_topic_next(old.state) } else { after_msg_next(old.state) },
            ..old
        }),
        MonitorInput::Pause => acts.len() == 0 && new == (Controller {
            state: AppState { paused: !old.state.paused, ..old.state },
            ..old
        }),
        MonitorInput::Search => acts.len() == 0 && new == (Controller {
            state: AppState { search_mode: true, ..old.state },
            ..old
        }),
        MonitorInput::Subscribe => acts.len() == 0 && new == (Controller {
            state: AppState { subscribe_mode: true, ..old.state },
            ..old
        }),
        MonitorInput::Publish => acts.len() == 0 && new == (Controller {
            state: AppState { publish_mode: true, publish_input: new.state.publish_input, ..old.state },
            ..old
        }) && new.state.publish_input@.len() == 0,
        MonitorInput::Yank => acts.len() == 0 && new == (Controller {
            state: if old.state.paused { after_yank_enter(old.state) } else { old.state },
            ..old
        }),
        MonitorInput::Delete => {
            &&& new == (Controller { state: new.state, ..old })
            &&& exists|r: Option<String>| {
                &&& #[trigger] topic_deleted(old.state, new.state, r)
                &&& match r {
                    None => acts.len() == 0,
                    Some(name) => {
                        &&& acts.len() == (if old.mqtt_running { 2int } else { 1int })
                        &&& old.mqtt_running ==> (acts[0] matches Action::SendMqtt(MqttCommand::Unsubscribe(t)) && t@ == name@)
                        &&& acts.last() matches Action::SaveTopics(v) && strings(v@) == strings(new.state.subscribed_topics@)
                    },
                }
            }
        },
        MonitorInput::ClearError => acts.len() == 0 && new == (Controller {
            state: AppState { last_error: None, ..old.state },
            ..old
        }),
        MonitorInput::Ignore => acts.len() == 0 && new == old,
    }
}

pub fn classify_monitor_key(key: KeyPress, c: &Controller) -> (r: MonitorInput)
    ensures
        r == monitor_input(key, *c),
{
    let mqtt = c.state.source_kind == SourceKind::Mqtt;
    let focused = c.state.selected_topic_idx.is_some();
    if is_ctrl_c(key) || is_plain(key, KeyCode::Char('q')) {
        MonitorInput::Quit
    } else if is_plain(key, KeyCode::Esc) {
        MonitorInput::Escape
    } else if is_plain(key, KeyCode::Tab) {
        MonitorInput::SwitchPanel
    } else if is_plain(key, KeyCode::Up) {
        MonitorInput::Up
    } else if is_plain(key, KeyCode::Down) {
        MonitorInput::Down
    } else if is_plain(key, KeyCode::Char(' ')) {
        MonitorInput::Pause
    } else if is_plain(key, KeyCode::Char('/')) {
        MonitorInput::Search
    } else if is_plain(key, KeyCode::Char('s')) && mqtt {
        MonitorInput::Subscribe
    } else if is_plain(key, KeyCode::Char('p')) && focused && mqtt {
        MonitorInput::Publish
    } else if is_plain(key, KeyCode::Char('y')) {
        MonitorInput::Yank
    } else if is_plain(key, KeyCode::Char('d')) && c.active_panel == Panel::Topics && focused && mqtt {
        MonitorInput::Delete
    } else if is_plain(key, KeyCode::Char('c')) {
        MonitorInput::ClearError
    } else {
        MonitorInput::Ignore
    }
}

impl Controller {
    /// Keys on the MQTT monitor when no input line or dialog is open (see
    /// `monitor_input`).
    pub fn monitor_key(&mut self, key: KeyPress) -> (acts: Vec<Action>)
        requires
            old(self).wf(),
        ensures
            final(self).wf(),
            monitor_step(*old(self), *final(self), monitor_input(key, *old(self)), acts@),
    {
        let input = classify_monitor_key(key, self);
        match input {
            MonitorInput::Quit => {
                proof {
                    reveal(monitor_step);
                }
                one(Action::Quit)
            },
            MonitorInput::Escape => self.monitor_escape(),
            MonitorInput::SwitchPanel => self.switch_panel(),
            MonitorInput::Up => if self.active_panel == Panel::Topics {
                self.topic_up()
            } else {
                self.message_up()
            },
            MonitorInput::Down => if self.active_panel == Panel::Topics {
                self.topic_down()
            } else {
                self.message_down()
            },
            MonitorInput::Pause => self.pause(),
            MonitorInput::Search => self.open_search(),
            MonitorInput::Subscribe => self.open_subscribe(),
            MonitorInput::Publish => self.open_publish(),
            MonitorInput::Yank => if self.state.paused {
                self.open_yank()
            } else {
                proof {
                    reveal(monitor_step);
                }
                Vec::new()
            },
            MonitorInput::Delete => self.monitor_delete(),
            MonitorInput::ClearError => self.clear_error(),
            MonitorInput::Ignore => {
                proof {
                    reveal(monitor_step);
                }
                Vec::new()
            },
        }
    }

    fn monitor_escape(&mut self) -> (acts: Vec<Action>)
        requires
            old(self).wf(),
        ensures
            final(self).wf(),
            monitor_step(*old(self), *final(self), MonitorInput::Escape, acts@),
    {
        let focused = self.state.selected_topic_idx.is_some();
        let cursor = if focused { None } else { self.state.msg_cursor };
        let confirm = if focused { self.state.confirm_back } else { true };
        self.state.selected_topic_idx = None;
        self.state.msg_cursor = cursor;
        self.state.confirm_back = confirm;
        proof {
            reveal(monitor_step);
        }
        Vec::new()
    }

    fn switch_panel(&mut self) -> (acts: Vec<Action>)
        requires
            old(self).wf(),
        ensures
            final(self).wf(),
            monitor_step(*old(self), *final(self), MonitorInput::SwitchPanel, acts@),
    {
        self.active_panel = self.active_panel.toggle();
        proof {
            reveal(monitor_step);
        }
        Vec::new()
    }

    fn topic_up(&mut self) -> (acts: Vec<Action>)
        requires
            old(self).wf(),
            old(self).active_panel == Panel::Topics,
        ensures
            final(self).wf(),
            monitor_step(*old(self), *final(self), MonitorInput::Up, acts@),
    {
        self.state.select_topic_prev();
        proof {
            reveal(monitor_step);
        }
        Vec::new()
    }

    fn message_up(&mut self) -> (acts: Vec<Action>)
        requires
            old(self).wf(),
            old(self).active_panel != Panel::Topics,
        ensures
            final(self).wf(),
            monitor_step(*old(self), *final(self), MonitorInput::Up, acts@),
    {
        self.state.select_msg_prev();
        proof {
            reveal(monitor_step);
        }
        Vec::new()
    }

    fn topic_down(&mut self) -> (acts: Vec<Action>)
        requires
            old(self).wf(),
            old(self).active_panel == Panel::Topics,
        ensures
            final(self).wf(),
            monitor_step(*old(self), *final(self), MonitorInput::Down, acts@),
    {
        self.state.select_topic_next();
        proof {
            reveal(monitor_step);
        }
        Vec::new()
    }

    fn message_down(&mut self) -> (acts: Vec<Action>)
        requires
            old(self).wf(),
            old(self).active_panel != Panel::Topics,
        ensures
            final(self).wf(),
            monitor_step(*old(self), *final(self), MonitorInput::Down, acts@),
    {
        self.state.select_msg_next();
        proof {
            reveal(monitor_step);
        }
        Vec::new()
    }

    fn pause(&mut self) -> (acts: Vec<Action>)
        requires
            old(self).wf(),
        ensures
            final(self).wf(),
            monitor_step(*old(self), *final(self), MonitorInput::Pause, acts@),
    {
        self.state.paused = !self.state.paused;
        proof {
            reveal(monitor_step);
        }
        Vec::new()
    }

    fn open_search(&mut self) -> (acts: Vec<Action>)
        requires
            old(self).wf(),
        ensures
            final(self).wf(),
            monitor_step(*old(self), *final(self), MonitorInput::Search, acts@),
    {
        self.state.search_mode = true;
        proof {
            reveal(monitor_step);
        }
        Vec::new()
    }

    fn open_subscribe(&mut self) -> (acts: Vec<Action>)
        requires
            old(self).wf(),
        ensures
            final(self).wf(),
            monitor_step(*old(self), *final(self), MonitorInput::Subscribe, acts@),
    {
        self.state.subscribe_mode = true;
        proof {
            reveal(monitor_step);
        }
        Vec::new()
    }

    fn open_publish(&mut self) -> (acts: Vec<Action>)
        requires
            old(self).wf(),
        ensures
            final(self).wf(),
            monitor_step(*old(self), *final(self), MonitorInput::Publish, acts@),
    {
        self.state.publish_mode = true;
        self.state.publish_input = String::new();
        proof {
            reveal(monitor_step);
        }
        Vec::new()
    }

    fn open_yank(&mut self) -> (acts: Vec<Action>)
        requires
            old(self).wf(),
            old(self).state.paused,
        ensures
            final(self).wf(),
            monitor_step(*old(self), *final(self), MonitorInput::Yank, acts@),
    {
        self.state.enter_yank_mode();
        proof {
            reveal(monitor_step);
        }
        Vec::new()
    }

    fn clear_error(&mut self) -> (acts: Vec<Action>)
        requires
            old(self).wf(),
        ensures
            final(self).wf(),
            monitor_step(*old(self), *final(self), MonitorInput::ClearError, acts@),
    {
        self.state.last_error = None;
        proof {
            reveal(monitor_step);
        }
        Vec::new()
    }

    #[verifier::rlimit(80)]
    fn monitor_delete(&mut self) -> (acts: Vec<Action>)
        requires
            old(self).wf(),
        ensures
            final(self).wf(),
            monitor_step(*old(self), *final(self), MonitorInput::Delete, acts@),
    {
        let r = self.state.delete_selected_topic();
        let ghost rr = r;
        let acts = delete_actions(r, self.mqtt_running, &self.state.subscribed_topics);
        proof {
            reveal(monitor_step);
            assert(topic_deleted(old(self).state, self.state, rr));
        }
        acts
    }
}

/// What deleting a topic sends: the unsubscription (when the source runs)
/// and the topics to save.
fn delete_actions(r: Option<String>, running: bool, topics: &Vec<String>) -> (acts: Vec<Action>)
    ensures
        match r {
            None => acts@.len() == 0,
            Some(name) => {
                &&& acts@.len() == (if running { 2int } else { 1int })
                &&& running ==> (acts@[0] matches Action::SendMqtt(MqttCommand::Unsubscribe(t)) && t@ == name@)
                &&& acts@.last() matches Action::SaveTopics(v) && strings(v@) == strings(topics@)
            },
        },
{
    let mut acts: Vec<Action> = Vec::new();
    match r {
        None => {},
        Some(topic) => {
            if running {
                acts.push(Action::SendMqtt(MqttCommand::Unsubscribe(topic)));
            }
            acts.push(Action::SaveTopics(strings_equal_view(topics)));
        },
    }
    acts
}

} // verus!
