//! Keys in yank mode, where part of the selected message's payload is
//! picked (by byte offsets at character boundaries) and copied.

use vstd::prelude::*;
use vstd::utf8::{encode_utf8, is_char_boundary, valid_utf8};

use crate::control::{Action, Controller, KeyCode, KeyPress, ctrl_c, is_ctrl_c, is_plain, one, plain};
use crate::state::{AppState, utf8_bytes};

verus! {

/// What a key means in yank mode.
#[derive(Debug, Clone, Copy, PartialEq, Eq, Structural)]
pub enum YankInput {
    Quit,
    Cancel,
    /// Left: the selection end moves back one character.
    Left,
    /// Right: the selection end moves on one character.
    Right,
    /// Up: the previous message, selection reset.
    Up,
    /// Down: the next message, selection reset.
    Down,
    /// y: copy the selection and leave yank mode.
    Copy,
    Ignore,
}

pub open spec fn yank_input(key: KeyPress) -> YankInput {
    if ctrl_c(key) {
        YankInput::Quit
    } else if plain(key, KeyCode::Esc) {
        YankInput::Cancel
    } else if plain(key, KeyCode::Left) {
        YankInput::Left
    } else if plain(key, KeyCode::Right) {
        YankInput::Right
    } else if plain(key, KeyCode::Up) {
        YankInput::Up
    } else if plain(key, KeyCode::Down) {
        YankInput::Down
    } else if plain(key, KeyCode::Char('y')) {
        YankInput::Copy
    } else {
        YankInput::Ignore
    }
}

pub fn classify_yank_key(key: KeyPress) -> (r: YankInput)
    ensures
        r == yank_input(key),
{
    if is_ctrl_c(key) {
        YankInput::Quit
    } else if is_plain(key, KeyCode::Esc) {
        YankInput::Cancel
    } else if is_plain(key, KeyCode::Left) {
        YankInput::Left
    } else if is_plain(key, KeyCode::Right) {
        YankInput::Right
    } else if is_plain(key, KeyCode::Up) {
        YankInput::Up
    } else if is_plain(key, KeyCode::Down) {
        YankInput::Down
    } else if is_plain(key, KeyCode::Char('y')) {
        YankInput::Copy
    } else {
        YankInput::Ignore
    }
}

// ── Where the selection may be ──────────────────────────────────────────────

/// The selection end can move back: it is at the start or on a character
/// boundary of the selected payload.
pub open spec fn left_movable(s: AppState) -> bool {
    s.selected_message_spec() matches Some(m) ==> s.yank_cursor == 0 || is_char_boundary(
        encode_utf8(m.payload@),
        s.yank_cursor as int,
    )
}

/// The selection end can move on: it is at or past the end, or on a
/// character boundary.
pub open spec fn right_movable(s: AppState) -> bool {
    s.selected_message_spec() matches Some(m) ==> (s.yank_cursor >= encode_utf8(m.payload@).len() || is_char_boundary(
        encode_utf8(m.payload@),
        s.yank_cursor as int,
    ))
}

/// Both ends of the selection are at or past the end of the payload or on
/// character boundaries, so that the selection can be copied.
pub open spec fn copyable(s: AppState) -> bool {
    s.selected_message_spec() matches Some(m) ==> ({
        let b = encode_utf8(m.payload@);
        let lo = if s.yank_start < s.yank_cursor { s.yank_start } else { s.yank_cursor };
        let hi = if s.yank_start < s.yank_cursor { s.yank_cursor } else { s.yank_start };
        &&& (lo >= b.len() || is_char_boundary(b, lo as int))
        &&& (hi >= b.len() || is_char_boundary(b, hi as int))
    })
}

/// Whether offset `k` of the UTF-8 text `b` is the start, the end or a
/// character boundary.
fn on_boundary(b: &Vec<u8>, k: usize) -> (r: bool)
    requires
        valid_utf8(b@),
    ensures
        r == (k == 0 || k == b@.len() || (k < b@.len() && is_char_boundary(b@, k as int))),
{
    if k == 0 || k == b.len() {
        return true;
    }
    if k > b.len() {
        return false;
    }
    proof {
        vstd::utf8::is_char_boundary_iff_not_is_continuation_byte(b@, k as int);
    }
    !(b[k] >= 0x80 && b[k] <= 0xbf)
}

fn check_left(s: &AppState) -> (r: bool)
    ensures
        r == left_movable(*s),
{
    match s.selected_message() {
        None => true,
        Some(m) => {
            if s.yank_cursor == 0 {
                return true;
            }
            let b = utf8_bytes(m.payload.as_str());
            proof {
                vstd::utf8::encode_utf8_valid_utf8(m.payload@);
                vstd::utf8::is_char_boundary_start_end_of_seq(b@);
                if s.yank_cursor > b@.len() {
                    assert(!is_char_boundary(b@, s.yank_cursor as int));
                }
            }
            on_boundary(&b, s.yank_cursor)
        },
    }
}

fn check_right(s: &AppState) -> (r: bool)
    ensures
        r == right_movable(*s),
{
    match s.selected_message() {
        None => true,
        Some(m) => {
            let b = utf8_bytes(m.payload.as_str());
            if s.yank_cursor >= b.len() {
                return true;
            }
            proof {
                vstd::utf8::encode_utf8_valid_utf8(m.payload@);
                vstd::utf8::is_char_boundary_start_end_of_seq(b@);
            }
            on_boundary(&b, s.yank_cursor)
        },
    }
}

fn check_copy(s: &AppState) -> (r: bool)
    ensures
        r == copyable(*s),
{
    match s.selected_message() {
        None => true,
        Some(m) => {
            let b = utf8_bytes(m.payload.as_str());
            proof {
                vstd::utf8::encode_utf8_valid_utf8(m.payload@);
                vstd::utf8::is_char_boundary_start_end_of_seq(b@);
            }
            let lo = if s.yank_start < s.yank_cursor { s.yank_start } else { s.yank_cursor };
            let hi = if s.yank_start < s.yank_cursor { s.yank_cursor } else { s.yank_start };
            let lo_ok = lo >= b.len() || on_boundary(&b, lo);
            let hi_ok = hi >= b.len() || on_boundary(&b, hi);
            lo_ok && hi_ok
        },
    }
}

// ── What each key does ──────────────────────────────────────────────────────

/// What `AppState::yank_left` does (when the selection end can move back).
pub open spec fn moved_left(old: AppState, new: AppState) -> bool {
    match old.selected_message_spec() {
        Some(m) => if old.yank_cursor == 0 {
            new == old
        } else {
            &&& new == (AppState { yank_cursor: new.yank_cursor, ..old })
            &&& new.yank_cursor < old.yank_cursor
            &&& is_char_boundary(encode_utf8(m.payload@), new.yank_cursor as int)
            &&& forall|k: int| new.yank_cursor < k < old.yank_cursor ==> !is_char_boundary(encode_utf8(m.payload@), k)
        },
        None => new == old,
    }
}

/// What `AppState::yank_right` does (when the selection end can move on).
pub open spec fn moved_right(old: AppState, new: AppState) -> bool {
    match old.selected_message_spec() {
        Some(m) => if old.yank_cursor >= encode_utf8(m.payload@).len() {
            new == old
        } else {
            &&& new == (AppState { yank_cursor: new.yank_cursor, ..old })
            &&& old.yank_cursor < new.yank_cursor <= encode_utf8(m.payload@).len()
            &&& is_char_boundary(encode_utf8(m.payload@), new.yank_cursor as int)
            &&& forall|k: int| old.yank_cursor < k < new.yank_cursor ==> !is_char_boundary(encode_utf8(m.payload@), k)
        },
        None => new == old,
    }
}

/// The text `AppState::yank_text` gives: the selected bytes of the payload,
/// or the whole payload when the selection is empty.
pub open spec fn yanked(s: AppState, t: Seq<char>) -> bool {
    match s.selected_message_spec() {
        None => false,
        Some(m) => {
            let b = encode_utf8(m.payload@);
            let lo = if s.yank_start < s.yank_cursor { s.yank_start } else { s.yank_cursor };
            let hi = if s.yank_start < s.yank_cursor { s.yank_cursor } else { s.yank_start };
            let start = if lo < b.len() { lo as int } else { b.len() as int };
            let end = if hi < b.len() { hi as int } else { b.len() as int };
            if start == end { t == m.payload@ } else { encode_utf8(t) == b.subrange(start, end) }
        },
    }
}

/// The message cursor after Up in yank mode: one up, not past the first.
pub open spec fn yank_cursor_up(c: Option<usize>) -> Option<usize> {
    match c {
        Some(i) => if i > 0 { Some((i - 1) as usize) } else { Some(i) },
        None => None,
    }
}

/// The message cursor after Down in yank mode: one down, not past the last.
pub open spec fn yank_cursor_down(c: Option<usize>, count: nat) -> Option<usize> {
    match c {
        Some(i) => if i + 1 < count { Some((i + 1) as usize) } else { Some(i) },
        None => None,
    }
}

/// Moving the selection end needs it to be on a character boundary, which
/// the keys keep; where it is not (the selected message changed under it),
/// the key does nothing.
#[verifier::opaque]
pub open spec fn yank_step(old: Controller, new: Controller, input: YankInput, acts: Seq<Action>) -> bool {
    match input {
        YankInput::Quit => new == old && acts == seq![Action::Quit],
        YankInput::Cancel => acts.len() == 0 && new == (Controller {
            state: AppState { yank_mode: false, yank_start: 0, yank_cursor: 0, ..old.state },
            ..old
        }),
        YankInput::Left => {
            &&& acts.len() == 0
            &&& new == (Controller { state: new.state, ..old })
            &&& left_movable(old.state) ==> moved_left(old.state, new.state)
            &&& !left_movable(old.state) ==> new.state == old.state
        },
        YankInput::Right => {
            &&& acts.len() == 0
            &&& new == (Controller { state: new.state, ..old })
            &&& right_movable(old.state) ==> moved_right(old.state, new.state)
            &&& !right_movable(old.state) ==> new.state == old.state
        },
        YankInput::Up => {
            &&& acts.len() == 0
            &&& new == (Controller {
                state: AppState { msg_cursor: new.state.msg_cursor, yank_start: 0, yank_cursor: 0, ..old.state },
                ..old
            })
            &&& new.state.msg_cursor == yank_cursor_up(old.state.msg_cursor)
        },
        YankInput::Down => {
            &&& acts.len() == 0
            &&& new == (Controller {
                state: AppState { msg_cursor: new.state.msg_cursor, yank_start: 0, yank_cursor: 0, ..old.state },
                ..old
            })
            &&& new.state.msg_cursor == yank_cursor_down(old.state.msg_cursor, old.state.visible_messages().len())
        },
        YankInput::Copy => {
            &&& new == (Controller {
                state: AppState { yank_mode: false, yank_start: 0, yank_cursor: 0, ..old.state },
                ..old
            })
            &&& (copyable(old.state) && old.state.selected_message_spec() is Some) ==> (acts.len() == 1
                && (acts[0] matches Action::Copy(t) && yanked(old.state, t@)))
            &&& !(copyable(old.state) && old.state.selected_message_spec() is Some) ==> acts.len() == 0
        },
        YankInput::Ignore => acts.len() == 0 && new == old,
    }
}

impl Controller {
    /// Keys in yank mode: Left and Right move the selection end by one
    /// character, Up and Down pick another message, y copies the selection,
    /// Esc leaves yank mode.
    pub fn yank_key(&mut self, key: KeyPress) -> (acts: Vec<Action>)
        requires
            old(self).wf(),
        ensures
            final(self).wf(),
            yank_step(*old(self), *final(self), yank_input(key), acts@),
    {
        match classify_yank_key(key) {
            YankInput::Quit => {
                proof {
                    reveal(yank_step);
                }
                one(Action::Quit)
            },
            YankInput::Cancel => self.yank_cancel(),
            YankInput::Left => if check_left(&self.state) {
                self.yank_move_left()
            } else {
                proof {
                    reveal(yank_step);
                }
                Vec::new()
            },
            YankInput::Right => if check_right(&self.state) {
                self.yank_move_right()
            } else {
                proof {
                    reveal(yank_step);
                }
                Vec::new()
            },
            YankInput::Up => self.yank_up(),
            YankInput::Down => self.yank_down(),
            YankInput::Copy => self.yank_copy(),
            YankInput::Ignore => {
                proof {
                    reveal(yank_step);
                }
                Vec::new()
            },
        }
    }

    fn yank_cancel(&mut self) -> (acts: Vec<Action>)
        requires
            old(self).wf(),
        ensures
            final(self).wf(),
            yank_step(*old(self), *final(self), YankInput::Cancel, acts@),
    {
        self.state.exit_yank_mode();
        proof {
            reveal(yank_step);
        }
        Vec::new()
    }

    fn yank_move_left(&mut self) -> (acts: Vec<Action>)
        requires
            old(self).wf(),
            left_movable(old(self).state),
        ensures
            final(self).wf(),
            yank_step(*old(self), *final(self), YankInput::Left, acts@),
    {
        self.state.yank_left();
        proof {
            reveal(yank_step);
        }
        Vec::new()
    }

    #[verifier::rlimit(60)]
    fn yank_move_right(&mut self) -> (acts: Vec<Action>)
        requires
            old(self).wf(),
            right_movable(old(self).state),
        ensures
            final(self).wf(),
            yank_step(*old(self), *final(self), YankInput::Right, acts@),
    {
        self.state.yank_right();
        proof {
            reveal(yank_step);
        }
        Vec::new()
    }

    fn yank_up(&mut self) -> (acts: Vec<Action>)
        requires
            old(self).wf(),
        ensures
            final(self).wf(),
            yank_step(*old(self), *final(self), YankInput::Up, acts@),
    {
        let cursor = match self.state.msg_cursor {
            Some(i) => if i > 0 { Some(i - 1) } else { Some(i) },
            None => None,
        };
        self.state.msg_cursor = cursor;
        self.state.yank_start = 0;
        self.state.yank_cursor = 0;
        proof {
            reveal(yank_step);
        }
        Vec::new()
    }

    fn yank_down(&mut self) -> (acts: Vec<Action>)
        requires
            old(self).wf(),
        ensures
            final(self).wf(),
            yank_step(*old(self), *final(self), YankInput::Down, acts@),
    {
        let count = self.state.visible_count();
        let cursor = match self.state.msg_cursor {
            Some(i) => if count > 0 && i < count - 1 { Some(i + 1) } else { Some(i) },
            None => None,
        };
        self.state.msg_cursor = cursor;
        self.state.yank_start = 0;
        self.state.yank_cursor = 0;
        proof {
            reveal(yank_step);
        }
        Vec::new()
    }

    fn yank_copy(&mut self) -> (acts: Vec<Action>)
        requires
            old(self).wf(),
        ensures
            final(self).wf(),
            yank_step(*old(self), *final(self), YankInput::Copy, acts@),
    {
        let acts = copy_actions(&self.state);
        self.state.exit_yank_mode();
        proof {
            reveal(yank_step);
        }
        acts
    }
}

/// The copy of the selection, when it can be made.
fn copy_actions(s: &AppState) -> (acts: Vec<Action>)
    ensures
        (copyable(*s) && s.selected_message_spec() is Some) ==> (acts@.len() == 1 && (acts@[0] matches Action::Copy(
            t,
        ) && yanked(*s, t@))),
        !(copyable(*s) && s.selected_message_spec() is Some) ==> acts@.len() == 0,
{
    let mut acts: Vec<Action> = Vec::new();
    if check_copy(s) {
        match s.yank_text() {
            Some(t) => acts.push(Action::Copy(t)),
            None => {},
        }
    }
    acts
}

} // verus!
