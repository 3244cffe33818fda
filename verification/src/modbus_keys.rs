//! Keys on the Modbus monitor: the register table, and the query form when
//! it is being edited.

use vstd::prelude::*;

use crate::control::{Action, Controller, KeyCode, KeyMods, KeyPress, ctrl_c, is_ctrl_c, is_plain, one, plain};
use crate::form_keys::erased;
use crate::modbus::ModbusCommand;
use crate::mode::{ModbusQueryForm, field_number, function_codes, min_nat, option_left, option_right};
use crate::state::AppState;

verus! {

// ── The query form ──────────────────────────────────────────────────────────

/// What a key means while the query form is edited.
#[derive(Debug, Clone, Copy, PartialEq, Eq, Structural)]
pub enum QueryInput {
    Quit,
    Next,
    Prev,
    /// Left: the previous function code or format.
    Left,
    /// Right: the next function code or format.
    Right,
    Erase,
    Type(char),
    /// Enter: poll with the new settings.
    Apply,
    /// Esc: stop editing.
    Close,
    Ignore,
}

pub open spec fn query_input(key: KeyPress) -> QueryInput {
    if ctrl_c(key) {
        QueryInput::Quit
    } else if plain(key, KeyCode::Tab) || plain(key, KeyCode::Down) {
        QueryInput::Next
    } else if (key.mods == KeyMods::Shift && key.code == KeyCode::BackTab) || plain(key, KeyCode::Up) {
        QueryInput::Prev
    } else if plain(key, KeyCode::Left) {
        QueryInput::Left
    } else if plain(key, KeyCode::Right) {
        QueryInput::Right
    } else if plain(key, KeyCode::Backspace) {
        QueryInput::Erase
    } else if key.mods == KeyMods::Plain && key.code is Char {
        QueryInput::Type(key.code->0)
    } else if plain(key, KeyCode::Enter) {
        QueryInput::Apply
    } else if plain(key, KeyCode::Esc) {
        QueryInput::Close
    } else {
        QueryInput::Ignore
    }
}

pub fn classify_query_key(key: KeyPress) -> (r: QueryInput)
    ensures
        r == query_input(key),
{
    if is_ctrl_c(key) {
        QueryInput::Quit
    } else if is_plain(key, KeyCode::Tab) || is_plain(key, KeyCode::Down) {
        QueryInput::Next
    } else if (key.mods == KeyMods::Shift && key.code == KeyCode::BackTab) || is_plain(key, KeyCode::Up) {
        QueryInput::Prev
    } else if is_plain(key, KeyCode::Left) {
        QueryInput::Left
    } else if is_plain(key, KeyCode::Right) {
        QueryInput::Right
    } else if is_plain(key, KeyCode::Backspace) {
        QueryInput::Erase
    } else if key.mods == KeyMods::Plain && matches!(key.code, KeyCode::Char(_)) {
        match key.code {
            KeyCode::Char(c) => QueryInput::Type(c),
            _ => QueryInput::Ignore,
        }
    } else if is_plain(key, KeyCode::Enter) {
        QueryInput::Apply
    } else if is_plain(key, KeyCode::Esc) {
        QueryInput::Close
    } else {
        QueryInput::Ignore
    }
}

/// The poll request the query form describes.
pub open spec fn query_request(q: ModbusQueryForm, cmd: ModbusCommand) -> bool {
    let qty = field_number(q.qty_input@, 0xffff, 1);
    cmd matches ModbusCommand::SetQuery { fc, start, quantity }
        && fc == function_codes()[min_nat(q.fc_idx as nat, 3) as int]
        && start as nat == field_number(q.start_input@, 0xffff, 0)
        && quantity as nat == if qty == 0 { 1 } else { qty }
}

/// A digit typed into the start or quantity field (other characters and
/// fields are ignored).
pub open spec fn typed_digit(q: ModbusQueryForm, field: nat, text: Seq<char>, c: char) -> Seq<char> {
    if q.active == field && '0' <= c <= '9' { text.push(c) } else { text }
}

#[verifier::opaque]
pub open spec fn query_step(old: Controller, new: Controller, input: QueryInput, acts: Seq<Action>) -> bool {
    let q = old.state.modbus_query;
    match input {
        QueryInput::Quit => new == old && acts == seq![Action::Quit],
        QueryInput::Next => {
            let nq = new.state.modbus_query;
            &&& acts.len() == 0
            &&& new == (Controller { state: AppState { modbus_query: ModbusQueryForm { active: nq.active, ..q }, ..old.state }, ..old })
            &&& nq.active == (q.active + 1) % 4
        },
        QueryInput::Prev => {
            let nq = new.state.modbus_query;
            &&& acts.len() == 0
            &&& new == (Controller { state: AppState { modbus_query: ModbusQueryForm { active: nq.active, ..q }, ..old.state }, ..old })
            &&& nq.active == if q.active == 0 { 3 } else { q.active - 1 }
        },
        QueryInput::Left => {
            let nq = new.state.modbus_query;
            &&& acts.len() == 0
            &&& new == (Controller {
                state: AppState { modbus_query: ModbusQueryForm { fc_idx: nq.fc_idx, format_idx: nq.format_idx, ..q }, ..old.state },
                ..old
            })
            &&& nq.fc_idx == if q.active == 0 { option_left(q.fc_idx as nat, 4) } else { q.fc_idx as nat }
            &&& nq.format_idx == if q.active == 3 { option_left(q.format_idx as nat, 10) } else { q.format_idx as nat }
        },
        QueryInput::Right => {
            let nq = new.state.modbus_query;
            &&& acts.len() == 0
            &&& new == (Controller {
                state: AppState { modbus_query: ModbusQueryForm { fc_idx: nq.fc_idx, format_idx: nq.format_idx, ..q }, ..old.state },
                ..old
            })
            &&& nq.fc_idx == if q.active == 0 { option_right(q.fc_idx as nat, 4) } else { q.fc_idx as nat }
            &&& nq.format_idx == if q.active == 3 { option_right(q.format_idx as nat, 10) } else { q.format_idx as nat }
        },
        QueryInput::Erase => {
            let nq = new.state.modbus_query;
            &&& acts.len() == 0
            &&& new == (Controller {
                state: AppState {
                    modbus_query: ModbusQueryForm { start_input: nq.start_input, qty_input: nq.qty_input, ..q },
                    ..old.state
                },
                ..old
            })
            &&& nq.start_input@ == if q.active == 1 { erased(q.start_input@) } else { q.start_input@ }
            &&& nq.qty_input@ == if q.active == 2 { erased(q.qty_input@) } else { q.qty_input@ }
        },
        QueryInput::Type(c) => {
            let nq = new.state.modbus_query;
            &&& acts.len() == 0
            &&& new == (Controller {
                state: AppState {
                    modbus_query: ModbusQueryForm { start_input: nq.start_input, qty_input: nq.qty_input, ..q },
                    ..old.state
                },
                ..old
            })
            &&& nq.start_input@ == typed_digit(q, 1, q.start_input@, c)
            &&& nq.qty_input@ == typed_digit(q, 2, q.qty_input@, c)
        },
        QueryInput::Apply => {
            &&& new == (Controller {
                state: AppState {
                    modbus_query: ModbusQueryForm { editing: false, ..q },
                    modbus_table_offset: 0,
                    ..old.state
                },
                ..old
            })
            &&& acts.len() == (if old.modbus_running { 1int } else { 0int })
            &&& old.modbus_running ==> (acts[0] matches Action::SendModbus(cmd) && query_request(q, cmd))
        },
        QueryInput::Close => acts.len() == 0 && new == (Controller {
            state: AppState { modbus_query: ModbusQueryForm { editing: false, ..q }, ..old.state },
            ..old
        }),
        QueryInput::Ignore => acts.len() == 0 && new == old,
    }
}

impl Controller {
    /// Keys while the Modbus query form is edited: Tab/Down and
    /// Shift-Tab/Up move between its fields, Left/Right change the function
    /// code or the format, digits and Backspace edit the start and
    /// quantity, Enter polls with the new settings, Esc stops editing.
    pub fn query_key(&mut self, key: KeyPress) -> (acts: Vec<Action>)
        requires
            old(self).wf(),
        ensures
            final(self).wf(),
            query_step(*old(self), *final(self), query_input(key), acts@),
    {
        match classify_query_key(key) {
            QueryInput::Quit => {
                proof {
                    reveal(query_step);
                }
                one(Action::Quit)
            },
            QueryInput::Next => self.query_next(),
            QueryInput::Prev => self.query_prev(),
            QueryInput::Left => self.query_left(),
            QueryInput::Right => self.query_right(),
            QueryInput::Erase => self.query_erase(),
            QueryInput::Type(c) => self.query_type(c),
            QueryInput::Apply => self.query_apply(),
            QueryInput::Close => self.query_close(),
            QueryInput::Ignore => {
                proof {
                    reveal(query_step);
                }
                Vec::new()
            },
        }
    }

    fn query_next(&mut self) -> (acts: Vec<Action>)
        requires
            old(self).wf(),
        ensures
            final(self).wf(),
            query_step(*old(self), *final(self), QueryInput::Next, acts@),
    {
        let mut q = ModbusQueryForm::default_form();
        std::mem::swap(&mut q, &mut self.state.modbus_query);
        q.next_field();
        self.state.modbus_query = q;
        proof {
            reveal(query_step);
        }
        Vec::new()
    }

    fn query_prev(&mut self) -> (acts: Vec<Action>)
        requires
            old(self).wf(),
        ensures
            final(self).wf(),
            query_step(*old(self), *final(self), QueryInput::Prev, acts@),
    {
        let mut q = ModbusQueryForm::default_form();
        std::mem::swap(&mut q, &mut self.state.modbus_query);
        q.prev_field();
        self.state.modbus_query = q;
        proof {
            reveal(query_step);
        }
        Vec::new()
    }

    fn query_left(&mut self) -> (acts: Vec<Action>)
        requires
            old(self).wf(),
        ensures
            final(self).wf(),
            query_step(*old(self), *final(self), QueryInput::Left, acts@),
    {
        let mut q = ModbusQueryForm::default_form();
        std::mem::swap(&mut q, &mut self.state.modbus_query);
        q.left();
        self.state.modbus_query = q;
        proof {
            reveal(query_step);
        }
        Vec::new()
    }

    fn query_right(&mut self) -> (acts: Vec<Action>)
        requires
            old(self).wf(),
        ensures
            final(self).wf(),
            query_step(*old(self), *final(self), QueryInput::Right, acts@),
    {
        let mut q = ModbusQueryForm::default_form();
        std::mem::swap(&mut q, &mut self.state.modbus_query);
        q.right();
        self.state.modbus_query = q;
        proof {
            reveal(query_step);
        }
        Vec::new()
    }

    fn query_erase(&mut self) -> (acts: Vec<Action>)
        requires
            old(self).wf(),
        ensures
            final(self).wf(),
            query_step(*old(self), *final(self), QueryInput::Erase, acts@),
    {
        let mut q = ModbusQueryForm::default_form();
        std::mem::swap(&mut q, &mut self.state.modbus_query);
        q.backspace();
        self.state.modbus_query = q;
        proof {
            reveal(query_step);
        }
        Vec::new()
    }

    fn query_type(&mut self, c: char) -> (acts: Vec<Action>)
        requires
            old(self).wf(),
        ensures
            final(self).wf(),
            query_step(*old(self), *final(self), QueryInput::Type(c), acts@),
    {
        let mut q = ModbusQueryForm::default_form();
        std::mem::swap(&mut q, &mut self.state.modbus_query);
        q.push(c);
        self.state.modbus_query = q;
        proof {
            reveal(query_step);
        }
        Vec::new()
    }

    fn query_apply(&mut self) -> (acts: Vec<Action>)
        requires
            old(self).wf(),
        ensures
            final(self).wf(),
            query_step(*old(self), *final(self), QueryInput::Apply, acts@),
    {
        let acts = query_actions(&self.state.modbus_query, self.modbus_running);
        self.state.modbus_query.editing = false;
        self.state.modbus_table_offset = 0;
        proof {
            reveal(query_step);
        }
        acts
    }

    fn query_close(&mut self) -> (acts: Vec<Action>)
        requires
            old(self).wf(),
        ensures
            final(self).wf(),
            query_step(*old(self), *final(self), QueryInput::Close, acts@),
    {
        self.state.modbus_query.editing = false;
        proof {
            reveal(query_step);
        }
        Vec::new()
    }
}

/// The poll request for the query form, when the source runs.
fn query_actions(q: &ModbusQueryForm, running: bool) -> (acts: Vec<Action>)
    ensures
        acts@.len() == (if running { 1int } else { 0int }),
        running ==> (acts@[0] matches Action::SendModbus(cmd) && query_request(*q, cmd)),
{
    let mut acts: Vec<Action> = Vec::new();
    if running {
        acts.push(Action::SendModbus(ModbusCommand::SetQuery { fc: q.fc(), start: q.start(), quantity: q.qty() }));
    }
    acts
}

// ── The register table ──────────────────────────────────────────────────────

/// What a key means on the Modbus monitor when the query form is not edited.
#[derive(Debug, Clone, Copy, PartialEq, Eq, Structural)]
pub enum TableInput {
    Quit,
    /// e: edit the query form.
    Edit,
    Up,
    Down,
    ClearError,
    /// Esc: ask whether to go back.
    Back,
    Ignore,
}

pub open spec fn table_input(key: KeyPress) -> TableInput {
    if ctrl_c(key) || plain(key, KeyCode::Char('q')) {
        TableInput::Quit
    } else if plain(key, KeyCode::Char('e')) {
        TableInput::Edit
    } else if plain(key, KeyCode::Up) {
        TableInput::Up
    } else if plain(key, KeyCode::Down) {
        TableInput::Down
    } else if plain(key, KeyCode::Char('c')) {
        TableInput::ClearError
    } else if plain(key, KeyCode::Esc) {
        TableInput::Back
    } else {
        TableInput::Ignore
    }
}

pub fn classify_table_key(key: KeyPress) -> (r: TableInput)
    ensures
        r == table_input(key),
{
    if is_ctrl_c(key) || is_plain(key, KeyCode::Char('q')) {
        TableInput::Quit
    } else if is_plain(key, KeyCode::Char('e')) {
        TableInput::Edit
    } else if is_plain(key, KeyCode::Up) {
        TableInput::Up
    } else if is_plain(key, KeyCode::Down) {
        TableInput::Down
    } else if is_plain(key, KeyCode::Char('c')) {
        TableInput::ClearError
    } else if is_plain(key, KeyCode::Esc) {
        TableInput::Back
    } else {
        TableInput::Ignore
    }
}

/// The table's scroll offset after Down: one further, but not past the last
/// row.
pub open spec fn offset_down(offset: nat, rows: nat) -> nat {
    if offset + 1 < rows { offset + 1 } else { offset }
}

#[verifier::opaque]
pub open spec fn table_step(old: Controller, new: Controller, input: TableInput, acts: Seq<Action>) -> bool {
    match input {
        TableInput::Quit => new == old && acts == seq![Action::Quit],
        TableInput::Edit => acts.len() == 0 && new == (Controller {
            state: AppState {
                modbus_query: ModbusQueryForm { editing: true, ..old.state.modbus_query },
                ..old.state
            },
            ..old
        }),
        TableInput::Up => {
            &&& acts.len() == 0
            &&& new == (Controller { state: AppState { modbus_table_offset: new.state.modbus_table_offset, ..old.state }, ..old })
            &&& new.state.modbus_table_offset == if old.state.modbus_table_offset == 0 { 0 } else { old.state.modbus_table_offset - 1 }
        },
        TableInput::Down => {
            &&& acts.len() == 0
            &&& new == (Controller { state: AppState { modbus_table_offset: new.state.modbus_table_offset, ..old.state }, ..old })
            &&& new.state.modbus_table_offset == offset_down(old.state.modbus_table_offset as nat, old.state.modbus_rows@.len())
        },
        TableInput::ClearError => acts.len() == 0 && new == (Controller {
            state: AppState { last_error: None, ..old.state },
            ..old
        }),
        TableInput::Back => acts.len() == 0 && new == (Controller {
            state: AppState { confirm_back: true, ..old.state },
            ..old
        }),
        TableInput::Ignore => acts.len() == 0 && new == old,
    }
}

impl Controller {
    /// Keys on the Modbus register table: e edits the query, Up and Down
    /// scroll, c clears the error, Esc asks whether to go back, q and
    /// Ctrl-C quit.
    pub fn table_key(&mut self, key: KeyPress) -> (acts: Vec<Action>)
        requires
            old(self).wf(),
        ensures
            final(self).wf(),
            table_step(*old(self), *final(self), table_input(key), acts@),
    {
        let input = classify_table_key(key);
        match input {
            TableInput::Quit => {
                proof {
                    reveal(table_step);
                }
                one(Action::Quit)
            },
            TableInput::Ignore => {
                proof {
                    reveal(table_step);
                }
                Vec::new()
            },
            _ => self.table_change(input),
        }
    }

    fn table_change(&mut self, input: TableInput) -> (acts: Vec<Action>)
        requires
            old(self).wf(),
            !(input is Quit || input is Ignore),
        ensures
            final(self).wf(),
            table_step(*old(self), *final(self), input, acts@),
    {
        match input {
            TableInput::Edit => self.table_edit(),
            TableInput::Up => self.table_scroll(false),
            TableInput::Down => self.table_scroll(true),
            TableInput::ClearError => self.table_clear_error(),
            _ => self.table_back(),
        }
    }

    fn table_edit(&mut self) -> (acts: Vec<Action>)
        requires
            old(self).wf(),
        ensures
            final(self).wf(),
            table_step(*old(self), *final(self), TableInput::Edit, acts@),
    {
        self.state.modbus_query.editing = true;
        proof {
            reveal(table_step);
        }
        Vec::new()
    }

    fn table_scroll(&mut self, down: bool) -> (acts: Vec<Action>)
        requires
            old(self).wf(),
        ensures
            final(self).wf(),
            table_step(*old(self), *final(self), if down { TableInput::Down } else { TableInput::Up }, acts@),
    {
        let offset = self.state.modbus_table_offset;
        let rows = self.state.modbus_rows.len();
        let new_offset = if down {
            if rows > 0 && offset < rows - 1 { offset + 1 } else { offset }
        } else {
            if offset == 0 { 0 } else { offset - 1 }
        };
        self.state.modbus_table_offset = new_offset;
        proof {
            reveal(table_step);
        }
        Vec::new()
    }

    fn table_clear_error(&mut self) -> (acts: Vec<Action>)
        requires
            old(self).wf(),
        ensures
            final(self).wf(),
            table_step(*old(self), *final(self), TableInput::ClearError, acts@),
    {
        self.state.last_error = None;
        proof {
            reveal(table_step);
        }
        Vec::new()
    }

    fn table_back(&mut self) -> (acts: Vec<Action>)
        requires
            old(self).wf(),
        ensures
            final(self).wf(),
            table_step(*old(self), *final(self), TableInput::Back, acts@),
    {
        self.state.confirm_back = true;
        proof {
            reveal(table_step);
        }
        Vec::new()
    }
}

} // verus!
