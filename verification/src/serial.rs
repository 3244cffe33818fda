//! Serial source settings and commands, and the cutting of received text
//! into lines at carriage returns and line feeds.

use vstd::prelude::*;

use crate::mode::{SerialForm, baud_rates, data_bits_values, parity_labels, stop_bits_values};
use crate::state::{utf8_lossy, lossy_string};
use crate::text::{chars_of, string_from_chars, strings};

verus! {

/// A request to the running serial source.
pub enum SerialCommand {
    Send(Vec<u8>),
}

/// Serial port settings, as plain values.
#[derive(Debug, Clone)]
pub struct SerialConfig {
    pub port: String,
    pub baud_rate: u32,
    /// 5, 6, 7 or 8
    pub data_bits: u8,
    /// "None", "Odd" or "Even"
    pub parity: String,
    /// 1 or 2
    pub stop_bits: u8,
}

impl SerialConfig {
    /// The settings that the connection form shows.
    pub fn from_form(form: &SerialForm) -> (c: Self)
        requires
            form.wf(),
        ensures
            form.port_idx < form.available_ports@.len() ==> c.port@ == form.available_ports@[form.port_idx as int]@,
            form.port_idx >= form.available_ports@.len() ==> c.port@.len() == 0,
            c.baud_rate == baud_rates()[form.baud_idx as int],
            c.data_bits == data_bits_values()[form.data_idx as int],
            c.parity@ == parity_labels()[form.parity_idx as int],
            c.stop_bits == stop_bits_values()[form.stop_idx as int],
    {
        proof {
            reveal_strlit("");
        }
        SerialConfig {
            port: form.port().to_owned(),
            baud_rate: form.baud_rate(),
            data_bits: form.data_bits_val(),
            parity: form.parity_label().to_owned(),
            stop_bits: form.stop_bits_val(),
        }
    }
}

impl SerialConfig {
    /// The settings saved in the `[serial]` section.
    pub fn from_saved(saved: &crate::config::SerialPersistedConfig) -> (c: Self)
        ensures
            c.port@ == saved.port@,
            c.baud_rate == saved.baud_rate,
            c.data_bits == saved.data_bits,
            c.parity@ == saved.parity@,
            c.stop_bits == saved.stop_bits,
    {
        SerialConfig {
            port: saved.port.clone(),
            baud_rate: saved.baud_rate,
            data_bits: saved.data_bits,
            parity: saved.parity.clone(),
            stop_bits: saved.stop_bits,
        }
    }
}

pub open spec fn is_line_end(c: char) -> bool {
    c == '\n' || c == '\r'
}

/// The lines completed by reading `input` after the pending text `pending`,
/// and the text left pending: a line ends at '\r' or '\n', and empty lines
/// (as between the two characters of "\r\n") are not emitted.
pub open spec fn split_lines(pending: Seq<char>, input: Seq<char>) -> (Seq<Seq<char>>, Seq<char>)
    decreases input.len(),
{
    if input.len() == 0 {
        (Seq::empty(), pending)
    } else if is_line_end(input[0]) {
        if pending.len() > 0 {
            let rest = split_lines(Seq::empty(), input.drop_first());
            (seq![pending] + rest.0, rest.1)
        } else {
            split_lines(pending, input.drop_first())
        }
    } else {
        split_lines(pending.push(input[0]), input.drop_first())
    }
}

/// Text that arrives in pieces is cut into the same lines as text that
/// arrives at once.
pub proof fn lemma_split_lines_fragmented(pending: Seq<char>, a: Seq<char>, b: Seq<char>)
    ensures
        split_lines(pending, a + b) == (split_lines(pending, a).0 + split_lines(split_lines(pending, a).1, b).0,
            split_lines(split_lines(pending, a).1, b).1),
    decreases a.len(),
{
    if a.len() == 0 {
        assert(a + b =~= b);
        assert(Seq::<Seq<char>>::empty() + split_lines(pending, b).0 =~= split_lines(pending, b).0);
    } else {
        assert((a + b)[0] == a[0]);
        assert((a + b).drop_first() =~= a.drop_first() + b);
        if is_line_end(a[0]) {
            if pending.len() > 0 {
                lemma_split_lines_fragmented(Seq::empty(), a.drop_first(), b);
                let r = split_lines(Seq::empty(), a.drop_first());
                let m = split_lines(r.1, b);
                assert(seq![pending] + (r.0 + m.0) =~= (seq![pending] + r.0) + m.0);
            } else {
                lemma_split_lines_fragmented(pending, a.drop_first(), b);
            }
        } else {
            lemma_split_lines_fragmented(pending.push(a[0]), a.drop_first(), b);
        }
    }
}

/// Every emitted line is non-empty and holds no line end.
pub proof fn lemma_split_lines_clean(pending: Seq<char>, input: Seq<char>)
    requires
        forall|i: int| 0 <= i < pending.len() ==> !is_line_end(#[trigger] pending[i]),
    ensures
        forall|k: int| 0 <= k < split_lines(pending, input).0.len() ==> (#[trigger] split_lines(pending, input).0[k]).len() > 0,
        forall|k: int, i: int| 0 <= k < split_lines(pending, input).0.len() && 0 <= i < split_lines(pending, input).0[k].len()
            ==> !is_line_end(#[trigger] split_lines(pending, input).0[k][i]),
        forall|i: int| 0 <= i < split_lines(pending, input).1.len() ==> !is_line_end(#[trigger] split_lines(pending, input).1[i]),
    decreases input.len(),
{
    let out = split_lines(pending, input);
    if input.len() == 0 {
        assert(out.0 =~= Seq::<Seq<char>>::empty());
    } else if is_line_end(input[0]) {
        if pending.len() > 0 {
            lemma_split_lines_clean(Seq::empty(), input.drop_first());
            let rest = split_lines(Seq::empty(), input.drop_first());
            assert(out.0 == seq![pending] + rest.0);
            assert(out.1 == rest.1);
            assert forall|k: int| 0 <= k < out.0.len() implies (#[trigger] out.0[k]).len() > 0 by {
                if k > 0 {
                    assert(out.0[k] == rest.0[k - 1]);
                } else {
                    assert(out.0[k] == pending);
                }
            }
            assert forall|k: int, i: int| 0 <= k < out.0.len() && 0 <= i < out.0[k].len()
                implies !is_line_end(#[trigger] out.0[k][i]) by {
                if k > 0 {
                    assert(out.0[k] == rest.0[k - 1]);
                    assert(rest.0[k - 1][i] == out.0[k][i]);
                } else {
                    assert(out.0[k] == pending);
                    assert(pending[i] == out.0[k][i]);
                }
            }
        } else {
            lemma_split_lines_clean(pending, input.drop_first());
            assert(out == split_lines(pending, input.drop_first()));
        }
    } else {
        let p2 = pending.push(input[0]);
        assert forall|i: int| 0 <= i < p2.len() implies !is_line_end(#[trigger] p2[i]) by {
            if i < pending.len() {
                assert(p2[i] == pending[i]);
            }
        }
        lemma_split_lines_clean(p2, input.drop_first());
        assert(out == split_lines(p2, input.drop_first()));
    }
}

/// Collects received text into lines.
pub struct LineAssembler {
    /// Text of the line not yet ended.
    pub pending: String,
}

impl LineAssembler {
    pub fn new() -> (a: Self)
        ensures
            a.pending@.len() == 0,
    {
        LineAssembler { pending: String::new() }
    }

    /// Reads `text` and returns the lines it completes.
    pub fn feed(&mut self, text: &str) -> (lines: Vec<String>)
        ensures
            strings(lines@) == split_lines(old(self).pending@, text@).0,
            final(self).pending@ == split_lines(old(self).pending@, text@).1,
    {
        let input = chars_of(text);
        let ghost start = self.pending@;
        let mut pending: Vec<char> = chars_of(self.pending.as_str());
        let mut lines: Vec<String> = Vec::new();
        let mut i: usize = 0;
        assert(input@.skip(0) =~= input@);
        assert(strings(lines@) + split_lines(pending@, input@.skip(0)).0 =~= split_lines(pending@, input@.skip(0)).0);
        while i < input.len()
            invariant
                input@ == text@,
                i <= input@.len(),
                split_lines(start, text@) == (strings(lines@) + split_lines(pending@, input@.skip(i as int)).0, split_lines(
                    pending@,
                    input@.skip(i as int),
                ).1),
            decreases input@.len() - i,
        {
            let c = input[i];
            assert(input@.skip(i as int)[0] == c);
            assert(input@.skip(i as int).drop_first() =~= input@.skip(i + 1));
            if c == '\n' || c == '\r' {
                if pending.len() > 0 {
                    let ghost before = strings(lines@);
                    let ghost p = pending@;
                    let line = string_from_chars(&pending);
                    lines.push(line);
                    pending = Vec::new();
                    proof {
                        assert(strings(lines@) =~= before.push(p));
                        let rest = split_lines(Seq::empty(), input@.skip(i + 1));
                        assert(before + (seq![p] + rest.0) =~= before.push(p) + rest.0);
                    }
                }
            } else {
                pending.push(c);
            }
            i = i + 1;
        }
        assert(input@.skip(input@.len() as int) =~= Seq::<char>::empty());
        assert(strings(lines@) + Seq::<Seq<char>>::empty() =~= strings(lines@));
        self.pending = string_from_chars(&pending);
        lines
    }

    /// Reads raw bytes (converted as `String::from_utf8_lossy` does).
    pub fn feed_bytes(&mut self, bytes: &[u8]) -> (lines: Vec<String>)
        ensures
            strings(lines@) == split_lines(old(self).pending@, utf8_lossy(bytes@)).0,
            final(self).pending@ == split_lines(old(self).pending@, utf8_lossy(bytes@)).1,
    {
        let text = lossy_string(bytes);
        self.feed(text.as_str())
    }

    /// Hands out the pending text as a line, if there is any (on a read
    /// timeout or when the port closes).
    pub fn flush(&mut self) -> (line: Option<String>)
        ensures
            old(self).pending@.len() == 0 ==> line is None && final(self).pending@ == old(self).pending@,
            old(self).pending@.len() > 0 ==> (line matches Some(l) && l@ == old(self).pending@) && final(self).pending@.len() == 0,
    {
        if self.pending.as_str().is_empty() {
            return None;
        }
        let mut line = String::new();
        std::mem::swap(&mut line, &mut self.pending);
        Some(line)
    }
}

} // verus!
