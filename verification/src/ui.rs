//! Screen logic that does not draw: which panel has focus, whether a payload
//! looks like JSON, how a line is wrapped, which trace entries are on screen,
//! what is wrong with a hex input, and where a popup goes.

use vstd::prelude::*;
use vstd::utf8::{encode_utf8, is_char_boundary, valid_utf8};

use crate::floatfmt::{f32_fixed_string, f32_fixed_text, f64_fixed_string, f64_fixed_text};
use crate::mode::{DisplayFormat, FunctionCode, is_bit_code};
use crate::state::{ModbusRow, TrendValue, lowercase, register_value, register_value_at, to_lowercase, utf8_bytes};
use crate::text::{binary_fixed, hex_upper_fixed, i64_to_decimal, int_decimal, u64_to_binary_fixed, u64_to_hex_fixed};
use crate::text::{chars_of, string_from_chars, strings};

verus! {

// ── Panel ───────────────────────────────────────────────────────────────────

/// The monitor panel that has the keyboard focus.
#[derive(Debug, Clone, Copy, PartialEq, Eq, Structural)]
pub enum Panel {
    Topics,
    Messages,
}

pub open spec fn other_panel(p: Panel) -> Panel {
    match p {
        Panel::Topics => Panel::Messages,
        Panel::Messages => Panel::Topics,
    }
}

impl Panel {
    /// The other panel.
    pub fn toggle(self) -> (p: Self)
        ensures
            p == other_panel(self),
    {
        match self {
            Panel::Topics => Panel::Messages,
            Panel::Messages => Panel::Topics,
        }
    }
}

impl Default for Panel {
    fn default() -> (p: Self)
        ensures
            p == Panel::Topics,
    {
        Panel::Topics
    }
}

/// Switching the focus twice gives it back to the panel that had it, and
/// switching it once always moves it.
pub proof fn lemma_toggle_twice(p: Panel)
    ensures
        other_panel(other_panel(p)) == p,
        other_panel(p) != p,
{
}

// ── Characters ──────────────────────────────────────────────────────────────

/// Unicode `White_Space`, the property that `char::is_whitespace` tests.
pub open spec fn is_whitespace(c: char) -> bool {
    ||| '\t' <= c && c <= '\r'
    ||| c == ' '
    ||| c == '\u{85}'
    ||| c == '\u{a0}'
    ||| c == '\u{1680}'
    ||| '\u{2000}' <= c && c <= '\u{200a}'
    ||| c == '\u{2028}'
    ||| c == '\u{2029}'
    ||| c == '\u{202f}'
    ||| c == '\u{205f}'
    ||| c == '\u{3000}'
}

pub fn char_is_whitespace(c: char) -> (r: bool)
    ensures
        r == is_whitespace(c),
{
    ('\t' <= c && c <= '\r') || c == ' ' || c == '\u{85}' || c == '\u{a0}' || c == '\u{1680}'
        || ('\u{2000}' <= c && c <= '\u{200a}') || c == '\u{2028}' || c == '\u{2029}'
        || c == '\u{202f}' || c == '\u{205f}' || c == '\u{3000}'
}

pub open spec fn is_hex_digit(c: char) -> bool {
    ('0' <= c && c <= '9') || ('a' <= c && c <= 'f') || ('A' <= c && c <= 'F')
}

pub fn char_is_hex_digit(c: char) -> (r: bool)
    ensures
        r == is_hex_digit(c),
{
    ('0' <= c && c <= '9') || ('a' <= c && c <= 'f') || ('A' <= c && c <= 'F')
}

// ── Payload format ──────────────────────────────────────────────────────────

/// How a message payload is highlighted.
#[derive(Debug, Clone, Copy, PartialEq, Eq, Structural)]
pub enum PayloadFormat {
    Json,
    Plain,
}

/// Whether every character of `s` before index `n` is white space.
pub open spec fn blank_prefix(s: Seq<char>, n: int) -> bool {
    forall|i: int| 0 <= i < n ==> is_whitespace(#[trigger] s[i])
}

/// A payload is taken for JSON when its first character that is not white
/// space is `{` or `[`.
pub open spec fn looks_like_json(s: Seq<char>) -> bool {
    exists|k: int| 0 <= k < s.len() && blank_prefix(s, k) && (s[k] == '{' || s[k] == '[')
}

pub fn detect_format(s: &str) -> (f: PayloadFormat)
    ensures
        f == (if looks_like_json(s@) { PayloadFormat::Json } else { PayloadFormat::Plain }),
{
    let v = chars_of(s);
    let mut i: usize = 0;
    while i < v.len()
        invariant
            v@ == s@,
            i <= v@.len(),
            blank_prefix(s@, i as int),
        decreases v@.len() - i,
    {
        let c = v[i];
        if !char_is_whitespace(c) {
            if c == '{' || c == '[' {
                return PayloadFormat::Json;
            }
            proof {
                assert forall|k: int| 0 <= k < s@.len() && blank_prefix(s@, k) implies !(s@[k] == '{'
                    || s@[k] == '[') by {
                    if k > i {
                        assert(is_whitespace(s@[i as int]));
                    } else if k < i {
                        assert(is_whitespace(s@[k]));
                    }
                }
            }
            return PayloadFormat::Plain;
        }
        i = i + 1;
    }
    proof {
        assert forall|k: int| 0 <= k < s@.len() && blank_prefix(s@, k) implies !(s@[k] == '{'
            || s@[k] == '[') by {
            assert(is_whitespace(s@[k]));
        }
    }
    PayloadFormat::Plain
}

// ── Line wrapping ───────────────────────────────────────────────────────────

/// The pieces of `s` of `width` characters each, the last one shorter when
/// the length is not a multiple of `width`.
pub open spec fn chunks(s: Seq<char>, width: nat) -> Seq<Seq<char>>
    decreases s.len(),
{
    if width == 0 || s.len() == 0 {
        Seq::empty()
    } else if s.len() <= width {
        seq![s]
    } else {
        seq![s.take(width as int)] + chunks(s.skip(width as int), width)
    }
}

/// What `wrap_line` gives for `line` and `width`.
pub open spec fn wrapped(line: Seq<char>, width: nat) -> Seq<Seq<char>> {
    if width == 0 || line.len() == 0 {
        seq![line]
    } else {
        chunks(line, width)
    }
}

proof fn lemma_chunks_step(s: Seq<char>, width: nat, done: nat)
    requires
        width > 0,
        done < s.len(),
        done % width == 0,
    ensures
        chunks(s.skip(done as int), width) == seq![s.subrange(done as int, if done + width < s.len() { (done + width) as int } else { s.len() as int })]
            + chunks(s.skip(if done + width < s.len() { (done + width) as int } else { s.len() as int }), width),
{
    let rest = s.skip(done as int);
    if rest.len() <= width {
        assert(rest =~= s.subrange(done as int, s.len() as int));
        assert(s.skip(s.len() as int) =~= Seq::<char>::empty());
        assert(chunks(s.skip(s.len() as int), width) =~= Seq::<Seq<char>>::empty());
        assert(seq![rest] + Seq::<Seq<char>>::empty() =~= seq![rest]);
    } else {
        assert(rest.take(width as int) =~= s.subrange(done as int, (done + width) as int));
        assert(rest.skip(width as int) =~= s.skip((done + width) as int));
    }
}

/// Cuts `line` into pieces of at most `width` characters, as the message
/// panel wraps payload lines. A zero width or an empty line gives the line
/// itself.
pub fn wrap_line(line: &str, width: usize) -> (out: Vec<String>)
    ensures
        strings(out@) == wrapped(line@, width as nat),
{
    let chars = chars_of(line);
    if width == 0 || chars.len() == 0 {
        let mut out: Vec<String> = Vec::new();
        out.push(string_from_chars(&chars));
        proof {
            assert(strings(out@) =~= seq![line@]);
        }
        return out;
    }
    let mut out: Vec<String> = Vec::new();
    let mut done: usize = 0;
    let ghost s = line@;
    proof {
        assert(s.skip(0) =~= s);
        assert(strings(out@) + chunks(s.skip(0), width as nat) =~= chunks(s, width as nat));
    }
    while done < chars.len()
        invariant
            chars@ == s,
            s == line@,
            width > 0,
            done <= chars@.len(),
            done % width == 0 || done == chars@.len(),
            strings(out@) + chunks(s.skip(done as int), width as nat) == chunks(s, width as nat),
        decreases chars@.len() - done,
    {
        let end: usize = if chars.len() - done > width { done + width } else { chars.len() };
        let mut piece: Vec<char> = Vec::new();
        let mut j: usize = done;
        while j < end
            invariant
                chars@ == s,
                done <= j <= end <= chars@.len(),
                piece@ == s.subrange(done as int, j as int),
            decreases end - j,
        {
            piece.push(chars[j]);
            proof {
                assert(piece@ =~= s.subrange(done as int, j + 1));
            }
            j = j + 1;
        }
        proof {
            lemma_chunks_step(s, width as nat, done as nat);
        }
        let ghost before = strings(out@);
        out.push(string_from_chars(&piece));
        proof {
            assert(strings(out@) =~= before.push(piece@));
            assert(before.push(piece@) + chunks(s.skip(end as int), width as nat) =~= before + (seq![piece@]
                + chunks(s.skip(end as int), width as nat)));
            if end < chars@.len() {
                assert(end == done + width);
                vstd::arithmetic::div_mod::lemma_mod_adds(done as int, width as int, width as int);
                vstd::arithmetic::div_mod::lemma_mod_self_0(width as int);
            }
        }
        done = end;
    }
    proof {
        assert(s.skip(s.len() as int) =~= Seq::<char>::empty());
        assert(strings(out@) + Seq::<Seq<char>>::empty() =~= strings(out@));
    }
    out
}

// ── IEC 104 trace ───────────────────────────────────────────────────────────

/// Index of the first trace entry on screen: the newest page, moved back by
/// `scrollback` entries but never before the first one.
pub open spec fn trace_start_spec(total: nat, capacity: nat, scrollback: nat) -> nat {
    let newest = if total > capacity { (total - capacity) as nat } else { 0 };
    if scrollback < newest { (newest - scrollback) as nat } else { 0 }
}

pub fn trace_start(total: usize, capacity: usize, scrollback: usize) -> (start: usize)
    ensures
        start == trace_start_spec(total as nat, capacity as nat, scrollback as nat),
{
    let newest = total.saturating_sub(capacity);
    let back = if scrollback < newest { scrollback } else { newest };
    newest - back
}

/// The start never passes the newest page, and at least one entry is shown
/// when there is any.
pub proof fn lemma_trace_start_bounds(total: nat, capacity: nat, scrollback: nat)
    ensures
        trace_start_spec(total, capacity, scrollback) + capacity >= total || scrollback > 0,
        capacity > 0 && total > 0 ==> trace_start_spec(total, capacity, scrollback) < total,
        trace_start_spec(total, capacity, 0) + capacity >= total,
{
}

// ── Scrolling windows ───────────────────────────────────────────────────────

/// The first of `total` rows shown in a window of `height` rows when the
/// view asks to start at `offset`: where asked, but never so far down that
/// the window is not full.
pub open spec fn window_start_spec(offset: nat, total: nat, height: nat) -> nat {
    let last = if total > height { (total - height) as nat } else { 0 };
    if offset < last { offset } else { last }
}

pub fn window_start(offset: usize, total: usize, height: usize) -> (start: usize)
    ensures
        start == window_start_spec(offset as nat, total as nat, height as nat),
{
    let last = total.saturating_sub(height);
    if offset < last { offset } else { last }
}

/// The first line of the message panel shown, among `total` lines with
/// `visible` on screen: with a selected message starting at line `selected`,
/// that message a third of the way down (as far as the lines allow);
/// otherwise the newest lines.
pub open spec fn message_scroll_spec(selected: Option<nat>, visible: nat, total: nat) -> nat {
    let bottom = if total > visible { (total - visible) as nat } else { 0 };
    match selected {
        None => bottom,
        Some(line) => {
            let up = if line > visible / 3 { (line - visible / 3) as nat } else { 0 };
            if up < bottom { up } else { bottom }
        },
    }
}

pub fn message_scroll(selected: Option<usize>, visible: usize, total: usize) -> (line: usize)
    ensures
        line == message_scroll_spec(
            match selected {
                Some(l) => Some(l as nat),
                None => None,
            },
            visible as nat,
            total as nat,
        ),
{
    let bottom = total.saturating_sub(visible);
    match selected {
        None => bottom,
        Some(l) => {
            let up = l.saturating_sub(visible / 3);
            if up < bottom { up } else { bottom }
        },
    }
}

/// `n`, or `len` where `n` is beyond it.
pub open spec fn clipped(n: nat, len: nat) -> nat {
    if n < len { n } else { len }
}

/// The byte range marked in the yank pane between the two ends `a` and `b`,
/// each clipped to the payload length `len`.
pub fn yank_range(a: usize, b: usize, len: usize) -> (r: (usize, usize))
    ensures
        r.0 == clipped((if a < b { a } else { b }) as nat, len as nat),
        r.1 == clipped((if a < b { b } else { a }) as nat, len as nat),
        r.0 <= r.1,
{
    let lo = if a < b { a } else { b };
    let hi = if a < b { b } else { a };
    (if lo < len { lo } else { len }, if hi < len { hi } else { len })
}

// ── Hex input checks ────────────────────────────────────────────────────────

/// How many characters of `s` are not white space.
pub open spec fn non_blank_count(s: Seq<char>) -> nat
    decreases s.len(),
{
    if s.len() == 0 {
        0
    } else {
        non_blank_count(s.drop_last()) + if is_whitespace(s.last()) { 0nat } else { 1nat }
    }
}

pub open spec fn raw_input_error_spec(s: Seq<char>) -> Option<Seq<char>> {
    if s.len() == 0 {
        None
    } else if exists|i: int| 0 <= i < s.len() && !is_hex_digit(#[trigger] s[i]) && !is_whitespace(s[i]) {
        Some("Only hexadecimal bytes and spaces are allowed"@)
    } else if non_blank_count(s) % 2 != 0 {
        Some("Each APDU byte needs two hexadecimal digits"@)
    } else {
        None
    }
}

/// Counts the characters of `v` that are not white space.
fn count_non_blank(v: &Vec<char>) -> (n: usize)
    ensures
        n == non_blank_count(v@),
{
    let mut n: usize = 0;
    let mut i: usize = 0;
    while i < v.len()
        invariant
            i <= v@.len(),
            n == non_blank_count(v@.take(i as int)),
            n <= i,
        decreases v@.len() - i,
    {
        proof {
            assert(v@.take(i + 1).drop_last() =~= v@.take(i as int));
        }
        if !char_is_whitespace(v[i]) {
            n = n + 1;
        }
        i = i + 1;
    }
    proof {
        assert(v@.take(v@.len() as int) =~= v@);
    }
    n
}

/// What is wrong with the raw APDU typed in the IEC 104 monitor, if anything.
pub fn raw_input_error(input: &str) -> (r: Option<String>)
    ensures
        r matches Some(m) ==> raw_input_error_spec(input@) == Some(m@),
        r is None ==> raw_input_error_spec(input@) is None,
{
    let v = chars_of(input);
    if v.len() == 0 {
        return None;
    }
    let mut i: usize = 0;
    while i < v.len()
        invariant
            v@ == input@,
            i <= v@.len(),
            forall|j: int| 0 <= j < i ==> is_hex_digit(#[trigger] v@[j]) || is_whitespace(v@[j]),
        decreases v@.len() - i,
    {
        if !char_is_hex_digit(v[i]) && !char_is_whitespace(v[i]) {
            proof {
                reveal_strlit("Only hexadecimal bytes and spaces are allowed");
            }
            return Some("Only hexadecimal bytes and spaces are allowed".to_string());
        }
        i = i + 1;
    }
    let n = count_non_blank(&v);
    if n % 2 != 0 {
        proof {
            reveal_strlit("Each APDU byte needs two hexadecimal digits");
        }
        return Some("Each APDU byte needs two hexadecimal digits".to_string());
    }
    None
}

/// The serial send bar's message for a character that is neither a hex
/// digit nor a space.
pub const SERIAL_ILLEGAL_CHAR: &'static str = "Illegal character — only 0-9 A-F a-f and spaces allowed";

/// The serial send bar's message for an odd number of hex digits.
pub const SERIAL_ODD_DIGITS: &'static str = "Odd number of hex digits — each byte needs 2 digits";

pub open spec fn serial_hex_error_spec(s: Seq<char>, hex_mode: bool) -> Option<Seq<char>> {
    if !hex_mode || s.len() == 0 {
        None
    } else if exists|i: int| 0 <= i < s.len() && !is_hex_digit(#[trigger] s[i]) && s[i] != ' ' {
        Some(SERIAL_ILLEGAL_CHAR@)
    } else if non_blank_count(s) % 2 != 0 {
        Some(SERIAL_ODD_DIGITS@)
    } else {
        None
    }
}

/// What is wrong with the text typed in the serial monitor's send bar, if
/// anything: only in hex mode is the text checked.
pub fn serial_hex_error(input: &str, hex_mode: bool) -> (r: Option<&'static str>)
    ensures
        r matches Some(m) ==> serial_hex_error_spec(input@, hex_mode) == Some(m@),
        r is None ==> serial_hex_error_spec(input@, hex_mode) is None,
{
    if !hex_mode {
        return None;
    }
    let v = chars_of(input);
    if v.len() == 0 {
        return None;
    }
    let mut i: usize = 0;
    while i < v.len()
        invariant
            v@ == input@,
            i <= v@.len(),
            hex_mode,
            forall|j: int| 0 <= j < i ==> is_hex_digit(#[trigger] v@[j]) || v@[j] == ' ',
        decreases v@.len() - i,
    {
        if !char_is_hex_digit(v[i]) && v[i] != ' ' {
            proof {
                assert(!is_hex_digit(input@[i as int]) && input@[i as int] != ' ');
            }
            return Some(SERIAL_ILLEGAL_CHAR);
        }
        i = i + 1;
    }
    let n = count_non_blank(&v);
    if n % 2 != 0 {
        return Some(SERIAL_ODD_DIGITS);
    }
    None
}

// ── Layout arithmetic ───────────────────────────────────────────────────────

/// A rectangle of terminal cells.
#[derive(Debug, Clone, Copy, PartialEq, Eq, Structural)]
pub struct Area {
    pub x: u16,
    pub y: u16,
    pub width: u16,
    pub height: u16,
}

/// A `width` × `height` rectangle centred in `area`, clipped to it.
pub fn centered_rect(width: u16, height: u16, area: Area) -> (r: Area)
    requires
        area.x + (if area.width > width { area.width - width } else { 0int }) / 2 <= u16::MAX,
        area.y + (if area.height > height { area.height - height } else { 0int }) / 2 <= u16::MAX,
    ensures
        r.x == area.x + (if area.width > width { area.width - width } else { 0int }) / 2,
        r.y == area.y + (if area.height > height { area.height - height } else { 0int }) / 2,
        r.width == (if width < area.width { width } else { area.width }),
        r.height == (if height < area.height { height } else { area.height }),
{
    let x = area.x + area.width.saturating_sub(width) / 2;
    let y = area.y + area.height.saturating_sub(height) / 2;
    Area {
        x,
        y,
        width: if width < area.width { width } else { area.width },
        height: if height < area.height { height } else { area.height },
    }
}

/// The widths, in percent of the table, of the OPC UA table's six columns
/// (node, name, value, type, source time, server time): a table narrower
/// than 90 cells gives the node column less room.
pub fn opcua_column_percentages(width: u16) -> (p: [u16; 6])
    ensures
        width < 90 ==> p@ == seq![20u16, 18, 16, 12, 17, 17],
        width >= 90 ==> p@ == seq![22u16, 18, 14, 12, 17, 17],
{
    let p: [u16; 6] = if width < 90 {
        [20, 18, 16, 12, 17, 17]
    } else {
        [22, 18, 14, 12, 17, 17]
    };
    assert(p@ =~= (if width < 90 { seq![20u16, 18, 16, 12, 17, 17] } else { seq![22u16, 18, 14, 12, 17, 17] }));
    p
}

// ── JSON highlighting ───────────────────────────────────────────────────────

/// What a piece of a highlighted line is; the screen gives each its colour.
#[derive(Debug, Clone, Copy, PartialEq, Eq, Structural)]
pub enum SpanKind {
    /// Text shown as it is.
    Raw,
    /// A quoted string followed by `:`.
    Key,
    /// Any other quoted string.
    Str,
    Number,
    True,
    False,
    Null,
    /// One of `{ } [ ]`.
    Bracket,
    Colon,
    Comma,
    /// A match of the search text.
    Match,
}

/// A piece of a highlighted line.
#[derive(Debug, Clone)]
pub struct Segment {
    pub text: String,
    pub kind: SpanKind,
}

pub open spec fn segments_view(v: Seq<Segment>) -> Seq<(Seq<char>, SpanKind)> {
    v.map_values(|g: Segment| (g.text@, g.kind))
}

pub open spec fn is_ascii_digit(c: char) -> bool {
    '0' <= c && c <= '9'
}

/// Where a quoted string whose text starts at `k` ends (one past the closing
/// quote): a backslash skips the next character. Past the end of the line
/// when the line ends in a backslash inside the string.
pub open spec fn string_end(s: Seq<char>, k: int) -> int
    decreases s.len() + 1 - k,
{
    if k < 0 || k >= s.len() {
        k
    } else if s[k] == '\\' {
        string_end(s, k + 2)
    } else if s[k] == '"' {
        k + 1
    } else {
        string_end(s, k + 1)
    }
}

pub open spec fn is_number_char(c: char) -> bool {
    is_ascii_digit(c) || c == '.' || c == 'e' || c == 'E' || c == '+'
}

/// Where a number whose rest starts at `k` ends.
pub open spec fn number_end(s: Seq<char>, k: int) -> int
    decreases s.len() - k,
{
    if k < 0 || k >= s.len() || !is_number_char(s[k]) {
        k
    } else {
        number_end(s, k + 1)
    }
}

/// The first index from `k` on that is neither a space nor a tab.
pub open spec fn skip_blanks(s: Seq<char>, k: int) -> int
    decreases s.len() - k,
{
    if k < 0 || k >= s.len() || !(s[k] == ' ' || s[k] == '\t') {
        k
    } else {
        skip_blanks(s, k + 1)
    }
}

pub open spec fn has_word_at(s: Seq<char>, i: int, w: Seq<char>) -> bool {
    i + w.len() <= s.len() && s.subrange(i, i + w.len()) == w
}

/// The end and the kind of the token of a JSON-looking line that starts at
/// index `i`.
pub open spec fn json_token(s: Seq<char>, i: int) -> (int, SpanKind) {
    if s[i] == '"' {
        let e = string_end(s, i + 1);
        let b = skip_blanks(s, e);
        (e, if 0 <= b < s.len() && s[b] == ':' { SpanKind::Key } else { SpanKind::Str })
    } else if is_ascii_digit(s[i]) || (s[i] == '-' && i + 1 < s.len() && is_ascii_digit(s[i + 1])) {
        (number_end(s, i + 1), SpanKind::Number)
    } else if has_word_at(s, i, seq!['t', 'r', 'u', 'e']) {
        (i + 4, SpanKind::True)
    } else if has_word_at(s, i, seq!['f', 'a', 'l', 's', 'e']) {
        (i + 5, SpanKind::False)
    } else if has_word_at(s, i, seq!['n', 'u', 'l', 'l']) {
        (i + 4, SpanKind::Null)
    } else if s[i] == '{' || s[i] == '}' || s[i] == '[' || s[i] == ']' {
        (i + 1, SpanKind::Bracket)
    } else if s[i] == ':' {
        (i + 1, SpanKind::Colon)
    } else if s[i] == ',' {
        (i + 1, SpanKind::Comma)
    } else {
        (i + 1, SpanKind::Raw)
    }
}

/// Whether the line can be cut into tokens from `i` on without a string
/// running past its end.
pub open spec fn json_scannable(s: Seq<char>, i: int) -> bool
    decreases s.len() - i,
{
    if i < 0 || i >= s.len() {
        true
    } else {
        let e = json_token(s, i).0;
        e <= s.len() && (e > i ==> json_scannable(s, e))
    }
}

/// The tokens of a JSON-looking line from index `i` on.
pub open spec fn json_tokens(s: Seq<char>, i: int) -> Seq<(Seq<char>, SpanKind)>
    decreases s.len() - i,
{
    if i < 0 || i >= s.len() {
        Seq::empty()
    } else {
        let t = json_token(s, i);
        if t.0 <= i || t.0 > s.len() {
            Seq::empty()
        } else {
            seq![(s.subrange(i, t.0), t.1)] + json_tokens(s, t.0)
        }
    }
}

/// At a token start, each JSON literal word is one token of its own kind:
/// the piece starting there is exactly "true", "false" or "null", coloured
/// as that literal (whatever follows it on the line).
pub proof fn lemma_literal_words_are_tokens(s: Seq<char>, i: int)
    requires
        0 <= i < s.len(),
    ensures
        i + 4 <= s.len() && s.subrange(i, i + 4) == seq!['t', 'r', 'u', 'e']
            ==> json_tokens(s, i)[0] == (seq!['t', 'r', 'u', 'e'], SpanKind::True),
        i + 5 <= s.len() && s.subrange(i, i + 5) == seq!['f', 'a', 'l', 's', 'e']
            ==> json_tokens(s, i)[0] == (seq!['f', 'a', 'l', 's', 'e'], SpanKind::False),
        i + 4 <= s.len() && s.subrange(i, i + 4) == seq!['n', 'u', 'l', 'l']
            ==> json_tokens(s, i)[0] == (seq!['n', 'u', 'l', 'l'], SpanKind::Null),
{
    if i + 4 <= s.len() && s.subrange(i, i + 4) == seq!['t', 'r', 'u', 'e'] {
        assert(s[i] == s.subrange(i, i + 4)[0]);
    }
    if i + 5 <= s.len() && s.subrange(i, i + 5) == seq!['f', 'a', 'l', 's', 'e'] {
        assert(s[i] == s.subrange(i, i + 5)[0]);
        assert(s.subrange(i, i + 4) != seq!['t', 'r', 'u', 'e']) by {
            assert(s.subrange(i, i + 4)[0] == s[i]);
        }
    }
    if i + 4 <= s.len() && s.subrange(i, i + 4) == seq!['n', 'u', 'l', 'l'] {
        assert(s[i] == s.subrange(i, i + 4)[0]);
        assert(s.subrange(i, i + 4) != seq!['t', 'r', 'u', 'e']);
        if i + 5 <= s.len() {
            assert(s.subrange(i, i + 5) != seq!['f', 'a', 'l', 's', 'e']) by {
                assert(s.subrange(i, i + 5)[0] == s[i]);
            }
        }
    }
}

/// The highlighted pieces of a line taken for JSON: its tokens, or the line
/// as it is when it is empty.
pub open spec fn json_spans(s: Seq<char>) -> Seq<(Seq<char>, SpanKind)> {
    if s.len() == 0 {
        seq![(s, SpanKind::Raw)]
    } else {
        json_tokens(s, 0)
    }
}

proof fn lemma_string_end_bounds(s: Seq<char>, k: int)
    requires
        0 <= k <= s.len() + 1,
    ensures
        string_end(s, k) >= k,
        string_end(s, k) <= s.len() + 1,
        string_end(s, k) > s.len() ==> string_end(s, k) == s.len() + 1,
    decreases s.len() + 1 - k,
{
    if k < s.len() {
        if s[k] == '\\' {
            lemma_string_end_bounds(s, k + 2);
        } else if s[k] != '"' {
            lemma_string_end_bounds(s, k + 1);
        }
    }
}

proof fn lemma_number_end_bounds(s: Seq<char>, k: int)
    requires
        0 <= k <= s.len(),
    ensures
        k <= number_end(s, k) <= s.len(),
    decreases s.len() - k,
{
    if k < s.len() && is_number_char(s[k]) {
        lemma_number_end_bounds(s, k + 1);
    }
}

proof fn lemma_skip_blanks_bounds(s: Seq<char>, k: int)
    requires
        0 <= k,
    ensures
        k <= skip_blanks(s, k),
        k <= s.len() ==> skip_blanks(s, k) <= s.len(),
    decreases s.len() - k,
{
    if k < s.len() && (s[k] == ' ' || s[k] == '\t') {
        lemma_skip_blanks_bounds(s, k + 1);
    }
}

/// Scans a quoted string whose text starts at `k`.
fn scan_string(v: &Vec<char>, k: usize) -> (e: usize)
    requires
        k <= v@.len(),
        v@.len() < usize::MAX - 2,
    ensures
        e == string_end(v@, k as int),
{
    let mut j = k;
    while j < v.len()
        invariant
            k <= j <= v@.len() + 1,
            v@.len() < usize::MAX - 2,
            string_end(v@, j as int) == string_end(v@, k as int),
        decreases v@.len() + 2 - j,
    {
        if v[j] == '\\' {
            j = j + 2;
        } else if v[j] == '"' {
            return j + 1;
        } else {
            j = j + 1;
        }
    }
    j
}

fn scan_number(v: &Vec<char>, k: usize) -> (e: usize)
    requires
        k <= v@.len(),
    ensures
        e == number_end(v@, k as int),
{
    let mut j = k;
    while j < v.len()
        invariant
            k <= j <= v@.len(),
            number_end(v@, j as int) == number_end(v@, k as int),
        decreases v@.len() - j,
    {
        let c = v[j];
        if !(('0' <= c && c <= '9') || c == '.' || c == 'e' || c == 'E' || c == '+') {
            return j;
        }
        j = j + 1;
    }
    j
}

fn scan_blanks(v: &Vec<char>, k: usize) -> (e: usize)
    requires
        k <= v@.len(),
    ensures
        e == skip_blanks(v@, k as int),
{
    let mut j = k;
    while j < v.len()
        invariant
            k <= j <= v@.len(),
            skip_blanks(v@, j as int) == skip_blanks(v@, k as int),
        decreases v@.len() - j,
    {
        if !(v[j] == ' ' || v[j] == '\t') {
            return j;
        }
        j = j + 1;
    }
    j
}

fn word_at(v: &Vec<char>, i: usize, w: &str) -> (r: bool)
    requires
        i <= v@.len(),
    ensures
        r == has_word_at(v@, i as int, w@),
{
    let wc = chars_of(w);
    let n = v.len();
    if wc.len() > n - i {
        return false;
    }
    let mut j: usize = 0;
    while j < wc.len()
        invariant
            wc@ == w@,
            n == v@.len(),
            i + wc@.len() <= v@.len(),
            j <= wc@.len(),
            forall|t: int| 0 <= t < j ==> v@[i + t] == wc@[t],
        decreases wc@.len() - j,
    {
        assert(i + j < v@.len());
        if v[i + j] != wc[j] {
            assert(v@.subrange(i as int, i + wc@.len())[j as int] != w@[j as int]);
            return false;
        }
        j = j + 1;
    }
    assert(v@.subrange(i as int, i + wc@.len()) =~= w@);
    true
}

fn sub_string(v: &Vec<char>, a: usize, b: usize) -> (s: String)
    requires
        a <= b <= v@.len(),
    ensures
        s@ == v@.subrange(a as int, b as int),
{
    let mut piece: Vec<char> = Vec::new();
    let mut j = a;
    while j < b
        invariant
            a <= j <= b <= v@.len(),
            piece@ == v@.subrange(a as int, j as int),
        decreases b - j,
    {
        piece.push(v[j]);
        assert(piece@ =~= v@.subrange(a as int, j + 1));
        j = j + 1;
    }
    string_from_chars(&piece)
}

/// The end and kind of the token at `i`.
fn next_json_token(v: &Vec<char>, i: usize) -> (t: (usize, SpanKind))
    requires
        i < v@.len(),
        v@.len() < usize::MAX - 8,
    ensures
        t.0 == json_token(v@, i as int).0,
        t.1 == json_token(v@, i as int).1,
{
    let c = v[i];
    if c == '"' {
        let e = scan_string(v, i + 1);
        proof {
            lemma_string_end_bounds(v@, i + 1);
        }
        if e > v.len() {
            assert(skip_blanks(v@, e as int) == e as int);
            return (e, SpanKind::Str);
        }
        let b = scan_blanks(v, e);
        proof {
            lemma_skip_blanks_bounds(v@, e as int);
        }
        if b < v.len() && v[b] == ':' {
            (e, SpanKind::Key)
        } else {
            (e, SpanKind::Str)
        }
    } else if ('0' <= c && c <= '9') || (c == '-' && i + 1 < v.len() && '0' <= v[i + 1] && v[i + 1] <= '9') {
        (scan_number(v, i + 1), SpanKind::Number)
    } else {
        proof {
            reveal_strlit("true");
            reveal_strlit("false");
            reveal_strlit("null");
            assert("true"@ =~= seq!['t', 'r', 'u', 'e']);
            assert("false"@ =~= seq!['f', 'a', 'l', 's', 'e']);
            assert("null"@ =~= seq!['n', 'u', 'l', 'l']);
        }
        if word_at(v, i, "true") {
            (i + 4, SpanKind::True)
        } else if word_at(v, i, "false") {
            (i + 5, SpanKind::False)
        } else if word_at(v, i, "null") {
            (i + 4, SpanKind::Null)
        } else if c == '{' || c == '}' || c == '[' || c == ']' {
            (i + 1, SpanKind::Bracket)
        } else if c == ':' {
            (i + 1, SpanKind::Colon)
        } else if c == ',' {
            (i + 1, SpanKind::Comma)
        } else {
            (i + 1, SpanKind::Raw)
        }
    }
}

/// Cuts a line of a JSON payload into coloured pieces: strings (keys when a
/// `:` follows), numbers, `true`, `false`, `null`, brackets, `:` and `,`;
/// anything else is one plain character. A backslash in a string escapes the
/// next character.
pub fn highlight_json(line: &str) -> (out: Vec<Segment>)
    requires
        json_scannable(line@, 0),
        line@.len() < usize::MAX - 8,
    ensures
        segments_view(out@) == json_spans(line@),
{
    let v = chars_of(line);
    let mut out: Vec<Segment> = Vec::new();
    if v.len() == 0 {
        out.push(Segment { text: string_from_chars(&v), kind: SpanKind::Raw });
        assert(segments_view(out@) =~= json_spans(line@));
        return out;
    }
    let mut i: usize = 0;
    let ghost s = line@;
    assert(segments_view(out@) + json_tokens(s, 0) =~= json_tokens(s, 0));
    while i < v.len()
        invariant
            v@ == s,
            s == line@,
            s.len() < usize::MAX - 8,
            i <= s.len(),
            json_scannable(s, i as int),
            segments_view(out@) + json_tokens(s, i as int) == json_tokens(s, 0),
        decreases s.len() - i,
    {
        let t = next_json_token(&v, i);
        let e = t.0;
        proof {
            if v@[i as int] == '"' {
                lemma_string_end_bounds(s, i + 1);
            } else if json_token(s, i as int).1 == SpanKind::Number {
                lemma_number_end_bounds(s, i + 1);
            }
        }
        assert(e > i);
        assert(e <= s.len());
        let piece = sub_string(&v, i, e);
        let ghost before = segments_view(out@);
        out.push(Segment { text: piece, kind: t.1 });
        proof {
            assert(segments_view(out@) =~= before.push((s.subrange(i as int, e as int), t.1)));
            assert(json_tokens(s, i as int) == seq![(s.subrange(i as int, e as int), t.1)] + json_tokens(s, e as int));
            assert(before.push((s.subrange(i as int, e as int), t.1)) + json_tokens(s, e as int) =~= before + (seq![(
                s.subrange(i as int, e as int),
                t.1,
            )] + json_tokens(s, e as int)));
        }
        i = e;
    }
    assert(json_tokens(s, i as int) =~= Seq::<(Seq<char>, SpanKind)>::empty());
    assert(segments_view(out@) + Seq::<(Seq<char>, SpanKind)>::empty() =~= segments_view(out@));
    out
}

// ── Search highlighting ─────────────────────────────────────────────────────

pub open spec fn match_at(l: Seq<u8>, q: Seq<u8>, k: int) -> bool {
    0 <= k && k + q.len() <= l.len() && l.subrange(k, k + q.len()) == q
}

/// The first byte at or after `pos` where `q` occurs in `l`.
pub open spec fn first_match_from(l: Seq<u8>, q: Seq<u8>, pos: int) -> Option<int>
    decreases l.len() + 1 - pos,
{
    if pos < 0 || pos + q.len() > l.len() {
        None
    } else if match_at(l, q, pos) {
        Some(pos)
    } else {
        first_match_from(l, q, pos + 1)
    }
}

/// The pieces marked on a line whose bytes from byte `pos` on are `r`: the
/// matches of `q` are found in the lower-cased line's bytes `l`, and the
/// line is cut at the same byte offsets (the lower-cased text and the line
/// may differ in length where a character's lower-case form takes another
/// number of bytes). Plain text goes between the matches, and the rest of
/// the line (possibly empty) comes last.
pub open spec fn search_pieces(r: Seq<u8>, l: Seq<u8>, q: Seq<u8>, pos: int) -> Seq<(Seq<u8>, SpanKind)>
    decreases l.len() - pos,
{
    if q.len() == 0 || pos < 0 || pos > l.len() {
        Seq::empty()
    } else {
        match first_match_from(l, q, pos) {
            None => seq![(r, SpanKind::Raw)],
            Some(k) => if k < pos || k + q.len() > l.len() {
                Seq::empty()
            } else {
                let d = k - pos;
                let t = r.skip(d);
                (if d > 0 { seq![(r.take(d), SpanKind::Raw)] } else { Seq::empty() })
                    + seq![(t.take(q.len() as int), SpanKind::Match)]
                    + search_pieces(t.skip(q.len() as int), l, q, k + q.len())
            },
        }
    }
}

/// Whether every cut that `search_pieces` makes falls on a character
/// boundary of the line (where one does not, the cut is not possible).
pub open spec fn search_cuts_ok(r: Seq<u8>, l: Seq<u8>, q: Seq<u8>, pos: int) -> bool
    decreases l.len() - pos,
{
    if q.len() == 0 || pos < 0 || pos > l.len() {
        false
    } else {
        match first_match_from(l, q, pos) {
            None => true,
            Some(k) => if k < pos || k + q.len() > l.len() {
                false
            } else {
                let d = k - pos;
                &&& is_char_boundary(r, d)
                &&& is_char_boundary(r.skip(d), q.len() as int)
                &&& search_cuts_ok(r.skip(d).skip(q.len() as int), l, q, k + q.len())
            },
        }
    }
}

/// Whether the matches of `query` can be marked on `line`.
pub open spec fn search_ok(line: Seq<char>, query: Seq<char>) -> bool {
    search_cuts_ok(encode_utf8(line), encode_utf8(lowercase(line)), encode_utf8(lowercase(query)), 0)
}

/// The marked pieces of `line` for `query`, as bytes.
pub open spec fn search_marks(line: Seq<char>, query: Seq<char>) -> Seq<(Seq<u8>, SpanKind)> {
    search_pieces(encode_utf8(line), encode_utf8(lowercase(line)), encode_utf8(lowercase(query)), 0)
}

/// The pieces of a highlighted line with their texts as UTF-8 bytes.
pub open spec fn segments_bytes(v: Seq<Segment>) -> Seq<(Seq<u8>, SpanKind)> {
    v.map_values(|g: Segment| (encode_utf8(g.text@), g.kind))
}

proof fn lemma_boundary_in_range(b: Seq<u8>, i: int)
    requires
        valid_utf8(b),
        is_char_boundary(b, i),
    ensures
        0 <= i <= b.len(),
{
}

proof fn lemma_first_match_bounds(l: Seq<u8>, q: Seq<u8>, pos: int)
    requires
        0 <= pos,
    ensures
        first_match_from(l, q, pos) matches Some(k) ==> pos <= k && match_at(l, q, k),
    decreases l.len() + 1 - pos,
{
    if pos + q.len() <= l.len() && !match_at(l, q, pos) {
        lemma_first_match_bounds(l, q, pos + 1);
    }
}

/// The first byte at or after `pos` where `q` occurs in `l`.
fn find_from(l: &Vec<u8>, q: &Vec<u8>, pos: usize) -> (r: Option<usize>)
    requires
        pos <= l@.len(),
    ensures
        r matches Some(k) ==> first_match_from(l@, q@, pos as int) == Some(k as int),
        r is None ==> first_match_from(l@, q@, pos as int) is None,
{
    if q.len() == 0 {
        assert(l@.subrange(pos as int, pos as int) =~= q@);
        return Some(pos);
    }
    let n = l.len();
    if q.len() > n {
        return None;
    }
    let last = n - q.len();
    let mut k = pos;
    while k <= last
        invariant
            pos <= k,
            q@.len() > 0,
            n == l@.len(),
            last + q@.len() == l@.len(),
            first_match_from(l@, q@, k as int) == first_match_from(l@, q@, pos as int),
        decreases last + 1 - k,
    {
        let mut j: usize = 0;
        let mut same = true;
        while j < q.len()
            invariant
                k <= last,
                n == l@.len(),
                last + q@.len() == l@.len(),
                j <= q@.len(),
                same == (forall|t: int| 0 <= t < j ==> l@[k + t] == q@[t]),
            decreases q@.len() - j,
        {
            assert(k + j < l@.len());
            if l[k + j] != q[j] {
                same = false;
            }
            j = j + 1;
        }
        if same {
            assert(l@.subrange(k as int, k + q@.len()) =~= q@);
            return Some(k);
        }
        proof {
            if match_at(l@, q@, k as int) {
                let t = choose|t: int| 0 <= t < q@.len() && l@[k + t] != q@[t];
                assert(l@.subrange(k as int, k + q@.len())[t] == l@[k + t]);
            }
        }
        k = k + 1;
    }
    None
}

/// Marks the matches of `query` on `line`, compared in lower case: the
/// matches are found in the lower-cased line and cut out of the line at the
/// same byte offsets. Nothing when a cut falls inside a character.
#[verifier::rlimit(40)]
fn mark_search(line: &str, query: &str) -> (r: Option<Vec<Segment>>)
    ensures
        r is Some <==> search_ok(line@, query@),
        r matches Some(out) ==> segments_bytes(out@) == search_marks(line@, query@),
{
    let lq = to_lowercase(query);
    let q = utf8_bytes(lq.as_str());
    let ghost bq = q@;
    let ll = to_lowercase(line);
    let l = utf8_bytes(ll.as_str());
    let ghost bl = l@;
    let ghost b0 = encode_utf8(line@);
    if q.len() == 0 {
        return None;
    }
    let mut rest: &str = line;
    let mut out: Vec<Segment> = Vec::new();
    let mut pos: usize = 0;
    assert(segments_bytes(out@) + search_pieces(b0, bl, bq, 0) =~= search_pieces(b0, bl, bq, 0));
    loop
        invariant
            q@ == bq,
            l@ == bl,
            bq == encode_utf8(lowercase(query@)),
            bl == encode_utf8(lowercase(line@)),
            b0 == encode_utf8(line@),
            bq.len() > 0,
            pos <= bl.len(),
            segments_bytes(out@) + search_pieces(encode_utf8(rest@), bl, bq, pos as int) == search_pieces(b0, bl, bq, 0),
            search_cuts_ok(encode_utf8(rest@), bl, bq, pos as int) == search_cuts_ok(b0, bl, bq, 0),
        decreases bl.len() - pos,
    {
        let ghost r = encode_utf8(rest@);
        match find_from(&l, &q, pos) {
            None => {
                let ghost before = segments_bytes(out@);
                out.push(Segment { text: rest.to_owned(), kind: SpanKind::Raw });
                assert(segments_bytes(out@) =~= before.push((r, SpanKind::Raw)));
                assert(before + seq![(r, SpanKind::Raw)] =~= before.push((r, SpanKind::Raw)));
                return Some(out);
            },
            Some(k) => {
                proof {
                    lemma_first_match_bounds(bl, bq, pos as int);
                    assert(match_at(bl, bq, k as int));
                }
                assert(k + q@.len() <= bl.len());
                let n = l.len();
                assert(k + q.len() <= n);
                let d = k - pos;
                if !rest.is_char_boundary(d) {
                    return None;
                }
                let (head, tail) = rest.split_at(d);
                if !tail.is_char_boundary(q.len()) {
                    return None;
                }
                let (hit, after) = tail.split_at(q.len());
                let ghost t = encode_utf8(tail@);
                proof {
                    vstd::utf8::encode_utf8_valid_utf8(rest@);
                    vstd::utf8::encode_utf8_valid_utf8(tail@);
                    lemma_boundary_in_range(r, d as int);
                    lemma_boundary_in_range(t, q@.len() as int);
                }
                assert(encode_utf8(head@) =~= r.take(d as int));
                assert(t =~= r.skip(d as int));
                assert(q@.len() <= t.len());
                assert(encode_utf8(hit@) =~= t.take(q@.len() as int));
                assert(encode_utf8(after@) =~= t.skip(q@.len() as int));
                let ghost before = segments_bytes(out@);
                if d > 0 {
                    out.push(Segment { text: head.to_owned(), kind: SpanKind::Raw });
                }
                let ghost mid = segments_bytes(out@);
                out.push(Segment { text: hit.to_owned(), kind: SpanKind::Match });
                proof {
                    let head_part: Seq<(Seq<u8>, SpanKind)> = if d > 0 { seq![(r.take(d as int), SpanKind::Raw)] } else { Seq::empty() };
                    assert(mid =~= before + head_part);
                    assert(segments_bytes(out@) =~= mid.push((t.take(q@.len() as int), SpanKind::Match)));
                    assert(search_pieces(r, bl, bq, pos as int) == head_part + seq![(t.take(q@.len() as int), SpanKind::Match)]
                        + search_pieces(t.skip(q@.len() as int), bl, bq, k + q@.len()));
                    assert(segments_bytes(out@) + search_pieces(t.skip(q@.len() as int), bl, bq, k + q@.len())
                        =~= before + (head_part + seq![(t.take(q@.len() as int), SpanKind::Match)]
                        + search_pieces(t.skip(q@.len() as int), bl, bq, k + q@.len())));
                }
                rest = after;
                pos = k + q.len();
            },
        }
    }
}

/// Marks the matches of `query` on `line`, compared in lower case, as the
/// monitor does: each match found in the lower-cased line is cut out of the
/// line at the same byte offsets.
pub fn highlight_search(line: &str, query: &str) -> (out: Vec<Segment>)
    requires
        search_ok(line@, query@),
    ensures
        segments_bytes(out@) == search_marks(line@, query@),
{
    match mark_search(line, query) {
        Some(out) => out,
        None => Vec::new(),
    }
}

/// Whether `highlight_search` can mark the matches of `query` on `line`:
/// the lower-cased query is not empty and no cut falls inside a character.
pub fn search_markable(line: &str, query: &str) -> (r: bool)
    ensures
        r == search_ok(line@, query@),
{
    mark_search(line, query).is_some()
}

/// The pieces of one wrapped payload line: search matches when a search is
/// active, else JSON colours or the plain line. Where the matches cannot be
/// cut out of the line (see `search_markable`), or a JSON string is cut off
/// after a backslash, the line is given as one plain piece.
pub fn highlight_line(line: &str, format: PayloadFormat, search: &str) -> (out: Vec<Segment>)
    requires
        line@.len() < usize::MAX - 8,
    ensures
        search@.len() > 0 && search_ok(line@, search@) ==> segments_bytes(out@) == search_marks(line@, search@),
        search@.len() == 0 && format == PayloadFormat::Json && json_scannable(line@, 0)
            ==> segments_view(out@) == json_spans(line@),
        (search@.len() == 0 && format == PayloadFormat::Plain)
            || (search@.len() > 0 && !search_ok(line@, search@))
            || (search@.len() == 0 && format == PayloadFormat::Json && !json_scannable(line@, 0))
            ==> segments_view(out@) == seq![(line@, SpanKind::Raw)],
{
    if !search.is_empty() {
        if search_markable(line, search) {
            return highlight_search(line, search);
        }
    } else {
        if let PayloadFormat::Json = format {
            if json_scannable_text(line) {
                return highlight_json(line);
            }
        }
    }
    let mut out: Vec<Segment> = Vec::new();
    out.push(Segment { text: line.to_string(), kind: SpanKind::Raw });
    assert(segments_view(out@) =~= seq![(line@, SpanKind::Raw)]);
    out
}

/// Whether `highlight_json` can cut `line` into tokens.
pub fn json_scannable_text(line: &str) -> (r: bool)
    requires
        line@.len() < usize::MAX - 8,
    ensures
        r == json_scannable(line@, 0),
{
    let v = chars_of(line);
    let mut i: usize = 0;
    while i < v.len()
        invariant
            v@ == line@,
            v@.len() < usize::MAX - 8,
            i <= v@.len(),
            json_scannable(v@, i as int) == json_scannable(v@, 0),
        decreases v@.len() - i,
    {
        let t = next_json_token(&v, i);
        if t.0 > v.len() {
            return false;
        }
        proof {
            if v@[i as int] == '"' {
                lemma_string_end_bounds(v@, i + 1);
            } else if json_token(v@, i as int).1 == SpanKind::Number {
                lemma_number_end_bounds(v@, i + 1);
            }
        }
        i = t.0;
    }
    true
}

// ── The Modbus data table ───────────────────────────────────────────────────

/// What the Display column of the Modbus table shows for row `idx`: ON or
/// OFF for coils and discrete inputs; else the value of the group of
/// registers that starts at this row (empty in the other rows of a group and
/// when the group is cut off): hex as `{:#06X}`, binary in 16 digits, floats
/// with 4 and doubles with 6 decimals, the rest in decimal.
pub open spec fn display_text(rows: Seq<ModbusRow>, idx: int, fmt: DisplayFormat, fc: FunctionCode) -> Seq<char> {
    let v = rows[idx].value;
    if is_bit_code(fc) {
        if v != 0 { "ON"@ } else { "OFF"@ }
    } else {
        match register_value(rows, idx, fmt, fc) {
            None => Seq::empty(),
            Some(TrendValue::Number(n)) => match fmt {
                DisplayFormat::Hex => "0x"@ + hex_upper_fixed(v as nat, 4),
                DisplayFormat::Binary => binary_fixed(v as nat, 16),
                _ => int_decimal(n as int),
            },
            Some(TrendValue::F32Bits(b)) => f32_fixed_text(b, 4),
            Some(TrendValue::F64Bits(b)) => f64_fixed_text(b, 6),
        }
    }
}

/// The Display column of the Modbus table for row `idx`.
pub fn format_display(rows: &[ModbusRow], idx: usize, fmt: DisplayFormat, fc: FunctionCode) -> (s: String)
    requires
        idx < rows@.len(),
    ensures
        s@ == display_text(rows@, idx as int, fmt, fc),
{
    if fc.is_bit() {
        proof {
            reveal_strlit("ON");
            reveal_strlit("OFF");
        }
        return if rows[idx].value != 0 { "ON".to_owned() } else { "OFF".to_owned() };
    }
    match register_value_at(rows, idx, fmt, fc) {
        None => String::new(),
        Some(TrendValue::Number(n)) => match fmt {
            DisplayFormat::Hex => {
                let mut out = "0x".to_owned();
                out.append(u64_to_hex_fixed(rows[idx].value as u64, 4, true).as_str());
                out
            },
            DisplayFormat::Binary => u64_to_binary_fixed(rows[idx].value as u64, 16),
            _ => i64_to_decimal(n),
        },
        Some(TrendValue::F32Bits(b)) => f32_fixed_string(b, 4),
        Some(TrendValue::F64Bits(b)) => f64_fixed_string(b, 6),
    }
}

} // verus!
