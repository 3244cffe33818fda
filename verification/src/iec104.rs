//! IEC 60870-5-104 APDU framing, frame building and decoding, and the
//! client session that numbers and acknowledges I-frames.

use vstd::prelude::*;

use crate::text::{decimal, u64_to_decimal, int_decimal, i64_to_decimal, hex_upper_fixed, u64_to_hex_fixed, lemma_decimal_digits, lemma_decimal_value};
use crate::floatfmt::{f32_fixed_text, f32_fixed_string};

verus! {

/// First byte of every APDU.
pub const START: u8 = 0x68;

// ── Configuration and commands ──────────────────────────────────────────────

/// IEC 60870-5-104 client connection settings.
#[derive(Debug, Clone)]
pub struct Iec104Config {
    pub host: String,
    pub port: u16,
    pub common_address: u16,
    pub originator_address: u8,
}

impl Iec104Config {
    /// The default settings: localhost:2404, common address 1, originator 0.
    pub fn default_config() -> (c: Self)
        ensures
            c.host@ == "localhost"@,
            c.port == 2404,
            c.common_address == 1,
            c.originator_address == 0,
    {
        Iec104Config {
            host: "localhost".to_owned(),
            port: 2404,
            common_address: 1,
            originator_address: 0,
        }
    }
}

impl Iec104Config {
    /// The settings saved in the `[iec104]` section.
    pub fn from_saved(saved: &crate::config::Iec104PersistedConfig) -> (c: Self)
        ensures
            c.host@ == saved.host@,
            c.port == saved.port,
            c.common_address == saved.common_address,
            c.originator_address == saved.originator_address,
    {
        Iec104Config {
            host: saved.host.clone(),
            port: saved.port,
            common_address: saved.common_address,
            originator_address: saved.originator_address,
        }
    }
}

impl Default for Iec104Config {
    fn default() -> (c: Self)
        ensures
            c.host@ == "localhost"@,
            c.port == 2404,
            c.common_address == 1,
            c.originator_address == 0,
    {
        Self::default_config()
    }
}

/// A request from the user to the running IEC 104 connection.
#[derive(Debug)]
pub enum Iec104Command {
    GeneralInterrogation,
    SendRaw(Vec<u8>),
}

// ── U-frames ────────────────────────────────────────────────────────────────

/// The six bytes of a U-frame whose control octet is `control`.
pub open spec fn u_frame_spec(control: u8) -> Seq<u8> {
    seq![START, 4u8, control, 0u8, 0u8, 0u8]
}

fn u_frame(control: u8) -> (f: [u8; 6])
    ensures
        f@ == u_frame_spec(control),
{
    [START, 4, control, 0, 0, 0]
}

/// STARTDT act.
pub fn startdt_act() -> (f: [u8; 6])
    ensures
        f@ == u_frame_spec(0x07),
{
    u_frame(0x07)
}

/// STARTDT con.
pub fn startdt_con() -> (f: [u8; 6])
    ensures
        f@ == u_frame_spec(0x0b),
{
    u_frame(0x0b)
}

/// STOPDT act.
pub fn stopdt_act() -> (f: [u8; 6])
    ensures
        f@ == u_frame_spec(0x13),
{
    u_frame(0x13)
}

/// STOPDT con.
pub fn stopdt_con() -> (f: [u8; 6])
    ensures
        f@ == u_frame_spec(0x23),
{
    u_frame(0x23)
}

/// TESTFR con.
pub fn testfr_con() -> (f: [u8; 6])
    ensures
        f@ == u_frame_spec(0x83),
{
    u_frame(0x83)
}

// ── Validation ──────────────────────────────────────────────────────────────

/// A complete APDU: starts with 68, holds a control field, and its length
/// octet counts exactly the bytes after the first two.
pub open spec fn apdu_valid(frame: Seq<u8>) -> bool {
    &&& frame.len() >= 6
    &&& frame[0] == START
    &&& frame[1] as int + 2 == frame.len()
}

pub open spec fn bad_start_message() -> Seq<char> {
    "IEC 104 raw frame must start with 68 and include a 4-byte control field"@
}

pub open spec fn length_mismatch_message(header: nat, body: nat) -> Seq<char> {
    "IEC 104 APDU length mismatch: header says "@ + decimal(header) + ", got "@ + decimal(body)
        + " bytes"@
}

/// Checks a raw APDU typed by the user before it is sent.
pub fn validate_apdu(frame: &[u8]) -> (r: Result<(), String>)
    ensures
        r is Ok <==> apdu_valid(frame@),
        (frame@.len() < 6 || frame@[0] != START) ==> (r matches Err(e) && e@ == bad_start_message()),
        (frame@.len() >= 6 && frame@[0] == START && frame@[1] as int + 2 != frame@.len())
            ==> (r matches Err(e) && e@ == length_mismatch_message(
            frame@[1] as nat,
            (frame@.len() - 2) as nat,
        )),
{
    if frame.len() < 6 || frame[0] != START {
        return Err(
            "IEC 104 raw frame must start with 68 and include a 4-byte control field".to_owned(),
        );
    }
    if frame[1] as usize + 2 != frame.len() {
        let mut e = "IEC 104 APDU length mismatch: header says ".to_owned();
        e.append(u64_to_decimal(frame[1] as u64).as_str());
        e.append(", got ");
        e.append(u64_to_decimal((frame.len() - 2) as u64).as_str());
        e.append(" bytes");
        return Err(e);
    }
    Ok(())
}

// ── Framing of a received byte stream ───────────────────────────────────────

/// The number of bytes before the first 68 (all of them if there is none).
pub open spec fn leading_junk(b: Seq<u8>) -> nat
    decreases b.len(),
{
    if b.len() == 0 {
        0
    } else if b[0] == START {
        0
    } else {
        1 + leading_junk(b.drop_first())
    }
}

/// The APDUs that can be cut from the front of `b`, and what stays buffered.
/// Bytes before a 68 are skipped; a 68 whose length octet announces fewer
/// than four control bytes is skipped; an APDU that is not yet complete stays
/// buffered, from its 68 on.
pub open spec fn split_frames(b: Seq<u8>) -> (Seq<Seq<u8>>, Seq<u8>)
    decreases b.len(),
{
    let j = leading_junk(b);
    if j >= b.len() {
        (Seq::empty(), Seq::empty())
    } else {
        let c = b.skip(j as int);
        if c.len() < 2 {
            (Seq::empty(), c)
        } else {
            let frame_len = c[1] as int + 2;
            if frame_len < 6 {
                split_frames(c.drop_first())
            } else if c.len() < frame_len {
                (Seq::empty(), c)
            } else {
                let rest = split_frames(c.skip(frame_len));
                (seq![c.take(frame_len)] + rest.0, rest.1)
            }
        }
    }
}

proof fn lemma_leading_junk_bound(b: Seq<u8>)
    ensures
        leading_junk(b) <= b.len(),
        leading_junk(b) < b.len() ==> b[leading_junk(b) as int] == START,
        forall|k: int| 0 <= k < leading_junk(b) ==> b[k] != START,
    decreases b.len(),
{
    if b.len() > 0 && b[0] != START {
        lemma_leading_junk_bound(b.drop_first());
        assert forall|k: int| 0 <= k < leading_junk(b) implies b[k] != START by {
            if k > 0 {
                assert(b[k] == b.drop_first()[k - 1]);
            }
        }
    }
}

proof fn lemma_leading_junk_step(b: Seq<u8>, q: int)
    requires
        0 <= q < b.len(),
        b[q] != START,
    ensures
        leading_junk(b.skip(q)) == 1 + leading_junk(b.skip(q + 1)),
{
    assert(b.skip(q).drop_first() =~= b.skip(q + 1));
}

proof fn lemma_leading_junk_hit(b: Seq<u8>, q: int)
    requires
        0 <= q < b.len(),
        b[q] == START,
    ensures
        leading_junk(b.skip(q)) == 0,
{
}

/// Every frame cut by `split_frames` is a complete APDU, and what stays
/// buffered is empty or an incomplete APDU that begins with 68.
pub proof fn lemma_split_frames_well_formed(b: Seq<u8>)
    ensures
        forall|i: int| 0 <= i < split_frames(b).0.len() ==> apdu_valid(#[trigger] split_frames(b).0[i]),
        split_frames(b).1.len() == 0 || (split_frames(b).1[0] == START && (split_frames(b).1.len() < 2
            || (6 <= split_frames(b).1[1] as int + 2 && split_frames(b).1.len() < split_frames(b).1[1] as int + 2))),
    decreases b.len(),
{
    lemma_leading_junk_bound(b);
    let j = leading_junk(b);
    if j < b.len() {
        let c = b.skip(j as int);
        if c.len() >= 2 {
            let frame_len = c[1] as int + 2;
            if frame_len < 6 {
                lemma_split_frames_well_formed(c.drop_first());
            } else if c.len() >= frame_len {
                lemma_split_frames_well_formed(c.skip(frame_len));
                let rest = split_frames(c.skip(frame_len));
                assert forall|i: int| 0 <= i < split_frames(b).0.len() implies apdu_valid(
                    #[trigger] split_frames(b).0[i],
                ) by {
                    if i > 0 {
                        assert(split_frames(b).0[i] == rest.0[i - 1]);
                    }
                }
            }
        }
    }
}

proof fn lemma_leading_junk_prefix(a: Seq<u8>, b: Seq<u8>)
    ensures
        leading_junk(a) < a.len() ==> leading_junk(a + b) == leading_junk(a),
        leading_junk(a) >= a.len() ==> leading_junk(a + b) == a.len() + leading_junk(b),
    decreases a.len(),
{
    if a.len() > 0 {
        assert((a + b)[0] == a[0]);
        if a[0] != START {
            assert((a + b).drop_first() =~= a.drop_first() + b);
            lemma_leading_junk_prefix(a.drop_first(), b);
        }
    } else {
        assert(a + b =~= b);
    }
}

/// Bytes before the first 68 do not change what is cut.
proof fn lemma_split_frames_skip_junk(x: Seq<u8>, j: int)
    requires
        0 <= j <= x.len(),
        forall|k: int| 0 <= k < j ==> x[k] != START,
    ensures
        split_frames(x) == split_frames(x.skip(j)),
    decreases j,
{
    if j > 0 {
        assert(x.skip(1) =~= x.drop_first());
        assert(x.drop_first().skip(j - 1) =~= x.skip(j));
        lemma_split_frames_skip_junk(x.drop_first(), j - 1);
        lemma_leading_junk_step(x, 0);
        assert(x.skip(0) =~= x);
        assert(x.skip(1) =~= x.drop_first());
        let y = x.drop_first();
        if leading_junk(y) < y.len() {
            assert(x.skip(1 + leading_junk(y) as int) =~= y.skip(leading_junk(y) as int));
        }
    } else {
        assert(x.skip(0) =~= x);
    }
}

/// Bytes that arrive in pieces are cut into the same APDUs as bytes that
/// arrive at once: cutting `a`, then cutting what stayed buffered followed by
/// `b`, gives the frames of `a + b` and leaves the same bytes buffered.
pub proof fn lemma_split_frames_fragmented(a: Seq<u8>, b: Seq<u8>)
    ensures
        split_frames(a + b) == (split_frames(a).0 + split_frames(split_frames(a).1 + b).0,
            split_frames(split_frames(a).1 + b).1),
    decreases a.len(),
{
    lemma_leading_junk_prefix(a, b);
    lemma_leading_junk_bound(a);
    let j = leading_junk(a);
    if j >= a.len() {
        lemma_leading_junk_bound(a + b);
        assert forall|k: int| 0 <= k < a.len() implies (a + b)[k] != START by {
            assert((a + b)[k] == a[k]);
        }
        lemma_split_frames_skip_junk(a + b, a.len() as int);
        assert((a + b).skip(a.len() as int) =~= b);
        assert(Seq::<u8>::empty() + b =~= b);
        assert(Seq::<Seq<u8>>::empty() + split_frames(b).0 =~= split_frames(b).0);
    } else {
        let c = a.skip(j as int);
        assert((a + b).skip(j as int) =~= c + b);
        assert((c + b)[0] == c[0]);
        if c.len() >= 2 {
            assert((c + b)[1] == c[1]);
        }
        let frame_len = if c.len() >= 2 { c[1] as int + 2 } else { 0 };
        if c.len() < 2 || (frame_len >= 6 && c.len() < frame_len) {
            assert(leading_junk(c + b) == 0);
            assert((c + b).skip(0) =~= c + b);
            assert(Seq::<Seq<u8>>::empty() + split_frames(c + b).0 =~= split_frames(c + b).0);
        } else if frame_len < 6 {
            assert((c + b).drop_first() =~= c.drop_first() + b);
            lemma_split_frames_fragmented(c.drop_first(), b);
        } else {
            assert((c + b).take(frame_len) =~= c.take(frame_len));
            assert((c + b).skip(frame_len) =~= c.skip(frame_len) + b);
            lemma_split_frames_fragmented(c.skip(frame_len), b);
            let rest = split_frames(c.skip(frame_len));
            let more = split_frames(rest.1 + b);
            assert(seq![c.take(frame_len)] + (rest.0 + more.0) =~= (seq![c.take(frame_len)] + rest.0)
                + more.0);
        }
    }
}

/// Cutting again what stayed buffered, with no new bytes, cuts nothing and
/// keeps the same bytes.
pub proof fn lemma_split_frames_settled(b: Seq<u8>)
    ensures
        split_frames(split_frames(b).1) == (Seq::<Seq<u8>>::empty(), split_frames(b).1),
{
    lemma_split_frames_well_formed(b);
    let r = split_frames(b).1;
    if r.len() > 0 {
        assert(r.skip(0) =~= r);
    }
}

/// The byte sequences held by a list of frames.
pub open spec fn frames_view(v: Seq<Vec<u8>>) -> Seq<Seq<u8>> {
    v.map_values(|f: Vec<u8>| f@)
}

/// Cuts the complete APDUs from the front of `buffer` and leaves in it what
/// `split_frames` keeps buffered.
pub fn drain_frames(buffer: &mut Vec<u8>) -> (frames: Vec<Vec<u8>>)
    ensures
        frames_view(frames@) == split_frames(old(buffer)@).0,
        final(buffer)@ == split_frames(old(buffer)@).1,
{
    let ghost b = buffer@;
    let n = buffer.len();
    let mut frames: Vec<Vec<u8>> = Vec::new();
    let mut pos: usize = 0;
    let mut keep: usize = n;
    assert(b.skip(0) =~= b);
    assert(frames_view(frames@) + split_frames(b).0 =~= split_frames(b).0);
    loop
        invariant_except_break
            b == buffer@,
            n == b.len(),
            pos <= n,
            split_frames(b) == (frames_view(frames@) + split_frames(b.skip(pos as int)).0, split_frames(
                b.skip(pos as int),
            ).1),
        ensures
            b == buffer@,
            n == b.len(),
            keep <= n,
            split_frames(b) == (frames_view(frames@), b.skip(keep as int)),
        decreases n - pos,
    {
        // Find the next 68 at or after `pos`.
        let mut q = pos;
        while q < n && buffer[q] != START
            invariant
                b == buffer@,
                n == b.len(),
                pos <= q <= n,
                leading_junk(b.skip(pos as int)) == (q - pos) + leading_junk(b.skip(q as int)),
            decreases n - q,
        {
            proof {
                lemma_leading_junk_step(b, q as int);
            }
            q = q + 1;
        }
        let ghost c0 = b.skip(pos as int);
        proof {
            lemma_leading_junk_bound(c0);
        }
        if q == n {
            assert(b.skip(q as int).len() == 0);
            assert(split_frames(b.skip(pos as int)) == (Seq::<Seq<u8>>::empty(), Seq::<u8>::empty()));
            assert(frames_view(frames@) + Seq::<Seq<u8>>::empty() =~= frames_view(frames@));
            assert(b.skip(n as int) =~= Seq::<u8>::empty());
            keep = n;
            break;
        }
        proof {
            lemma_leading_junk_hit(b, q as int);
        }
        assert(c0.skip(q - pos) =~= b.skip(q as int));
        if n - q < 2 {
            assert(frames_view(frames@) + Seq::<Seq<u8>>::empty() =~= frames_view(frames@));
            keep = q;
            break;
        }
        let frame_len = buffer[q + 1] as usize + 2;
        if frame_len < 6 {
            assert(b.skip(q as int).drop_first() =~= b.skip(q + 1));
            pos = q + 1;
            continue;
        }
        if n - q < frame_len {
            assert(frames_view(frames@) + Seq::<Seq<u8>>::empty() =~= frames_view(frames@));
            keep = q;
            break;
        }
        let mut frame: Vec<u8> = Vec::new();
        let mut k = q;
        while k < q + frame_len
            invariant
                b == buffer@,
                n == b.len(),
                q <= k <= q + frame_len <= n,
                frame@ == b.subrange(q as int, k as int),
            decreases q + frame_len - k,
        {
            frame.push(buffer[k]);
            k = k + 1;
        }
        let ghost before = frames_view(frames@);
        frames.push(frame);
        proof {
            assert(b.skip(q as int).take(frame_len as int) =~= b.subrange(q as int, (q + frame_len) as int));
            assert(b.skip(q as int).skip(frame_len as int) =~= b.skip((q + frame_len) as int));
            assert(frames_view(frames@) =~= before.push(frame@));
            let rest = split_frames(b.skip((q + frame_len) as int));
            assert(before + (seq![frame@] + rest.0) =~= before.push(frame@) + rest.0);
        }
        pos = q + frame_len;
    }
    let mut rest: Vec<u8> = Vec::new();
    let mut k = keep;
    while k < n
        invariant
            b == buffer@,
            n == b.len(),
            keep <= k <= n,
            rest@ == b.subrange(keep as int, k as int),
        decreases n - k,
    {
        rest.push(buffer[k]);
        k = k + 1;
    }
    assert(rest@ =~= b.skip(keep as int));
    *buffer = rest;
    frames
}

// ── Control field ───────────────────────────────────────────────────────────

/// An I-frame: a complete control field whose first octet has bit 0 clear.
pub open spec fn is_i_frame_spec(frame: Seq<u8>) -> bool {
    frame.len() >= 6 && frame[2] % 2 == 0
}

pub fn is_i_frame(frame: &[u8]) -> (b: bool)
    ensures
        b == is_i_frame_spec(frame@),
{
    frame.len() >= 6 && frame[2] % 2 == 0
}

/// The 15-bit sequence number held little-endian, shifted left by one, in
/// the octets `low` and `high`.
pub open spec fn control_sequence_spec(low: u8, high: u8) -> nat {
    (low as nat + 256 * high as nat) / 2
}

pub fn control_sequence(low: u8, high: u8) -> (n: u16)
    ensures
        n as nat == control_sequence_spec(low, high),
        n < 0x8000,
{
    ((low as u16) / 2) + (high as u16) * 128
}

/// The two octets that carry sequence number `n` (taken modulo 2^15).
pub open spec fn sequence_octets(n: nat) -> (u8, u8) {
    let v = (n % 0x8000) * 2;
    ((v % 256) as u8, (v / 256) as u8)
}

fn sequence_bytes(n: u16) -> (r: (u8, u8))
    ensures
        r == sequence_octets(n as nat),
{
    let v: u16 = (n % 0x8000) * 2;
    ((v % 256) as u8, (v / 256) as u8)
}

/// Reading back the octets written for a sequence number gives the number
/// modulo 2^15.
pub proof fn lemma_sequence_round_trip(n: nat)
    ensures
        control_sequence_spec(sequence_octets(n).0, sequence_octets(n).1) == n % 0x8000,
{
}

/// The S-frame that acknowledges everything before `receive_sequence`.
pub open spec fn s_frame_spec(receive_sequence: nat) -> Seq<u8> {
    let r = sequence_octets(receive_sequence);
    seq![START, 4u8, 0x01u8, 0u8, r.0, r.1]
}

pub fn s_frame(receive_sequence: u16) -> (f: [u8; 6])
    ensures
        f@ == s_frame_spec(receive_sequence as nat),
{
    let r = sequence_bytes(receive_sequence);
    [START, 4, 0x01, 0, r.0, r.1]
}

/// The control octet of a U-frame activation that the client confirms, and
/// the confirmation it sends back.
pub open spec fn u_frame_response_spec(frame: Seq<u8>) -> Option<Seq<u8>> {
    if frame.len() < 6 {
        None
    } else if frame[2] == 0x07 {
        Some(u_frame_spec(0x0b))
    } else if frame[2] == 0x13 {
        Some(u_frame_spec(0x23))
    } else if frame[2] == 0x43 {
        Some(u_frame_spec(0x83))
    } else {
        None
    }
}

/// The answer to a STARTDT, STOPDT or TESTFR activation, if `frame` is one.
pub fn u_frame_response(frame: &[u8]) -> (r: Option<[u8; 6]>)
    ensures
        r matches Some(f) ==> u_frame_response_spec(frame@) == Some(f@),
        r is None ==> u_frame_response_spec(frame@) is None,
{
    if frame.len() < 6 || frame[2] % 4 != 3 {
        return None;
    }
    match frame[2] {
        0x07 => Some(startdt_con()),
        0x13 => Some(stopdt_con()),
        0x43 => Some(testfr_con()),
        _ => None,
    }
}

// ── Building frames ─────────────────────────────────────────────────────────

/// An I-frame carrying `asdu`; the length octet is taken modulo 256 as the
/// byte it is written into.
pub open spec fn i_frame_spec(send_sequence: nat, receive_sequence: nat, asdu: Seq<u8>) -> Seq<u8> {
    let s = sequence_octets(send_sequence);
    let r = sequence_octets(receive_sequence);
    seq![START, ((asdu.len() + 4) % 256) as u8, s.0, s.1, r.0, r.1] + asdu
}

pub fn build_i_frame(send_sequence: u16, receive_sequence: u16, asdu: &[u8]) -> (f: Vec<u8>)
    ensures
        f@ == i_frame_spec(send_sequence as nat, receive_sequence as nat, asdu@),
{
    let s = sequence_bytes(send_sequence);
    let r = sequence_bytes(receive_sequence);
    let mut frame: Vec<u8> = Vec::new();
    frame.push(START);
    frame.push(((asdu.len() % 256 + 4) % 256) as u8);
    frame.push(s.0);
    frame.push(s.1);
    frame.push(r.0);
    frame.push(r.1);
    let mut i: usize = 0;
    while i < asdu.len()
        invariant
            i <= asdu@.len(),
            frame@ == seq![START, ((asdu@.len() + 4) % 256) as u8, s.0, s.1, r.0, r.1] + asdu@.take(i as int),
        decreases asdu@.len() - i,
    {
        frame.push(asdu[i]);
        i = i + 1;
        assert(frame@ =~= seq![START, ((asdu@.len() + 4) % 256) as u8, s.0, s.1, r.0, r.1] + asdu@.take(i as int));
    }
    assert(asdu@.take(asdu@.len() as int) =~= asdu@);
    frame
}

/// An I-frame with an ASDU of at most 251 bytes is a complete APDU, is an
/// I-frame, and carries its sequence numbers modulo 2^15.
pub proof fn lemma_i_frame_well_formed(send_sequence: nat, receive_sequence: nat, asdu: Seq<u8>)
    requires
        asdu.len() <= 251,
    ensures
        apdu_valid(i_frame_spec(send_sequence, receive_sequence, asdu)),
        is_i_frame_spec(i_frame_spec(send_sequence, receive_sequence, asdu)),
        control_sequence_spec(
            i_frame_spec(send_sequence, receive_sequence, asdu)[2],
            i_frame_spec(send_sequence, receive_sequence, asdu)[3],
        ) == send_sequence % 0x8000,
        control_sequence_spec(
            i_frame_spec(send_sequence, receive_sequence, asdu)[4],
            i_frame_spec(send_sequence, receive_sequence, asdu)[5],
        ) == receive_sequence % 0x8000,
        i_frame_spec(send_sequence, receive_sequence, asdu).skip(6) == asdu,
{
    let f = i_frame_spec(send_sequence, receive_sequence, asdu);
    assert(f.skip(6) =~= asdu);
}

/// The data unit identifier: type, one object, cause, originator, common
/// address little-endian.
pub open spec fn asdu_header_spec(type_id: u8, cause: u8, originator: u8, common: u16) -> Seq<u8> {
    seq![type_id, 1u8, cause, originator, (common % 256) as u8, (common / 256) as u8]
}

pub fn asdu_header(type_id: u8, cause: u8, config: &Iec104Config) -> (h: Vec<u8>)
    ensures
        h@ == asdu_header_spec(type_id, cause, config.originator_address, config.common_address),
{
    let common = config.common_address;
    let mut h: Vec<u8> = Vec::new();
    h.push(type_id);
    h.push(1);
    h.push(cause);
    h.push(config.originator_address);
    h.push((common % 256) as u8);
    h.push((common / 256) as u8);
    assert(h@ =~= asdu_header_spec(type_id, cause, config.originator_address, config.common_address));
    h
}

/// C_IC_NA_1 activation for the whole station: IOA 0, QOI 20.
pub open spec fn general_interrogation_spec(originator: u8, common: u16) -> Seq<u8> {
    asdu_header_spec(100, 6, originator, common) + seq![0u8, 0u8, 0u8, 20u8]
}

pub fn general_interrogation_asdu(config: &Iec104Config) -> (a: Vec<u8>)
    ensures
        a@ == general_interrogation_spec(config.originator_address, config.common_address),
{
    let mut asdu = asdu_header(100, 6, config);
    asdu.push(0);
    asdu.push(0);
    asdu.push(0);
    asdu.push(20);
    assert(asdu@ =~= general_interrogation_spec(config.originator_address, config.common_address));
    asdu
}

// ── Describing an APDU ──────────────────────────────────────────────────────

/// The IEC 60870-5-101 mnemonic of an ASDU type.
pub open spec fn asdu_type_name_spec(type_id: u8) -> Seq<char> {
    if type_id == 1 { "M_SP_NA_1"@ }
    else if type_id == 3 { "M_DP_NA_1"@ }
    else if type_id == 9 { "M_ME_NA_1"@ }
    else if type_id == 11 { "M_ME_NB_1"@ }
    else if type_id == 13 { "M_ME_NC_1"@ }
    else if type_id == 30 { "M_SP_TB_1"@ }
    else if type_id == 31 { "M_DP_TB_1"@ }
    else if type_id == 34 { "M_ME_TD_1"@ }
    else if type_id == 35 { "M_ME_TE_1"@ }
    else if type_id == 36 { "M_ME_TF_1"@ }
    else if type_id == 45 { "C_SC_NA_1"@ }
    else if type_id == 46 { "C_DC_NA_1"@ }
    else if type_id == 100 { "C_IC_NA_1"@ }
    else if type_id == 101 { "C_CI_NA_1"@ }
    else if type_id == 103 { "C_CS_NA_1"@ }
    else { "ASDU"@ }
}

pub fn asdu_type_name(type_id: u8) -> (s: &'static str)
    ensures
        s@ == asdu_type_name_spec(type_id),
{
    match type_id {
        1 => "M_SP_NA_1",
        3 => "M_DP_NA_1",
        9 => "M_ME_NA_1",
        11 => "M_ME_NB_1",
        13 => "M_ME_NC_1",
        30 => "M_SP_TB_1",
        31 => "M_DP_TB_1",
        34 => "M_ME_TD_1",
        35 => "M_ME_TE_1",
        36 => "M_ME_TF_1",
        45 => "C_SC_NA_1",
        46 => "C_DC_NA_1",
        100 => "C_IC_NA_1",
        101 => "C_CI_NA_1",
        103 => "C_CS_NA_1",
        _ => "ASDU",
    }
}

/// The name of a cause of transmission, or its number.
pub open spec fn cause_name_spec(cause: u8) -> Seq<char> {
    if cause == 1 { "periodic"@ }
    else if cause == 2 { "background"@ }
    else if cause == 3 { "spontaneous"@ }
    else if cause == 5 { "request"@ }
    else if cause == 6 { "activation"@ }
    else if cause == 7 { "activation-confirm"@ }
    else if cause == 10 { "activation-termination"@ }
    else if cause == 20 { "interrogated"@ }
    else { decimal(cause as nat) }
}

pub fn cause_name(cause: u8) -> (s: String)
    ensures
        s@ == cause_name_spec(cause),
{
    match cause {
        1 => "periodic".to_owned(),
        2 => "background".to_owned(),
        3 => "spontaneous".to_owned(),
        5 => "request".to_owned(),
        6 => "activation".to_owned(),
        7 => "activation-confirm".to_owned(),
        10 => "activation-termination".to_owned(),
        20 => "interrogated".to_owned(),
        value => u64_to_decimal(value as u64),
    }
}

/// Distinct causes of transmission get distinct names: a trace can always
/// tell, say, an activation confirmation (7) from an activation termination
/// (10), and a named cause from a numbered one.
pub proof fn lemma_cause_names_distinct(a: u8, b: u8)
    requires
        a != b,
    ensures
        cause_name_spec(a) != cause_name_spec(b),
{
    reveal_strlit("periodic");
    reveal_strlit("background");
    reveal_strlit("spontaneous");
    reveal_strlit("request");
    reveal_strlit("activation");
    reveal_strlit("activation-confirm");
    reveal_strlit("activation-termination");
    reveal_strlit("interrogated");
    lemma_decimal_digits(a as nat);
    lemma_decimal_digits(b as nat);
    lemma_decimal_value(a as nat);
    lemma_decimal_value(b as nat);
    let x = cause_name_spec(a);
    let y = cause_name_spec(b);
    if x == y {
        assert(x.len() == y.len());
        assert(x[0] == y[0]);
        if x.len() > 10 {
            assert(x[11] == y[11]);
        }
        assert(false);
    }
}

/// The causes of the activation exchange (activation 6, its confirmation 7
/// and its termination 10) are exactly those whose names begin with
/// "activation"; the confirmation's name goes on with "-confirm" and the
/// termination's with "-termination".
pub proof fn lemma_activation_cause_names(c: u8)
    ensures
        (cause_name_spec(c).len() >= 10 && cause_name_spec(c).take(10) == "activation"@) <==> (c == 6 || c == 7 || c == 10),
        c == 7 ==> cause_name_spec(c).skip(10) == "-confirm"@,
        c == 10 ==> cause_name_spec(c).skip(10) == "-termination"@,
{
    reveal_strlit("periodic");
    reveal_strlit("background");
    reveal_strlit("spontaneous");
    reveal_strlit("request");
    reveal_strlit("activation");
    reveal_strlit("activation-confirm");
    reveal_strlit("activation-termination");
    reveal_strlit("interrogated");
    reveal_strlit("-confirm");
    reveal_strlit("-termination");
    lemma_decimal_digits(c as nat);
    let x = cause_name_spec(c);
    if x.len() >= 10 && x.take(10) == "activation"@ {
        assert(x.take(10)[0] == x[0]);
        assert(("activation"@)[0] == 'a');
        assert(x[0] == 'a');
    }
    if c == 6 || c == 7 || c == 10 {
        assert(x.take(10) =~= "activation"@);
    }
    if c == 7 {
        assert(x.skip(10) =~= "-confirm"@);
    }
    if c == 10 {
        assert(x.skip(10) =~= "-termination"@);
    }
}

/// A signed 16-bit value stored little-endian.
pub open spec fn i16_le(low: u8, high: u8) -> int {
    let u = low as int + 256 * high as int;
    if u >= 0x8000 { u - 0x1_0000 } else { u }
}

/// The bit pattern of an `f32` stored little-endian.
pub open spec fn u32_le(b0: u8, b1: u8, b2: u8, b3: u8) -> u32 {
    (b0 as int + 0x100 * b1 as int + 0x1_0000 * b2 as int + 0x100_0000 * b3 as int) as u32
}

/// The value of the first information element, for the types the monitor
/// knows: single and double points, normalised and scaled values, short
/// floats (6 decimals) and the interrogation qualifier.
pub open spec fn information_value_spec(type_id: u8, b: Seq<u8>) -> Option<Seq<char>> {
    if type_id == 1 || type_id == 30 {
        if b.len() >= 1 { Some(if b[0] % 2 == 1 { "true"@ } else { "false"@ }) } else { None }
    } else if type_id == 3 || type_id == 31 {
        if b.len() >= 1 { Some(decimal((b[0] % 4) as nat)) } else { None }
    } else if type_id == 9 || type_id == 11 || type_id == 34 || type_id == 35 {
        if b.len() >= 2 { Some(int_decimal(i16_le(b[0], b[1]))) } else { None }
    } else if type_id == 13 || type_id == 36 {
        if b.len() >= 4 { Some(f32_fixed_text(u32_le(b[0], b[1], b[2], b[3]), 6)) } else { None }
    } else if type_id == 100 {
        if b.len() >= 1 { Some("QOI="@ + decimal(b[0] as nat)) } else { None }
    } else {
        None
    }
}

pub fn information_value(type_id: u8, bytes: &[u8]) -> (r: Option<String>)
    ensures
        r matches Some(v) ==> information_value_spec(type_id, bytes@) == Some(v@),
        r is None ==> information_value_spec(type_id, bytes@) is None,
{
    match type_id {
        1 | 30 => {
            if bytes.len() < 1 {
                return None;
            }
            if bytes[0] % 2 == 1 {
                Some("true".to_owned())
            } else {
                Some("false".to_owned())
            }
        }
        3 | 31 => {
            if bytes.len() < 1 {
                return None;
            }
            Some(u64_to_decimal((bytes[0] % 4) as u64))
        }
        9 | 11 | 34 | 35 => {
            if bytes.len() < 2 {
                return None;
            }
            let u: i64 = bytes[0] as i64 + 256 * bytes[1] as i64;
            let v: i64 = if u >= 0x8000 { u - 0x1_0000 } else { u };
            Some(i64_to_decimal(v))
        }
        13 | 36 => {
            if bytes.len() < 4 {
                return None;
            }
            let bits: u32 = bytes[0] as u32 + 0x100 * bytes[1] as u32 + 0x1_0000 * bytes[2] as u32
                + 0x100_0000 * bytes[3] as u32;
            Some(f32_fixed_string(bits, 6))
        }
        100 => {
            if bytes.len() < 1 {
                return None;
            }
            let mut t = "QOI=".to_owned();
            t.append(u64_to_decimal(bytes[0] as u64).as_str());
            Some(t)
        }
        _ => None,
    }
}

/// The name of a U-frame control octet, or its value in hexadecimal.
pub open spec fn u_frame_label_spec(control: u8) -> Seq<char> {
    if control == 0x07 { "U STARTDT act"@ }
    else if control == 0x0b { "U STARTDT con"@ }
    else if control == 0x13 { "U STOPDT act"@ }
    else if control == 0x23 { "U STOPDT con"@ }
    else if control == 0x43 { "U TESTFR act"@ }
    else if control == 0x83 { "U TESTFR con"@ }
    else { "U control=0x"@ + hex_upper_fixed(control as nat, 2) }
}

fn u_frame_label(control: u8) -> (s: String)
    ensures
        s@ == u_frame_label_spec(control),
{
    match control {
        0x07 => "U STARTDT act".to_owned(),
        0x0b => "U STARTDT con".to_owned(),
        0x13 => "U STOPDT act".to_owned(),
        0x23 => "U STOPDT con".to_owned(),
        0x43 => "U TESTFR act".to_owned(),
        0x83 => "U TESTFR con".to_owned(),
        value => {
            let mut t = "U control=0x".to_owned();
            t.append(u64_to_hex_fixed(value as u64, 2, true).as_str());
            t
        }
    }
}

pub open spec fn flag_text(on: bool, text: Seq<char>) -> Seq<char> {
    if on { text } else { Seq::empty() }
}

/// The I-frame header: both sequence numbers.
pub open spec fn i_head_spec(f: Seq<u8>) -> Seq<char> {
    "I S="@ + decimal(control_sequence_spec(f[2], f[3])) + " R="@ + decimal(
        control_sequence_spec(f[4], f[5]),
    )
}

/// The data unit identifier of the ASDU `a` (at least 6 bytes).
pub open spec fn asdu_identifier_spec(a: Seq<u8>) -> Seq<char> {
    " "@ + asdu_type_name_spec(a[0]) + "("@ + decimal(a[0] as nat) + ") VSQ="@ + decimal((a[1] % 128) as nat)
        + flag_text(a[1] >= 128, " SQ"@) + " COT="@ + cause_name_spec((a[2] % 64) as u8) + flag_text(
        (a[2] / 64) % 2 == 1,
        " NEG"@,
    ) + flag_text(a[2] >= 128, " TEST"@) + " CA="@ + decimal(a[4] as nat + 256 * a[5] as nat)
}

/// The first information object address and value of the ASDU `a`.
pub open spec fn asdu_object_spec(a: Seq<u8>) -> Seq<char> {
    if a.len() >= 9 {
        " IOA="@ + decimal(a[6] as nat + 0x100 * a[7] as nat + 0x1_0000 * a[8] as nat) + match information_value_spec(a[0], a.skip(9)) {
            Some(v) => " value="@ + v,
            None => Seq::empty(),
        }
    } else {
        Seq::empty()
    }
}

/// A one-line summary of an APDU for the trace.
pub open spec fn describe_apdu_spec(f: Seq<u8>) -> Seq<char> {
    if f.len() < 6 {
        "invalid APDU"@
    } else if f[2] % 2 == 0 {
        if f.len() < 12 {
            i_head_spec(f) + " (missing ASDU header)"@
        } else {
            i_head_spec(f) + asdu_identifier_spec(f.skip(6)) + asdu_object_spec(f.skip(6))
        }
    } else if f[2] % 4 == 1 {
        "S ACK R="@ + decimal(control_sequence_spec(f[4], f[5]))
    } else {
        u_frame_label_spec(f[2])
    }
}

fn push_flag(out: &mut String, on: bool, text: &str)
    ensures
        final(out)@ == old(out)@ + flag_text(on, text@),
{
    if on {
        out.append(text);
    } else {
        assert(old(out)@ + Seq::<char>::empty() =~= old(out)@);
    }
}

fn describe_asdu_identifier(a: &[u8]) -> (s: String)
    requires
        a@.len() >= 6,
    ensures
        s@ == asdu_identifier_spec(a@),
{
    let mut out = " ".to_owned();
    out.append(asdu_type_name(a[0]));
    out.append("(");
    out.append(u64_to_decimal(a[0] as u64).as_str());
    out.append(") VSQ=");
    out.append(u64_to_decimal((a[1] % 128) as u64).as_str());
    push_flag(&mut out, a[1] >= 128, " SQ");
    out.append(" COT=");
    out.append(cause_name(a[2] % 64).as_str());
    push_flag(&mut out, (a[2] / 64) % 2 == 1, " NEG");
    push_flag(&mut out, a[2] >= 128, " TEST");
    out.append(" CA=");
    out.append(u64_to_decimal(a[4] as u64 + 256 * a[5] as u64).as_str());
    out
}

fn describe_asdu_object(a: &[u8]) -> (s: String)
    ensures
        s@ == asdu_object_spec(a@),
{
    if a.len() < 9 {
        return String::new();
    }
    let mut out = " IOA=".to_owned();
    out.append(
        u64_to_decimal(a[6] as u64 + 0x100 * a[7] as u64 + 0x1_0000 * a[8] as u64).as_str(),
    );
    let mut rest: Vec<u8> = Vec::new();
    let mut i: usize = 9;
    while i < a.len()
        invariant
            9 <= i <= a@.len(),
            rest@ == a@.subrange(9, i as int),
        decreases a@.len() - i,
    {
        rest.push(a[i]);
        i = i + 1;
    }
    assert(rest@ =~= a@.skip(9));
    match information_value(a[0], rest.as_slice()) {
        Some(v) => {
            out.append(" value=");
            out.append(v.as_str());
        }
        None => {}
    }
    out
}

/// A one-line summary of an APDU: sequence numbers and ASDU fields of an
/// I-frame, the acknowledged number of an S-frame, the function of a U-frame.
pub fn describe_apdu(frame: &[u8]) -> (s: String)
    ensures
        s@ == describe_apdu_spec(frame@),
{
    if frame.len() < 6 {
        return "invalid APDU".to_owned();
    }
    if frame[2] % 2 == 0 {
        let mut out = "I S=".to_owned();
        out.append(u64_to_decimal(control_sequence(frame[2], frame[3]) as u64).as_str());
        out.append(" R=");
        out.append(u64_to_decimal(control_sequence(frame[4], frame[5]) as u64).as_str());
        if frame.len() < 12 {
            out.append(" (missing ASDU header)");
            return out;
        }
        let mut asdu: Vec<u8> = Vec::new();
        let mut i: usize = 6;
        while i < frame.len()
            invariant
                6 <= i <= frame@.len(),
                asdu@ == frame@.subrange(6, i as int),
            decreases frame@.len() - i,
        {
            asdu.push(frame[i]);
            i = i + 1;
        }
        assert(asdu@ =~= frame@.skip(6));
        out.append(describe_asdu_identifier(asdu.as_slice()).as_str());
        out.append(describe_asdu_object(asdu.as_slice()).as_str());
        out
    } else if frame[2] % 4 == 1 {
        let mut out = "S ACK R=".to_owned();
        out.append(u64_to_decimal(control_sequence(frame[4], frame[5]) as u64).as_str());
        out
    } else {
        u_frame_label(frame[2])
    }
}

// ── Session ─────────────────────────────────────────────────────────────────

/// A frame to write to the outstation, its trace label, and the send
/// sequence number to use once it is written (for an I-frame).
pub struct Iec104Outgoing {
    pub frame: Vec<u8>,
    pub label: String,
    pub next_send_sequence: Option<u16>,
}

/// The six bytes of a control frame, in a vector.
fn frame_vec(f: &[u8; 6]) -> (v: Vec<u8>)
    ensures
        v@ == f@,
{
    let mut v: Vec<u8> = Vec::new();
    let mut i: usize = 0;
    while i < 6
        invariant
            i <= 6,
            v@ == f@.take(i as int),
        decreases 6 - i,
    {
        v.push(f[i]);
        i = i + 1;
        assert(v@ =~= f@.take(i as int));
    }
    assert(f@.take(6) =~= f@);
    v
}

/// The sequence numbers of a running IEC 104 connection: the number of the
/// next I-frame to send, and the number of the next I-frame expected (the
/// one that the last acknowledgement named).
pub struct Iec104Session {
    pub send_sequence: u16,
    pub receive_sequence: u16,
}

impl Iec104Session {
    /// Both numbers are 15-bit.
    pub open spec fn wf(&self) -> bool {
        self.send_sequence < 0x8000 && self.receive_sequence < 0x8000
    }

    /// A session right after STARTDT: both numbers are 0.
    pub fn new() -> (s: Self)
        ensures
            s.wf(),
            s.send_sequence == 0,
            s.receive_sequence == 0,
    {
        Iec104Session { send_sequence: 0, receive_sequence: 0 }
    }

    /// Handles one received APDU and returns the frame to send back, if any:
    /// an I-frame is acknowledged with an S-frame naming the number after
    /// its own; a STARTDT, STOPDT or TESTFR activation is confirmed.
    pub fn on_received(&mut self, frame: &[u8]) -> (reply: Option<(Vec<u8>, String)>)
        requires
            old(self).wf(),
        ensures
            final(self).wf(),
            final(self).send_sequence == old(self).send_sequence,
            is_i_frame_spec(frame@) ==> {
                &&& final(self).receive_sequence == (control_sequence_spec(frame@[2], frame@[3]) + 1)
                    % 0x8000
                &&& reply matches Some(r) && r.0@ == s_frame_spec(final(self).receive_sequence as nat)
                    && r.1@ == "S ACK R="@ + decimal(final(self).receive_sequence as nat)
            },
            !is_i_frame_spec(frame@) ==> {
                &&& final(self).receive_sequence == old(self).receive_sequence
                &&& match u_frame_response_spec(frame@) {
                    Some(resp) => reply matches Some(r) && r.0@ == resp && r.1@ == describe_apdu_spec(resp),
                    None => reply is None,
                }
            },
    {
        if is_i_frame(frame) {
            let peer = control_sequence(frame[2], frame[3]);
            let next: u16 = (peer + 1) % 0x8000;
            self.receive_sequence = next;
            let ack = s_frame(next);
            let v = frame_vec(&ack);
            let mut label = "S ACK R=".to_owned();
            label.append(u64_to_decimal(next as u64).as_str());
            Some((v, label))
        } else {
            match u_frame_response(frame) {
                Some(resp) => {
                    let v = frame_vec(&resp);
                    let label = describe_apdu(&resp);
                    Some((v, label))
                }
                None => None,
            }
        }
    }

    /// The acknowledgement sent for an I-frame names, modulo 2^15, the number
    /// after the one the I-frame carried.
    pub proof fn lemma_acknowledges_next(frame: Seq<u8>)
        requires
            is_i_frame_spec(frame),
        ensures
            ({
                let next = (control_sequence_spec(frame[2], frame[3]) + 1) % 0x8000;
                control_sequence_spec(s_frame_spec(next)[4], s_frame_spec(next)[5]) == next
            }),
    {
        let next = (control_sequence_spec(frame[2], frame[3]) + 1) % 0x8000;
        lemma_sequence_round_trip(next);
    }

    /// What to write for a user command: a general interrogation I-frame with
    /// the current numbers, or a raw APDU once it passes `validate_apdu`.
    pub fn prepare_command(&self, command: &Iec104Command, config: &Iec104Config) -> (r: Result<
        Iec104Outgoing,
        String,
    >)
        requires
            self.wf(),
        ensures
            match command {
                Iec104Command::GeneralInterrogation => r matches Ok(out) && out.frame@ == i_frame_spec(
                    self.send_sequence as nat,
                    self.receive_sequence as nat,
                    general_interrogation_spec(config.originator_address, config.common_address),
                ) && out.label@ == "I C_IC_NA_1 general interrogation"@ && out.next_send_sequence
                    == Some(((self.send_sequence + 1) % 0x8000) as u16),
                Iec104Command::SendRaw(raw) => {
                    &&& (r is Ok <==> apdu_valid(raw@))
                    &&& (r matches Err(e) ==> validate_apdu_error(raw@) == Some(e@))
                    &&& (r matches Ok(out) ==> {
                        &&& out.frame@ == raw@
                        &&& out.label@ == "RAW "@ + describe_apdu_spec(raw@)
                        &&& out.next_send_sequence == if is_i_frame_spec(raw@) {
                            Some(((control_sequence_spec(raw@[2], raw@[3]) + 1) % 0x8000) as u16)
                        } else {
                            None
                        }
                    })
                },
            },
    {
        match command {
            Iec104Command::GeneralInterrogation => {
                let asdu = general_interrogation_asdu(config);
                let frame = build_i_frame(self.send_sequence, self.receive_sequence, asdu.as_slice());
                Ok(
                    Iec104Outgoing {
                        frame,
                        label: "I C_IC_NA_1 general interrogation".to_owned(),
                        next_send_sequence: Some((self.send_sequence + 1) % 0x8000),
                    },
                )
            },
            Iec104Command::SendRaw(raw) => {
                match validate_apdu(raw.as_slice()) {
                    Err(e) => Err(e),
                    Ok(()) => {
                        let next = if is_i_frame(raw.as_slice()) {
                            Some((control_sequence(raw[2], raw[3]) + 1) % 0x8000)
                        } else {
                            None
                        };
                        let mut label = "RAW ".to_owned();
                        label.append(describe_apdu(raw.as_slice()).as_str());
                        Ok(Iec104Outgoing { frame: raw.clone(), label, next_send_sequence: next })
                    },
                }
            },
        }
    }

    /// Records that `out` was written: an I-frame moves the send number on.
    pub fn sent(&mut self, out: &Iec104Outgoing)
        requires
            old(self).wf(),
            out.next_send_sequence matches Some(n) ==> n < 0x8000,
        ensures
            final(self).wf(),
            final(self).receive_sequence == old(self).receive_sequence,
            final(self).send_sequence == match out.next_send_sequence {
                Some(n) => n,
                None => old(self).send_sequence,
            },
    {
        if let Some(n) = out.next_send_sequence {
            self.send_sequence = n;
        }
    }
}

/// The error `validate_apdu` reports for a raw frame, if any.
pub open spec fn validate_apdu_error(frame: Seq<u8>) -> Option<Seq<char>> {
    if frame.len() < 6 || frame[0] != START {
        Some(bad_start_message())
    } else if frame[1] as int + 2 != frame.len() {
        Some(length_mismatch_message(frame[1] as nat, (frame.len() - 2) as nat))
    } else {
        None
    }
}

} // verus!
