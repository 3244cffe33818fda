//! Fixed-point text of IEEE 754 binary values given by their bit patterns,
//! as `format!("{:.p}")` prints an `f32` or an `f64`: the exact binary value
//! rounded to `p` decimals, ties to even.

use vstd::prelude::*;
use vstd::arithmetic::power2::{pow2, lemma_pow2_unfold, lemma_pow2_adds, lemma_pow2_strictly_increases, lemma_pow2_pos};

use crate::text::{decimal, decimal_padded, digit_char, u128_to_decimal_padded};

verus! {

pub open spec fn pow10(p: nat) -> nat
    decreases p,
{
    if p == 0 {
        1
    } else {
        10 * pow10((p - 1) as nat)
    }
}

/// `num / den` rounded to the nearest integer, ties to the even one.
pub open spec fn round_half_even(num: nat, den: nat) -> nat {
    let q = num / den;
    let r = num % den;
    if 2 * r > den || (2 * r == den && q % 2 == 1) {
        q + 1
    } else {
        q
    }
}

/// `v / 10^p` written with exactly `p` decimals (and no '.' when `p` is 0).
pub open spec fn fixed_point_text(v: nat, p: nat) -> Seq<char> {
    if p == 0 {
        decimal(v)
    } else {
        decimal(v / pow10(p)) + seq!['.'] + decimal_padded(v % pow10(p), p)
    }
}

/// `m * 2^e * 10^p`, rounded to an integer, ties to even.
pub open spec fn binary_scaled(m: nat, e: int, p: nat) -> nat {
    if e >= 0 {
        m * pow2(e as nat) * pow10(p)
    } else {
        round_half_even(m * pow10(p), pow2((-e) as nat))
    }
}

pub open spec fn sign_text(neg: bool) -> Seq<char> {
    if neg {
        seq!['-']
    } else {
        Seq::empty()
    }
}

/// The text of the finite value `(-1)^neg * m * 2^e` with `p` decimals.
pub open spec fn fixed_binary(neg: bool, m: nat, e: int, p: nat) -> Seq<char> {
    sign_text(neg) + fixed_point_text(binary_scaled(m, e, p), p)
}

/// What `format!("{:.p}", f32::from_bits(bits))` prints.
pub open spec fn f32_fixed_text(bits: u32, p: nat) -> Seq<char> {
    let neg = bits >= 0x8000_0000;
    let exp = (bits / 0x80_0000) % 256;
    let mant = bits % 0x80_0000;
    if exp == 255 {
        if mant == 0 {
            if neg {
                "-inf"@
            } else {
                "inf"@
            }
        } else {
            "NaN"@
        }
    } else if exp == 0 {
        fixed_binary(neg, mant as nat, -149, p)
    } else {
        fixed_binary(neg, (mant + 0x80_0000) as nat, exp - 150, p)
    }
}

fn pow10_u128(p: u32) -> (r: u128)
    requires
        p <= 9,
    ensures
        r == pow10(p as nat),
        1 <= r <= 1_000_000_000,
{
    let mut r: u128 = 1;
    let mut i: u32 = 0;
    while i < p
        invariant
            i <= p <= 9,
            r == pow10(i as nat),
        decreases p - i,
    {
        proof {
            lemma_pow10_mono((i + 1) as nat, 9);
        }
        r = r * 10;
        i = i + 1;
    }
    proof {
        lemma_pow10_mono(p as nat, 9);
        lemma_pow10_mono(0, p as nat);
    }
    r
}

proof fn lemma_pow10_mono(i: nat, j: nat)
    requires
        i <= j,
    ensures
        1 <= pow10(i) <= pow10(j),
        pow10(9) == 1_000_000_000,
    decreases j,
{
    reveal_with_fuel(pow10, 10);
    lemma_pow10_pos(i);
    if i < j {
        lemma_pow10_mono(i, (j - 1) as nat);
        lemma_pow10_pos((j - 1) as nat);
    }
}

proof fn lemma_pow10_pos(i: nat)
    ensures
        pow10(i) >= 1,
    decreases i,
{
    if i > 0 {
        lemma_pow10_pos((i - 1) as nat);
    }
}

/// `2^k` for `k < 128`.
fn pow2_u128(k: u32) -> (r: u128)
    requires
        k < 128,
    ensures
        r == pow2(k as nat),
{
    let mut r: u128 = 1;
    let mut i: u32 = 0;
    proof {
        vstd::arithmetic::power2::lemma2_to64();
    }
    while i < k
        invariant
            i <= k < 128,
            r == pow2(i as nat),
        decreases k - i,
    {
        proof {
            lemma_pow2_unfold((i + 1) as nat);
            if i + 1 < 127 {
                lemma_pow2_strictly_increases((i + 1) as nat, 127);
            }
            assert(pow2(127) < 0x1_0000_0000_0000_0000_0000_0000_0000_0000) by {
                lemma_pow2_adds(64, 63);
                vstd::arithmetic::power2::lemma2_to64();
                vstd::arithmetic::power2::lemma2_to64_rest();
            }
        }
        r = r * 2;
        i = i + 1;
    }
    r
}

/// The text of `(-1)^neg * m * 2^e` with `p` decimals, for a value whose
/// integer part fits in 128 bits.
pub fn fixed_binary_text(neg: bool, m: u64, e: i32, p: u32) -> (s: String)
    requires
        m < 0x20_0000_0000_0000,
        p <= 9,
        e >= 0 ==> (e < 128 && m * pow2(e as nat) < 0x1_0000_0000_0000_0000_0000_0000_0000_0000),
    ensures
        s@ == fixed_binary(neg, m as nat, e as int, p as nat),
{
    let mut out = String::new();
    proof {
        reveal_strlit("-");
        reveal_strlit(".");
    }
    if neg {
        out.append("-");
    }
    let ghost sign = out@;
    let scaled: u128;
    let pw = pow10_u128(p);
    if e >= 0 {
        let two_e = pow2_u128(e as u32);
        let int_part: u128 = (m as u128) * two_e;
        out.append(u128_to_decimal_padded(int_part, 0).as_str());
        if p > 0 {
            out.append(".");
            out.append(u128_to_decimal_padded(0, p as usize).as_str());
        }
        proof {
            let v = binary_scaled(m as nat, e as int, p as nat);
            assert(v == int_part * pw);
            let ip = int_part as int;
            let pwi = pw as int;
            assert((ip * pwi) / pwi == ip && (ip * pwi) % pwi == 0) by (nonlinear_arith)
                requires
                    pwi >= 1,
            ;
            assert(decimal_padded(int_part as nat, 0) == decimal(int_part as nat));
        }
    } else {
        let k: u32 = (0 - (e as i64)) as u32;
        proof {
            lemma_pow2_adds(53, 30);
        }
        assert((m as int) * (pw as int) <= 0x20_0000_0000_0000 * 1_000_000_000) by (nonlinear_arith)
            requires
                m < 0x20_0000_0000_0000,
                pw <= 1_000_000_000,
        ;
        let num: u128 = (m as u128) * pw;
        if k >= 100 {
            scaled = 0;
            proof {
                let den = pow2(k as nat);
                lemma_pow2_strictly_increases(84, k as nat);
                lemma_pow2_adds(53, 31);
                assert(pow2(53) == 0x20_0000_0000_0000) by {
                    lemma_pow2_adds(32, 21);
                    vstd::arithmetic::power2::lemma2_to64();
                }
                assert(pow2(31) == 0x8000_0000) by {
                    vstd::arithmetic::power2::lemma2_to64();
                }
                assert(num < pow2(84)) by (nonlinear_arith)
                    requires
                        m < 0x20_0000_0000_0000,
                        pw <= 1_000_000_000,
                        num == m * pw,
                        pow2(84) == 0x20_0000_0000_0000 * 0x8000_0000,
                ;
                lemma_pow2_unfold(k as nat);
                let numi = num as int;
                let deni = den as int;
                assert(numi / deni == 0 && numi % deni == numi) by (nonlinear_arith)
                    requires
                        0 <= numi < deni,
                ;
            }
        } else {
            let den = pow2_u128(k);
            proof {
                lemma_pow2_pos(k as nat);
            }
            let q = num / den;
            let r = num % den;
            assert(q <= num) by (nonlinear_arith)
                requires
                    den >= 1,
                    q == num / den,
            ;
            if r > den - r || (r == den - r && q % 2 == 1) {
                scaled = q + 1;
            } else {
                scaled = q;
            }
        }
        let int_part = scaled / pw;
        let frac = scaled % pw;
        out.append(u128_to_decimal_padded(int_part, 0).as_str());
        if p > 0 {
            out.append(".");
            out.append(u128_to_decimal_padded(frac, p as usize).as_str());
        }
        proof {
            assert(decimal_padded(int_part as nat, 0) == decimal(int_part as nat));
            assert(scaled == binary_scaled(m as nat, e as int, p as nat));
        }
    }
    proof {
        if p == 0 {
            assert(pow10(0) == 1);
        }
    }
    assert(out@ =~= fixed_binary(neg, m as nat, e as int, p as nat));
    out
}

/// What `format!("{:.p}", f32::from_bits(bits))` prints, for `p <= 9`.
pub fn f32_fixed_string(bits: u32, p: u32) -> (s: String)
    requires
        p <= 9,
    ensures
        s@ == f32_fixed_text(bits, p as nat),
{
    let neg = bits >= 0x8000_0000;
    let exp = (bits / 0x80_0000) % 256;
    let mant = bits % 0x80_0000;
    if exp == 255 {
        if mant == 0 {
            if neg {
                "-inf".to_owned()
            } else {
                "inf".to_owned()
            }
        } else {
            "NaN".to_owned()
        }
    } else if exp == 0 {
        fixed_binary_text(neg, mant as u64, -149, p)
    } else {
        proof {
            let e = exp - 150;
            if e >= 0 {
                assert(pow2(24) == 0x100_0000) by {
                    vstd::arithmetic::power2::lemma2_to64();
                }
                if e < 104 {
                    lemma_pow2_strictly_increases(e as nat, 104);
                }
                lemma_pow2_pos(e as nat);
                lemma_pow2_adds(24, 104);
                assert(pow2(128) == 0x1_0000_0000_0000_0000_0000_0000_0000_0000) by {
                    lemma_pow2_adds(64, 64);
                    vstd::arithmetic::power2::lemma2_to64();
                    vstd::arithmetic::power2::lemma2_to64_rest();
                }
                assert((mant + 0x80_0000) * pow2(e as nat) < pow2(24) * pow2(104)) by (nonlinear_arith)
                    requires
                        mant + 0x80_0000 < pow2(24),
                        pow2(e as nat) <= pow2(104),
                        pow2(e as nat) >= 1,
                ;
            }
        }
        fixed_binary_text(neg, (mant + 0x80_0000) as u64, exp as i32 - 150, p)
    }
}

// ── Integers beyond 128 bits ────────────────────────────────────────────────

/// The value of decimal digits stored least significant first.
pub open spec fn digits_val(d: Seq<u8>) -> nat
    decreases d.len(),
{
    if d.len() == 0 {
        0
    } else {
        d[0] as nat + 10 * digits_val(d.drop_first())
    }
}

/// The digits of `d` written most significant first.
pub open spec fn digits_text(d: Seq<u8>) -> Seq<char>
    decreases d.len(),
{
    if d.len() <= 1 {
        if d.len() == 0 { Seq::empty() } else { seq![digit_char(d[0] as nat)] }
    } else {
        digits_text(d.drop_first()).push(digit_char(d[0] as nat))
    }
}

/// Decimal digits with no zero at the most significant end.
pub open spec fn digits_wf(d: Seq<u8>) -> bool {
    &&& d.len() >= 1
    &&& forall|i: int| 0 <= i < d.len() ==> #[trigger] d[i] < 10
    &&& d.last() != 0
}

proof fn lemma_digits_val_push(d: Seq<u8>, x: u8)
    ensures
        digits_val(d.push(x)) == digits_val(d) + x * pow10(d.len()),
    decreases d.len(),
{
    let e = d.push(x);
    if d.len() == 0 {
        assert(e.drop_first() =~= Seq::<u8>::empty());
        assert(digits_val(e.drop_first()) == 0);
        assert(e[0] == x);
        assert(pow10(0) == 1);
    } else {
        assert(e.drop_first() =~= d.drop_first().push(x));
        assert(e[0] == d[0]);
        lemma_digits_val_push(d.drop_first(), x);
        let k = d.drop_first().len();
        assert(pow10(d.len()) == 10 * pow10(k));
        assert(10 * (x * pow10(k)) == x * pow10(d.len())) by (nonlinear_arith)
            requires
                pow10(d.len()) == 10 * pow10(k),
        ;
    }
}

proof fn lemma_digits_positive(d: Seq<u8>)
    requires
        digits_wf(d),
    ensures
        digits_val(d) >= 1,
    decreases d.len(),
{
    if d.len() > 1 {
        let r = d.drop_first();
        assert(r.last() == d.last());
        assert forall|i: int| 0 <= i < r.len() implies #[trigger] r[i] < 10 by {
            assert(r[i] == d[i + 1]);
        }
        lemma_digits_positive(r);
    }
}

/// The digit text of well-formed digits is the decimal text of their value.
proof fn lemma_digits_text(d: Seq<u8>)
    requires
        digits_wf(d),
    ensures
        digits_text(d) == decimal(digits_val(d)),
    decreases d.len(),
{
    if d.len() == 1 {
        assert(d.drop_first() =~= Seq::<u8>::empty());
        assert(digits_val(d.drop_first()) == 0);
        assert(digits_val(d) == d[0] as nat);
    } else {
        let r = d.drop_first();
        assert(r.last() == d.last());
        assert forall|i: int| 0 <= i < r.len() implies #[trigger] r[i] < 10 by {
            assert(r[i] == d[i + 1]);
        }
        lemma_digits_text(r);
        lemma_digits_positive(r);
        let v = digits_val(d);
        assert(d[0] < 10);
        assert(v / 10 == digits_val(r) && v % 10 == d[0] as nat) by (nonlinear_arith)
            requires
                v == d[0] as nat + 10 * digits_val(r),
                d[0] < 10,
        ;
    }
}

/// The least significant first decimal digits of `n`.
fn digits_of(n: u64) -> (d: Vec<u8>)
    requires
        n > 0,
    ensures
        digits_wf(d@),
        digits_val(d@) == n,
        d@.len() <= 20,
{
    let mut d: Vec<u8> = Vec::new();
    let mut rest = n;
    proof {
        assert(pow10(0) == 1);
        assert(digits_val(d@) == 0);
        reveal_with_fuel(pow10, 21);
        assert(pow10(20) == 100_000_000_000_000_000_000);
    }
    while rest > 0
        invariant
            digits_val(d@) + pow10(d@.len()) * rest == n,
            forall|i: int| 0 <= i < d@.len() ==> #[trigger] d@[i] < 10,
            d@.len() > 0 ==> (d@.last() != 0 || rest > 0),
            d@.len() <= 20,
            pow10(20) == 100_000_000_000_000_000_000,
        decreases rest,
    {
        let x = (rest % 10) as u8;
        let ghost r0 = rest;
        let ghost dv0 = digits_val(d@);
        let ghost pw = pow10(d@.len());
        proof {
            lemma_digits_val_push(d@, x);
            assert(pow10((d@.len() + 1) as nat) == 10 * pw);
            lemma_pow10_pos(d@.len());
            if d@.len() >= 20 {
                lemma_pow10_mono(20, d@.len());
                assert(pw * rest >= pw) by (nonlinear_arith)
                    requires
                        rest >= 1,
                        pw >= 1,
                ;
                assert(false);
            }
        }
        d.push(x);
        rest = rest / 10;
        proof {
            let dv1 = digits_val(d@);
            let pw1 = pow10(d@.len());
            assert(dv1 + pw1 * rest == n) by (nonlinear_arith)
                requires
                    dv1 == dv0 + x * pw,
                    pw1 == 10 * pw,
                    dv0 + pw * r0 == n,
                    x == r0 % 10,
                    rest == r0 / 10,
            ;
            if rest == 0 {
                assert(r0 < 10);
                assert(x == r0);
            }
        }
    }
    d
}

/// Doubles the number held in `d`.
fn double_digits(d: &mut Vec<u8>)
    requires
        digits_wf(old(d)@),
        old(d)@.len() < usize::MAX,
    ensures
        digits_wf(final(d)@),
        digits_val(final(d)@) == 2 * digits_val(old(d)@),
        final(d)@.len() <= old(d)@.len() + 1,
{
    let n = d.len();
    let ghost start = d@;
    let mut carry: u8 = 0;
    let mut i: usize = 0;
    proof {
        assert(d@.take(0) =~= Seq::<u8>::empty());
        assert(start.take(0) =~= Seq::<u8>::empty());
        assert(digits_val(Seq::<u8>::empty()) == 0);
    }
    while i < n
        invariant
            n == start.len(),
            d@.len() == n,
            i <= n,
            carry <= 1,
            forall|j: int| 0 <= j < n ==> #[trigger] d@[j] < 10,
            forall|j: int| i <= j < n ==> d@[j] == start[j],
            digits_val(d@.take(i as int)) + carry * pow10(i as nat) == 2 * digits_val(start.take(i as int)),
            i > 0 && carry == 0 ==> d@[i - 1] >= 2 * start[i - 1],
            digits_wf(start),
        decreases n - i,
    {
        let v: u8 = 2 * d[i] + carry;
        let x = v % 10;
        let ghost before = d@;
        let ghost c0 = carry;
        let ghost pw = pow10(i as nat);
        let ghost a0 = digits_val(before.take(i as int));
        let ghost b0 = digits_val(start.take(i as int));
        proof {
            assert(start.take(i + 1) =~= start.take(i as int).push(start[i as int]));
            lemma_digits_val_push(before.take(i as int), x);
            lemma_digits_val_push(start.take(i as int), start[i as int]);
            assert(before[i as int] == start[i as int]);
        }
        d.set(i, x);
        carry = v / 10;
        proof {
            assert(d@.take(i + 1) =~= before.take(i as int).push(x));
            let pw1 = pow10((i + 1) as nat);
            assert(pw1 == 10 * pw);
            let a1 = digits_val(d@.take(i + 1));
            let b1 = digits_val(start.take(i + 1));
            assert(a1 + carry * pw1 == 2 * b1) by (nonlinear_arith)
                requires
                    a1 == a0 + x * pw,
                    b1 == b0 + start[i as int] * pw,
                    a0 + c0 * pw == 2 * b0,
                    pw1 == 10 * pw,
                    v == 2 * start[i as int] + c0,
                    x == v % 10,
                    carry == v / 10,
            ;
        }
        i = i + 1;
    }
    assert(d@.take(n as int) =~= d@);
    assert(start.take(n as int) =~= start);
    if carry > 0 {
        proof {
            lemma_digits_val_push(d@, carry);
        }
        d.push(carry);
    } else {
        assert(start.last() >= 1);
        assert(d@.last() == d@[n - 1]);
    }
}

/// The decimal text of `m * 2^e`.
fn big_decimal(m: u64, e: u32) -> (s: String)
    requires
        m > 0,
        e <= 1100,
    ensures
        s@ == decimal(m as nat * pow2(e as nat)),
{
    let mut d = digits_of(m);
    let mut k: u32 = 0;
    proof {
        assert(pow2(0) == 1) by {
            vstd::arithmetic::power2::lemma2_to64();
        }
    }
    while k < e
        invariant
            k <= e <= 1100,
            digits_wf(d@),
            digits_val(d@) == m as nat * pow2(k as nat),
            d@.len() <= 20 + k,
        decreases e - k,
    {
        proof {
            lemma_pow2_unfold((k + 1) as nat);
        }
        double_digits(&mut d);
        proof {
            assert(m as nat * pow2((k + 1) as nat) == 2 * (m as nat * pow2(k as nat))) by (nonlinear_arith)
                requires
                    pow2((k + 1) as nat) == 2 * pow2(k as nat),
            ;
        }
        k = k + 1;
    }
    let mut out: Vec<char> = Vec::new();
    let mut j: usize = d.len();
    while j > 0
        invariant
            j <= d@.len(),
            digits_wf(d@),
            out@ == digits_text(d@.skip(j as int)),
        decreases j,
    {
        j = j - 1;
        proof {
            let t = d@.skip(j as int);
            assert(t.drop_first() =~= d@.skip(j + 1));
            assert(t[0] == d@[j as int]);
        }
        out.push((48u8 + d[j]) as char);
        proof {
            let t = d@.skip(j as int);
            if t.len() == 1 {
                assert(d@.skip(j + 1) =~= Seq::<u8>::empty());
            }
        }
    }
    assert(d@.skip(0) =~= d@);
    proof {
        lemma_digits_text(d@);
    }
    crate::text::string_from_chars(&out)
}

/// What `format!("{:.p}", f64::from_bits(bits))` prints.
pub open spec fn f64_fixed_text(bits: u64, p: nat) -> Seq<char> {
    let neg = bits >= 0x8000_0000_0000_0000;
    let exp = (bits / 0x10_0000_0000_0000) % 2048;
    let mant = bits % 0x10_0000_0000_0000;
    if exp == 2047 {
        if mant == 0 {
            if neg {
                "-inf"@
            } else {
                "inf"@
            }
        } else {
            "NaN"@
        }
    } else if exp == 0 {
        fixed_binary(neg, mant as nat, -1074, p)
    } else {
        fixed_binary(neg, (mant + 0x10_0000_0000_0000) as nat, exp - 1075, p)
    }
}

/// The text of `(-1)^neg * m * 2^e` with `p` decimals for `e >= 0`.
fn fixed_integer_text(neg: bool, m: u64, e: u32, p: u32) -> (s: String)
    requires
        m > 0,
        e <= 1100,
        p <= 9,
    ensures
        s@ == fixed_binary(neg, m as nat, e as int, p as nat),
{
    let mut out = String::new();
    proof {
        reveal_strlit("-");
        reveal_strlit(".");
    }
    if neg {
        out.append("-");
    }
    out.append(big_decimal(m, e).as_str());
    if p > 0 {
        out.append(".");
        out.append(u128_to_decimal_padded(0, p as usize).as_str());
    }
    proof {
        let v = m as nat * pow2(e as nat);
        let pw = pow10(p as nat);
        lemma_pow10_pos(p as nat);
        assert((v * pw) / pw == v && (v * pw) % pw == 0) by (nonlinear_arith)
            requires
                pw >= 1,
        ;
        if p == 0 {
            assert(pow10(0) == 1);
        }
    }
    assert(out@ =~= fixed_binary(neg, m as nat, e as int, p as nat));
    out
}

/// What `format!("{:.p}", f64::from_bits(bits))` prints, for `p <= 9`.
pub fn f64_fixed_string(bits: u64, p: u32) -> (s: String)
    requires
        p <= 9,
    ensures
        s@ == f64_fixed_text(bits, p as nat),
{
    let neg = bits >= 0x8000_0000_0000_0000;
    let exp = (bits / 0x10_0000_0000_0000) % 2048;
    let mant = bits % 0x10_0000_0000_0000;
    if exp == 2047 {
        if mant == 0 {
            if neg {
                "-inf".to_owned()
            } else {
                "inf".to_owned()
            }
        } else {
            "NaN".to_owned()
        }
    } else if exp == 0 {
        fixed_binary_text(neg, mant, -1074, p)
    } else if exp >= 1075 {
        fixed_integer_text(neg, mant + 0x10_0000_0000_0000, (exp - 1075) as u32, p)
    } else {
        fixed_binary_text(neg, mant + 0x10_0000_0000_0000, exp as i32 - 1075, p)
    }
}

} // verus!
