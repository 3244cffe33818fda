//! Character-level helpers: decimal and hexadecimal rendering of integers,
//! parsing of unsigned decimal text, and the few `String` operations that the
//! rest of the library needs, each with its contract.

use vstd::prelude::*;

verus! {

/// The texts of a list of strings.
pub open spec fn strings(v: Seq<String>) -> Seq<Seq<char>> {
    v.map_values(|s: String| s@)
}

// ── Digits ──────────────────────────────────────────────────────────────────

/// The ASCII character of a decimal digit.
pub open spec fn digit_char(d: nat) -> char {
    (48 + d) as char
}

/// The lower-case ASCII character of a hexadecimal digit.
pub open spec fn hex_char_lower(d: nat) -> char {
    if d < 10 { (48 + d) as char } else { (87 + d) as char }
}

/// The upper-case ASCII character of a hexadecimal digit.
pub open spec fn hex_char_upper(d: nat) -> char {
    if d < 10 { (48 + d) as char } else { (55 + d) as char }
}

pub open spec fn is_digit(c: char) -> bool {
    '0' <= c && c <= '9'
}

/// The value of a decimal digit character.
pub open spec fn digit_value(c: char) -> nat {
    (c as int - 48) as nat
}

/// The shortest decimal rendering of `n`, as `u64::to_string` writes it.
pub open spec fn decimal(n: nat) -> Seq<char>
    decreases n,
{
    if n < 10 {
        seq![digit_char(n)]
    } else {
        decimal(n / 10).push(digit_char(n % 10))
    }
}

/// `n` in `width` hexadecimal digits (most significant first), lower case;
/// the digits above `width` are dropped.
pub open spec fn hex_lower_fixed(n: nat, width: nat) -> Seq<char>
    decreases width,
{
    if width == 0 {
        Seq::empty()
    } else {
        hex_lower_fixed(n / 16, (width - 1) as nat).push(hex_char_lower(n % 16))
    }
}

/// `n` in `width` hexadecimal digits, upper case.
pub open spec fn hex_upper_fixed(n: nat, width: nat) -> Seq<char>
    decreases width,
{
    if width == 0 {
        Seq::empty()
    } else {
        hex_upper_fixed(n / 16, (width - 1) as nat).push(hex_char_upper(n % 16))
    }
}

/// `n` in `width` binary digits.
pub open spec fn binary_fixed(n: nat, width: nat) -> Seq<char>
    decreases width,
{
    if width == 0 {
        Seq::empty()
    } else {
        binary_fixed(n / 2, (width - 1) as nat).push(digit_char(n % 2))
    }
}

/// `decimal(n)` with '0's in front up to `width` characters.
pub open spec fn decimal_padded(n: nat, width: nat) -> Seq<char> {
    let d = decimal(n);
    if d.len() >= width {
        d
    } else {
        Seq::new((width - d.len()) as nat, |i: int| '0') + d
    }
}

pub proof fn lemma_decimal_digits(n: nat)
    ensures
        decimal(n).len() >= 1,
        forall|i: int| 0 <= i < decimal(n).len() ==> is_digit(#[trigger] decimal(n)[i]),
    decreases n,
{
    if n >= 10 {
        lemma_decimal_digits(n / 10);
    }
}

// ── Parsing ─────────────────────────────────────────────────────────────────

pub open spec fn all_digits(s: Seq<char>) -> bool {
    forall|i: int| 0 <= i < s.len() ==> is_digit(#[trigger] s[i])
}

/// The value of a sequence of decimal digits.
pub open spec fn digits_value(s: Seq<char>) -> nat
    decreases s.len(),
{
    if s.len() == 0 {
        0
    } else {
        digits_value(s.drop_last()) * 10 + digit_value(s.last())
    }
}

/// What `str::parse` gives for an unsigned integer type whose largest value
/// is `max`: an optional '+', then one or more ASCII digits whose value is at
/// most `max`; anything else is refused.
pub open spec fn parse_unsigned(s: Seq<char>, max: nat) -> Option<nat> {
    let d = if s.len() > 0 && s[0] == '+' { s.drop_first() } else { s };
    if d.len() > 0 && all_digits(d) && digits_value(d) <= max {
        Some(digits_value(d))
    } else {
        None
    }
}

/// The digits of `decimal(n)` have the value `n`.
pub proof fn lemma_decimal_value(n: nat)
    ensures
        digits_value(decimal(n)) == n,
    decreases n,
{
    let d = n % 10;
    assert(digit_value(digit_char(d)) == d) by {
        assert((48 + d) as char as int == 48 + d);
    }
    if n >= 10 {
        lemma_decimal_value(n / 10);
        assert(decimal(n).drop_last() =~= decimal(n / 10));
        assert(decimal(n).last() == digit_char(d));
        assert(digits_value(decimal(n)) == digits_value(decimal(n / 10)) * 10 + d);
        assert(n == (n / 10) * 10 + d);
    } else {
        assert(decimal(n).drop_last() =~= Seq::<char>::empty());
        assert(decimal(n).last() == digit_char(d));
        assert(digits_value(decimal(n)) == digits_value(Seq::<char>::empty()) * 10 + d);
    }
}

/// Parsing the decimal text of a number that fits gives the number back.
pub proof fn lemma_parse_decimal(n: nat, max: nat)
    requires
        n <= max,
    ensures
        parse_unsigned(decimal(n), max) == Some(n),
{
    lemma_decimal_digits(n);
    lemma_decimal_value(n);
    assert(decimal(n)[0] != '+');
    assert(all_digits(decimal(n)));
}

proof fn lemma_digits_value_monotone(s: Seq<char>, k: int)
    requires
        all_digits(s),
        0 <= k <= s.len(),
    ensures
        digits_value(s.take(k)) <= digits_value(s),
    decreases s.len() - k,
{
    if k < s.len() {
        lemma_digits_value_monotone(s, k + 1);
        assert(s.take(k + 1).drop_last() =~= s.take(k));
    } else {
        assert(s.take(k) =~= s);
    }
}

/// Parses `s` as `str::parse::<uN>` does, for the type whose largest value is `max`.
pub fn parse_unsigned_text(s: &str, max: u64) -> (r: Option<u64>)
    ensures
        r matches Some(v) ==> parse_unsigned(s@, max as nat) == Some(v as nat),
        r is None ==> parse_unsigned(s@, max as nat) is None,
{
    let chars = chars_of(s);
    let n = chars.len();
    let mut i: usize = 0;
    if n > 0 && chars[0] == '+' {
        i = 1;
    }
    let ghost d = if s@.len() > 0 && s@[0] == '+' { s@.drop_first() } else { s@ };
    let start = i;
    if start == n {
        return None;
    }
    let mut value: u64 = 0;
    while i < n
        invariant
            chars@ == s@,
            n == chars@.len(),
            start <= i <= n,
            start < n,
            d == chars@.skip(start as int),
            d == (if s@.len() > 0 && s@[0] == '+' { s@.drop_first() } else { s@ }),
            all_digits(d.take(i - start)),
            value as nat == digits_value(d.take(i - start)),
            value <= max,
        decreases n - i,
    {
        let c = chars[i];
        if !('0' <= c && c <= '9') {
            assert(d[i - start] == c);
            assert(!is_digit(d[i - start]));
            assert(!all_digits(d));
            return None;
        }
        let dv: u64 = (c as u32 - 48) as u64;
        assert(d.take(i - start + 1).drop_last() =~= d.take(i - start));
        assert(d.take(i - start + 1).last() == c);
        if dv > max || value > (max - dv) / 10 {
            proof {
                assert(digits_value(d.take(i - start + 1)) > max) by (nonlinear_arith)
                    requires
                        digits_value(d.take(i - start + 1)) == value * 10 + dv,
                        dv > max || value > (max - dv) / 10,
                        dv <= 9,
                ;
                if all_digits(d) {
                    lemma_digits_value_monotone(d, i - start + 1);
                }
            }
            return None;
        }
        value = value * 10 + dv;
        i = i + 1;
    }
    assert(d.take(n - start) =~= d);
    Some(value)
}

// ── Rendering ───────────────────────────────────────────────────────────────

fn push_decimal(out: &mut Vec<char>, n: u64)
    ensures
        final(out)@ == old(out)@ + decimal(n as nat),
    decreases n,
{
    if n >= 10 {
        push_decimal(out, n / 10);
    }
    let d = (n % 10) as u8;
    out.push((48u8 + d) as char);
}

fn push_decimal_u128(out: &mut Vec<char>, n: u128)
    ensures
        final(out)@ == old(out)@ + decimal(n as nat),
    decreases n,
{
    if n >= 10 {
        push_decimal_u128(out, n / 10);
    }
    let d = (n % 10) as u8;
    out.push((48u8 + d) as char);
}

/// `n` in decimal with '0's in front up to `width` characters, as `{:0width$}` writes it.
pub fn u128_to_decimal_padded(n: u128, width: usize) -> (s: String)
    ensures
        s@ == decimal_padded(n as nat, width as nat),
{
    let mut digits: Vec<char> = Vec::new();
    push_decimal_u128(&mut digits, n);
    let mut v: Vec<char> = Vec::new();
    let len = digits.len();
    if len < width {
        let mut i: usize = 0;
        while i < width - len
            invariant
                len < width,
                i <= width - len,
                v@ == Seq::new(i as nat, |k: int| '0'),
            decreases width - len - i,
        {
            v.push('0');
            i = i + 1;
            assert(v@ =~= Seq::new(i as nat, |k: int| '0'));
        }
    }
    let mut j: usize = 0;
    let ghost pad = v@;
    while j < len
        invariant
            len == digits@.len(),
            j <= len,
            v@ == pad + digits@.take(j as int),
        decreases len - j,
    {
        v.push(digits[j]);
        j = j + 1;
        assert(v@ =~= pad + digits@.take(j as int));
    }
    assert(digits@.take(len as int) =~= digits@);
    assert(v@ =~= decimal_padded(n as nat, width as nat));
    string_from_chars(&v)
}

fn push_hex_fixed(out: &mut Vec<char>, n: u64, width: usize, upper: bool)
    ensures
        final(out)@ == old(out)@ + (if upper {
            hex_upper_fixed(n as nat, width as nat)
        } else {
            hex_lower_fixed(n as nat, width as nat)
        }),
    decreases width,
{
    if width == 0 {
        assert(old(out)@ + Seq::<char>::empty() =~= old(out)@);
        return;
    }
    push_hex_fixed(out, n / 16, width - 1, upper);
    let d = (n % 16) as u8;
    let c = if d < 10 {
        (48u8 + d) as char
    } else if upper {
        (55u8 + d) as char
    } else {
        (87u8 + d) as char
    };
    out.push(c);
}

/// The last `width` hexadecimal digits of `n`, as `{:0width$x}` (or `X`)
/// writes a number of at most `width` digits.
pub fn u64_to_hex_fixed(n: u64, width: usize, upper: bool) -> (s: String)
    ensures
        s@ == (if upper {
            hex_upper_fixed(n as nat, width as nat)
        } else {
            hex_lower_fixed(n as nat, width as nat)
        }),
{
    let mut v: Vec<char> = Vec::new();
    push_hex_fixed(&mut v, n, width, upper);
    assert(Seq::<char>::empty() + (if upper {
        hex_upper_fixed(n as nat, width as nat)
    } else {
        hex_lower_fixed(n as nat, width as nat)
    }) =~= v@);
    string_from_chars(&v)
}

fn push_binary_fixed(out: &mut Vec<char>, n: u64, width: usize)
    ensures
        final(out)@ == old(out)@ + binary_fixed(n as nat, width as nat),
    decreases width,
{
    if width == 0 {
        assert(old(out)@ + Seq::<char>::empty() =~= old(out)@);
        return;
    }
    push_binary_fixed(out, n / 2, width - 1);
    let d = (n % 2) as u8;
    out.push((48u8 + d) as char);
}

/// The last `width` binary digits of `n`, as `{:0width$b}` writes a number of
/// at most `width` digits.
pub fn u64_to_binary_fixed(n: u64, width: usize) -> (s: String)
    ensures
        s@ == binary_fixed(n as nat, width as nat),
{
    let mut v: Vec<char> = Vec::new();
    push_binary_fixed(&mut v, n, width);
    assert(Seq::<char>::empty() + binary_fixed(n as nat, width as nat) =~= v@);
    string_from_chars(&v)
}

/// The decimal text of an integer, with '-' in front of a negative one.
pub open spec fn int_decimal(v: int) -> Seq<char> {
    if v < 0 {
        seq!['-'] + decimal((-v) as nat)
    } else {
        decimal(v as nat)
    }
}

/// `v` in decimal, as `to_string` writes a signed integer.
pub fn i64_to_decimal(v: i64) -> (s: String)
    ensures
        s@ == int_decimal(v as int),
{
    if v < 0 {
        let mut s = String::new();
        proof {
            reveal_strlit("-");
        }
        s.append("-");
        let mag: u64 = if v == i64::MIN { 0x8000_0000_0000_0000 } else { (-v) as u64 };
        s.append(u64_to_decimal(mag).as_str());
        assert(s@ =~= int_decimal(v as int));
        s
    } else {
        u64_to_decimal(v as u64)
    }
}

/// `n` in decimal, as `to_string` writes an unsigned integer.
pub fn u64_to_decimal(n: u64) -> (s: String)
    ensures
        s@ == decimal(n as nat),
{
    let mut v: Vec<char> = Vec::new();
    push_decimal(&mut v, n);
    string_from_chars(&v)
}

// ── String operations of std ────────────────────────────────────────────────

/// Calls `Iterator::collect` into a `String`: the string holds exactly the
/// characters of `v`, in order.
#[verifier::external_body]
pub(crate) fn string_from_chars(v: &Vec<char>) -> (s: String)
    ensures
        s@ == v@,
{
    v.iter().collect()
}

/// Whether two strings hold the same characters.
pub fn str_equal(a: &str, b: &str) -> (r: bool)
    ensures
        r == (a@ == b@),
{
    let x = chars_of(a);
    let y = chars_of(b);
    if x.len() != y.len() {
        return false;
    }
    let mut i: usize = 0;
    while i < x.len()
        invariant
            x@ == a@,
            y@ == b@,
            x@.len() == y@.len(),
            i <= x@.len(),
            forall|j: int| 0 <= j < i ==> x@[j] == y@[j],
        decreases x@.len() - i,
    {
        if x[i] != y[i] {
            return false;
        }
        i = i + 1;
    }
    assert(x@ =~= y@);
    true
}

/// Calls `String::push`: appends `c`.
#[verifier::external_body]
pub(crate) fn string_push(s: &mut String, c: char)
    ensures
        final(s)@ == old(s)@.push(c),
{
    s.push(c)
}

/// Calls `String::pop`: removes and returns the last character, if any.
#[verifier::external_body]
pub(crate) fn string_pop(s: &mut String) -> (r: Option<char>)
    ensures
        old(s)@.len() == 0 ==> r is None && final(s)@ == old(s)@,
        old(s)@.len() > 0 ==> r == Some(old(s)@.last()) && final(s)@ == old(s)@.drop_last(),
{
    s.pop()
}

/// The characters of `s`, in order.
pub(crate) fn chars_of(s: &str) -> (v: Vec<char>)
    ensures
        v@ == s@,
{
    broadcast use vstd::string::axiom_spec_iter;
    let mut v: Vec<char> = Vec::new();
    for c in it: s.chars()
        invariant
            v@ == it.seq().take(it.index() as int),
    {
        v.push(c);
        assert(v@ =~= it.seq().take(it.index() + 1));
    }
    assert(v@ =~= s@);
    v
}

} // verus!
