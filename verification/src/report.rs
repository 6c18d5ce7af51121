//! The pack report and the human size units used in messages and options: parsing a
//! size such as `10MB` or `2.5GiB`, rendering a byte count such as `8.4 MB`, and the
//! text form of a pack's outcome.

use vstd::prelude::*;
use vstd::arithmetic::div_mod::{lemma_div_denominator, lemma_hoist_over_denominator};
use crate::stager::{size_report_text, SizeReport};
use crate::supplychain::ScanSummary;
use crate::text::{
    split_once_char, ascii_lowercase, char_is_whitespace, chars_of, copy_str, decimal, decimal_string, digit_value,
    is_digit, split_once, string_of, to_ascii_lowercase, trim, trim_end, trim_end_str, trim_str, views,
};

verus! {

// ---------------------------------------------------------------------------
// Parsing sizes
// ---------------------------------------------------------------------------

/// The length of the leading run of digits and dots of `s`: the number part of a size.
pub open spec fn number_len(s: Seq<char>) -> nat
    decreases s.len(),
{
    if s.len() > 0 && (is_digit(s[0]) || s[0] == '.') {
        1 + number_len(s.skip(1))
    } else {
        0
    }
}

/// Every character of `s` is a decimal digit.
pub open spec fn all_digits(s: Seq<char>) -> bool {
    forall|i: int| 0 <= i < s.len() ==> is_digit(s[i])
}

/// The integer and fraction digits of a decimal number `[digits][.digits]` with at
/// least one digit, as a float parser accepts it; `None` when `num` is no number.
pub open spec fn number_parts(num: Seq<char>) -> Option<(Seq<char>, Seq<char>)> {
    match split_once(num, '.') {
        Some(p) => if all_digits(p.0) && all_digits(p.1) && p.0.len() + p.1.len() > 0 {
            Some(p)
        } else {
            None
        },
        None => if all_digits(num) && num.len() > 0 {
            Some((num, Seq::<char>::empty()))
        } else {
            None
        },
    }
}

/// The value of a string of decimal digits.
pub open spec fn digits_value(ds: Seq<char>) -> nat
    decreases ds.len(),
{
    if ds.len() == 0 {
        0
    } else {
        digits_value(ds.drop_last()) * 10 + digit_value(ds.last())
    }
}

/// `10^n`.
pub open spec fn pow10(n: nat) -> nat
    decreases n,
{
    if n == 0 {
        1
    } else {
        10 * pow10((n - 1) as nat)
    }
}

/// The multiplier of a (lower-cased) size unit: decimal units are powers of 1000,
/// binary units powers of 1024, and no unit (or `b`) means bytes.
pub open spec fn unit_multiplier(u: Seq<char>) -> Option<nat> {
    if u == ""@ || u == "b"@ {
        Some(1)
    } else if u == "k"@ || u == "kb"@ {
        Some(1000)
    } else if u == "ki"@ || u == "kib"@ {
        Some(1024)
    } else if u == "m"@ || u == "mb"@ {
        Some(1000000)
    } else if u == "mi"@ || u == "mib"@ {
        Some(1048576)
    } else if u == "g"@ || u == "gb"@ {
        Some(1000000000)
    } else if u == "gi"@ || u == "gib"@ {
        Some(1073741824)
    } else {
        None
    }
}

/// Which power a unit prefix stands for: `k` the first, `m` the second, `g` the
/// third; any other character none.
pub open spec fn prefix_power(c: char) -> nat {
    if c == 'k' {
        1
    } else if c == 'm' {
        2
    } else if c == 'g' {
        3
    } else {
        0
    }
}

/// `base` to the power `n`.
pub open spec fn power(base: nat, n: nat) -> nat
    decreases n,
{
    if n == 0 {
        1
    } else {
        base * power(base, (n - 1) as nat)
    }
}

/// The size units: a prefix `k`, `m` or `g` alone or followed by `b` is a power of
/// 1000 (`m` is a million bytes), and followed by `i` or `ib` the same power of
/// 1024; a bare count or `b` is bytes.
pub proof fn law_size_units(c: char)
    requires
        prefix_power(c) > 0,
    ensures
        unit_multiplier(seq![c]) == Some(power(1000, prefix_power(c))),
        unit_multiplier(seq![c, 'b']) == Some(power(1000, prefix_power(c))),
        unit_multiplier(seq![c, 'i']) == Some(power(1024, prefix_power(c))),
        unit_multiplier(seq![c, 'i', 'b']) == Some(power(1024, prefix_power(c))),
        unit_multiplier(Seq::empty()) == Some(1nat),
        unit_multiplier(seq!['b']) == Some(1nat),
{
    reveal_strlit("");
    reveal_strlit("b");
    reveal_strlit("k");
    reveal_strlit("kb");
    reveal_strlit("ki");
    reveal_strlit("kib");
    reveal_strlit("m");
    reveal_strlit("mb");
    reveal_strlit("mi");
    reveal_strlit("mib");
    reveal_strlit("g");
    reveal_strlit("gb");
    reveal_strlit("gi");
    reveal_strlit("gib");
    reveal_with_fuel(power, 4);
    if c == 'k' {
        assert(seq![c] =~= "k"@);
        assert(seq![c][0] == c && "b"@[0] == 'b' && ""@.len() == 0);
        assert(seq![c] != "b"@ && seq![c] != ""@);
        assert(unit_multiplier(seq![c]) == Some(1000nat));
    } else if c == 'm' {
        assert(seq![c] =~= "m"@);
        assert(seq![c][0] == c && "k"@[0] == 'k' && "b"@[0] == 'b' && ""@.len() == 0);
        assert(seq![c] != "k"@ && seq![c] != "b"@ && seq![c] != ""@);
        assert(unit_multiplier(seq![c]) == Some(1000000nat));
        assert(power(1000, 2) == 1000000nat);
    } else {
        assert(seq![c] =~= "g"@);
        assert(seq![c][0] == c && "k"@[0] == 'k' && "m"@[0] == 'm' && "b"@[0] == 'b' && ""@.len() == 0);
        assert(seq![c] != "k"@ && seq![c] != "m"@ && seq![c] != "b"@ && seq![c] != ""@);
        assert(unit_multiplier(seq![c]) == Some(1000000000nat));
        assert(power(1000, 3) == 1000000000nat);
    }
    assert(seq!['k'] =~= "k"@);
    assert(seq!['k', 'b'] =~= "kb"@);
    assert(seq!['k', 'i'] =~= "ki"@);
    assert(seq!['k', 'i', 'b'] =~= "kib"@);
    assert(seq!['m'] =~= "m"@);
    assert(seq!['m', 'b'] =~= "mb"@);
    assert(seq!['m', 'i'] =~= "mi"@);
    assert(seq!['m', 'i', 'b'] =~= "mib"@);
    assert(seq!['g'] =~= "g"@);
    assert(seq!['g', 'b'] =~= "gb"@);
    assert(seq!['g', 'i'] =~= "gi"@);
    assert(seq!['g', 'i', 'b'] =~= "gib"@);
    assert(Seq::<char>::empty() =~= ""@);
    assert(seq!['b'] =~= "b"@);
}

/// The number part of a size string (after trimming it).
pub open spec fn size_number(s: Seq<char>) -> Seq<char> {
    trim(s).take(number_len(trim(s)) as int)
}

/// The unit part of a size string, trimmed and lower-cased.
pub open spec fn size_unit(s: Seq<char>) -> Seq<char> {
    ascii_lowercase(trim(trim(s).skip(number_len(trim(s)) as int)))
}

/// The byte count of `int.frac` units of `m` bytes, rounded down, capped at `u64::MAX`.
pub open spec fn size_bytes(int_part: Seq<char>, frac: Seq<char>, m: nat) -> nat {
    let exact = digits_value(int_part + frac) * m / pow10(frac.len());
    if exact > u64::MAX {
        u64::MAX as nat
    } else {
        exact
    }
}

/// Why a size string was refused.
#[derive(Debug, Clone, PartialEq, Eq)]
pub enum SizeError {
    /// The number part is not a decimal number.
    Number { input: String },
    /// The unit is not one of B, K/KB, Ki/KiB, M/MB, Mi/MiB, G/GB, Gi/GiB.
    Unit { unit: String, input: String },
}

/// The message of a refused size string.
pub open spec fn spec_size_error_message(e: SizeError) -> Seq<char> {
    match e {
        SizeError::Number { input } => "invalid size '"@ + input@
            + "': expected a number, optionally with a unit"@,
        SizeError::Unit { unit, input } => "invalid size unit '"@ + unit@ + "' in '"@
            + input@ + "' (use B, KB/MB/GB, or KiB/MiB/GiB)"@,
    }
}

impl SizeError {
    /// The error message.
    pub fn message(&self) -> (s: String)
        ensures
            s@ == spec_size_error_message(*self),
    {
        match self {
            SizeError::Number { input } => {
                let mut s = copy_str("invalid size '");
                s.append(input.as_str());
                s.append("': expected a number, optionally with a unit");
                s
            },
            SizeError::Unit { unit, input } => {
                let mut s = copy_str("invalid size unit '");
                s.append(unit.as_str());
                s.append("' in '");
                s.append(input.as_str());
                s.append("' (use B, KB/MB/GB, or KiB/MiB/GiB)");
                s
            },
        }
    }
}

proof fn lemma_number_len(s: Seq<char>, n: int)
    requires
        0 <= n <= s.len(),
        forall|j: int| 0 <= j < n ==> is_digit(s[j]) || s[j] == '.',
        n == s.len() || !(is_digit(s[n]) || s[n] == '.'),
    ensures
        number_len(s) == n,
    decreases n,
{
    if n > 0 {
        assert forall|j: int| 0 <= j < n - 1 implies is_digit(s.skip(1)[j]) || s.skip(1)[j] == '.' by {
            assert(s.skip(1)[j] == s[j + 1]);
        }
        lemma_number_len(s.skip(1), n - 1);
    }
}

proof fn lemma_digits_value_concat(a: Seq<char>, b: Seq<char>)
    ensures
        digits_value(a + b) == digits_value(a) * pow10(b.len()) + digits_value(b),
    decreases b.len(),
{
    if b.len() == 0 {
        assert(a + b =~= a);
        assert(pow10(0) == 1);
        assert(digits_value(b) == 0);
        assert(digits_value(a) * 1 == digits_value(a));
    } else {
        lemma_digits_value_concat(a, b.drop_last());
        assert((a + b).drop_last() =~= a + b.drop_last());
        assert((a + b).last() == b.last());
        let p = pow10(b.drop_last().len());
        let va = digits_value(a);
        let vb = digits_value(b.drop_last());
        let dl = digit_value(b.last());
        assert(pow10(b.len()) == 10 * p);
        assert(digits_value(a + b) == (va * p + vb) * 10 + dl);
        assert(digits_value(b) == vb * 10 + dl);
        assert((va * p + vb) * 10 + dl == va * (10 * p) + (vb * 10 + dl)) by (nonlinear_arith);
        assert(digits_value(a + b) == va * pow10(b.len()) + digits_value(b));
    }
}

/// `floor(0.f * m)` computed from the last digit up: each step divides by ten what
/// the remaining digits contribute.
pub open spec fn frac_floor(f: Seq<char>, m: nat) -> nat
    decreases f.len(),
{
    if f.len() == 0 {
        0
    } else {
        (digit_value(f[0]) * m + frac_floor(f.skip(1), m)) / 10
    }
}

proof fn lemma_pow10_pos(n: nat)
    ensures
        pow10(n) >= 1,
    decreases n,
{
    if n > 0 {
        lemma_pow10_pos((n - 1) as nat);
    }
}

proof fn lemma_div_step(a: nat, y: nat, p: nat)
    requires
        p > 0,
    ensures
        (a * p + y) / (10 * p) == (a + y / p) / 10,
{
    lemma_div_denominator((a * p + y) as int, p as int, 10);
    lemma_hoist_over_denominator(y as int, a as int, p);
    assert(y + a * p == a * p + y);
    assert(p * 10 == 10 * p) by (nonlinear_arith);
}

proof fn lemma_frac_floor(f: Seq<char>, m: nat)
    requires
        all_digits(f),
    ensures
        frac_floor(f, m) == digits_value(f) * m / pow10(f.len()),
    decreases f.len(),
{
    if f.len() > 0 {
        let rest = f.skip(1);
        assert forall|i: int| 0 <= i < rest.len() implies is_digit(rest[i]) by {
            assert(rest[i] == f[i + 1]);
        }
        lemma_frac_floor(rest, m);
        lemma_digits_value_concat(f.take(1), rest);
        assert(f.take(1) + rest =~= f);
        assert(f.take(1).drop_last() =~= Seq::<char>::empty());
        assert(f.take(1).last() == f[0]);
        assert(digits_value(Seq::<char>::empty()) == 0);
        let d = digit_value(f[0]);
        assert(digits_value(f.take(1)) == d);
        let p = pow10(rest.len());
        lemma_pow10_pos(rest.len());
        assert(pow10(f.len()) == 10 * p);
        let y = digits_value(rest) * m;
        assert(digits_value(f) * m == (d * m) * p + y) by (nonlinear_arith)
            requires
                digits_value(f) == d * p + digits_value(rest),
                y == digits_value(rest) * m,
        ;
        lemma_div_step(d * m, y, p);
        assert(frac_floor(f, m) == (d * m + frac_floor(rest, m)) / 10);
        assert(frac_floor(rest, m) == y / p);
        assert(digits_value(f) * m / pow10(f.len()) == ((d * m) * p + y) / (10 * p));
    } else {
        assert(digits_value(f) == 0);
        assert(pow10(0) == 1);
    }
}

proof fn lemma_size_split(i: nat, f: nat, p: nat, m: nat)
    requires
        p > 0,
    ensures
        (i * p + f) * m / p == i * m + f * m / p,
{
    assert((i * p + f) * m == f * m + (i * m) * p) by (nonlinear_arith);
    lemma_hoist_over_denominator((f * m) as int, (i * m) as int, p);
}

/// The multiplier of a lower-cased unit.
fn multiplier_of(unit: &str) -> (r: Option<u64>)
    ensures
        match r {
            Some(m) => unit_multiplier(unit@) == Some(m as nat),
            None => unit_multiplier(unit@) is None,
        },
{
    let eq = |a: &str, b: &str| -> (r: bool)
        ensures
            r == (a@ == b@),
        { crate::text::str_eq(a, b) };
    if eq(unit, "") || eq(unit, "b") {
        Some(1)
    } else if eq(unit, "k") || eq(unit, "kb") {
        Some(1000)
    } else if eq(unit, "ki") || eq(unit, "kib") {
        Some(1024)
    } else if eq(unit, "m") || eq(unit, "mb") {
        Some(1000000)
    } else if eq(unit, "mi") || eq(unit, "mib") {
        Some(1048576)
    } else if eq(unit, "g") || eq(unit, "gb") {
        Some(1000000000)
    } else if eq(unit, "gi") || eq(unit, "gib") {
        Some(1073741824)
    } else {
        None
    }
}

/// Every character of `s` is a decimal digit.
fn is_all_digits(s: &str) -> (b: bool)
    ensures
        b == all_digits(s@),
{
    let v = chars_of(s);
    let mut i: usize = 0;
    while i < v.len()
        invariant
            i <= v.len(),
            v@ == s@,
            forall|j: int| 0 <= j < i ==> is_digit(v@[j]),
        decreases v.len() - i,
    {
        if !('0' <= v[i] && v[i] <= '9') {
            return false;
        }
        i += 1;
    }
    true
}

/// The largest integer part tracked exactly; anything at least this large already
/// overflows a byte count.
const CAP: u128 = 18446744073709551616;

/// The value of the digits `ds`, capped at `CAP`.
fn capped_value(ds: &str) -> (r: u128)
    requires
        all_digits(ds@),
    ensures
        r == if digits_value(ds@) >= CAP { CAP as nat } else { digits_value(ds@) },
{
    let v = chars_of(ds);
    let mut r: u128 = 0;
    let mut i: usize = 0;
    assert(v@.take(0) =~= Seq::<char>::empty());
    while i < v.len()
        invariant
            i <= v.len(),
            v@ == ds@,
            all_digits(ds@),
            r == if digits_value(v@.take(i as int)) >= CAP { CAP as nat } else { digits_value(v@.take(i as int)) },
        decreases v.len() - i,
    {
        let d = ((v[i] as u32) - ('0' as u32)) as u128;
        proof {
            let t = v@.take(i + 1);
            assert(t.drop_last() =~= v@.take(i as int));
            assert(t.last() == v@[i as int]);
            assert(is_digit(v@[i as int]));
        }
        if r < CAP {
            let next = r * 10 + d;
            r = if next >= CAP { CAP } else { next };
        }
        i += 1;
    }
    assert(v@.take(v.len() as int) =~= v@);
    r
}

/// `floor(0.ds * m)`, for the fraction digits `ds`.
fn fraction_part(ds: &str, m: u64) -> (z: u64)
    requires
        all_digits(ds@),
        1 <= m <= 1073741824,
    ensures
        z == frac_floor(ds@, m as nat),
        z < m,
{
    let v = chars_of(ds);
    let mut z: u64 = 0;
    let mut k: usize = v.len();
    assert(v@.skip(v.len() as int) =~= Seq::<char>::empty());
    while k > 0
        invariant
            k <= v.len(),
            v@ == ds@,
            all_digits(ds@),
            1 <= m <= 1073741824,
            z == frac_floor(v@.skip(k as int), m as nat),
            z < m,
        decreases k,
    {
        let d = ((v[k - 1] as u32) - ('0' as u32)) as u64;
        proof {
            assert(is_digit(v@[k - 1]));
            let t = v@.skip(k - 1);
            assert(t.skip(1) =~= v@.skip(k as int));
            assert(t[0] == v@[k - 1]);
            assert(d * m <= 9 * m) by (nonlinear_arith)
                requires
                    d <= 9,
            ;
        }
        z = (d * m + z) / 10;
        k -= 1;
    }
    assert(v@.skip(0) =~= v@);
    z
}

/// Parse a human size like `10MB`, `512KiB`, `2.5G`, or a bare byte count into
/// bytes. Decimal units (K/M/G) are powers of 1000; binary units (Ki/Mi/Gi) are
/// powers of 1024. The product is computed exactly in decimal and then rounded
/// down to whole bytes, so `8.2MB` is exactly 8,200,000 bytes (no binary
/// floating-point rounding takes a byte off); a value past `u64::MAX` is capped
/// there. Used for `--max-size` and the `max-size` config key.
pub fn parse_size(s: &str) -> (r: Result<u64, SizeError>)
    ensures
        match r {
            Ok(n) => number_parts(size_number(s@)) matches Some(p) && unit_multiplier(size_unit(s@)) matches Some(
                m,
            ) && n == size_bytes(p.0, p.1, m),
            Err(SizeError::Number { input }) => number_parts(size_number(s@)) is None && input@ == trim(s@),
            Err(SizeError::Unit { unit, input }) => number_parts(size_number(s@)) is Some && unit_multiplier(
                size_unit(s@),
            ) is None && unit@ == size_unit(s@) && input@ == trim(s@),
        },
{
    let t = trim_str(s);
    let v = chars_of(t.as_str());
    let mut n: usize = 0;
    while n < v.len() && (('0' <= v[n] && v[n] <= '9') || v[n] == '.')
        invariant
            n <= v.len(),
            v@ == trim(s@),
            forall|j: int| 0 <= j < n ==> is_digit(v@[j]) || v@[j] == '.',
        decreases v.len() - n,
    {
        n += 1;
    }
    proof {
        lemma_number_len(v@, n as int);
    }
    let num = string_of(&v, 0, n);
    assert(num@ =~= size_number(s@));
    let parts = match split_once_char(num.as_str(), '.') {
        Some((a, b)) => {
            if is_all_digits(a.as_str()) && is_all_digits(b.as_str()) && (!a.as_str().is_empty()
                || !b.as_str().is_empty()) {
                Some((a, b))
            } else {
                None
            }
        },
        None => {
            if is_all_digits(num.as_str()) && !num.as_str().is_empty() {
                Some((num, String::new()))
            } else {
                None
            }
        },
    };
    let (a, b) = match parts {
        Some(p) => p,
        None => {
            return Err(SizeError::Number { input: t });
        },
    };
    let unit_raw = string_of(&v, n, v.len());
    assert(unit_raw@ =~= trim(s@).skip(n as int));
    let unit = to_ascii_lowercase(trim_str(unit_raw.as_str()).as_str());
    let m = match multiplier_of(unit.as_str()) {
        Some(m) => m,
        None => {
            return Err(SizeError::Unit { unit, input: t });
        },
    };
    let ival = capped_value(a.as_str());
    let z = fraction_part(b.as_str(), m);
    proof {
        let i = digits_value(a@);
        let f = digits_value(b@);
        let p = pow10(b@.len());
        lemma_pow10_pos(b@.len());
        lemma_digits_value_concat(a@, b@);
        lemma_size_split(i, f, p, m as nat);
        lemma_frac_floor(b@, m as nat);
        if i >= CAP {
            assert(i * m >= i) by (nonlinear_arith)
                requires
                    m >= 1,
            ;
        }
    }
    if ival >= CAP {
        return Ok(u64::MAX);
    }
    assert(ival * (m as u128) < CAP * 1073741824) by (nonlinear_arith)
        requires
            ival < CAP,
            m <= 1073741824,
    ;
    let total: u128 = ival * (m as u128) + (z as u128);
    if total > u64::MAX as u128 {
        Ok(u64::MAX)
    } else {
        Ok(total as u64)
    }
}

// ---------------------------------------------------------------------------
// Rendering sizes
// ---------------------------------------------------------------------------

/// `2^n`.
pub open spec fn two_to(n: nat) -> nat
    decreases n,
{
    if n == 0 {
        1
    } else {
        2 * two_to((n - 1) as nat)
    }
}

/// `a / b` rounded to the nearest integer, ties to even.
pub open spec fn rne(a: nat, b: nat) -> nat {
    let q = a / b;
    let r = a % b;
    if 2 * r < b {
        q
    } else if 2 * r > b {
        q + 1
    } else if q % 2 == 0 {
        q
    } else {
        q + 1
    }
}

/// `floor(log2(a / b))` for `a >= b > 0`: the `e` with `b * 2^e <= a < b * 2^(e+1)`.
pub open spec fn log2_ratio(a: nat, b: nat) -> nat
    decreases a - b,
{
    if b == 0 || a < 2 * b {
        0
    } else {
        1 + log2_ratio(a, 2 * b)
    }
}

/// The binary64 value nearest the integer `n >= 1` (ties to even): `n` itself when it
/// fits the 53-bit significand, else `n` rounded to a multiple of `2^(e-52)`.
pub open spec fn f64_of_int(n: nat) -> nat {
    let e = log2_ratio(n, 1);
    if e <= 52 {
        n
    } else {
        rne(n, two_to((e - 52) as nat)) * two_to((e - 52) as nat)
    }
}

/// The tenths `{:.1}` prints for the binary64 quotient of `b / div` (for
/// `div <= b < div * 2^53`): the quotient is rounded to a 53-bit significand
/// `m / 2^s`, whose exact value is then rounded half to even at one decimal.
pub open spec fn quotient_tenths(b: nat, div: nat) -> nat {
    let s = (52 - log2_ratio(b, div)) as nat;
    let m = rne(b * two_to(s), div);
    rne(10 * m, two_to(s))
}

/// The unit and divisor `human_size` uses for `bytes`, when it is at least 1000.
pub open spec fn size_unit_of(bytes: nat) -> Option<(Seq<char>, nat)> {
    if bytes >= 1000000000 {
        Some(("GB"@, 1000000000))
    } else if bytes >= 1000000 {
        Some(("MB"@, 1000000))
    } else if bytes >= 1000 {
        Some(("KB"@, 1000))
    } else {
        None
    }
}

/// The human rendering of a byte count: `{:.1} {unit}` of `bytes as f64 / div as f64`
/// in the largest decimal unit not above it, or `{bytes} B` below 1000.
pub open spec fn spec_human_size(bytes: nat) -> Seq<char> {
    match size_unit_of(bytes) {
        Some(ud) => {
            let t = quotient_tenths(f64_of_int(bytes), ud.1);
            decimal(t / 10) + "."@ + seq![crate::text::digit_char(t % 10)] + " "@ + ud.0
        },
        None => decimal(bytes) + " B"@,
    }
}

proof fn lemma_two_to_pos(n: nat)
    ensures
        two_to(n) >= 1,
    decreases n,
{
    if n > 0 {
        lemma_two_to_pos((n - 1) as nat);
    }
}

proof fn lemma_two_to_mono(a: nat, b: nat)
    requires
        a <= b,
    ensures
        two_to(a) <= two_to(b),
    decreases b,
{
    if a < b {
        lemma_two_to_mono(a, (b - 1) as nat);
        lemma_two_to_pos((b - 1) as nat);
    }
}

/// `a / b` rounded half to even.
fn rne_exec(a: u128, b: u128) -> (r: u128)
    requires
        b > 0,
        b < 0x8000_0000_0000_0000_0000_0000_0000_0000,
        a < u128::MAX,
    ensures
        r == rne(a as nat, b as nat),
        r <= a / b + 1,
{
    let q = a / b;
    let rem = a % b;
    if 2 * rem < b {
        q
    } else if 2 * rem > b {
        q + 1
    } else if q % 2 == 0 {
        q
    } else {
        q + 1
    }
}

/// `floor(log2(n))` and `2^` of it, for `n >= 1`.
fn log2_floor(n: u128) -> (r: (u128, u32))
    requires
        1 <= n <= 0x1_0000_0000_0000_0000,
    ensures
        r.1 == log2_ratio(n as nat, 1),
        r.0 == two_to(r.1 as nat),
        r.0 <= n < 2 * r.0,
        r.1 <= 64,
{
    let mut t: u128 = 1;
    let mut e: u32 = 0;
    while t * 2 <= n
        invariant
            1 <= n <= 0x1_0000_0000_0000_0000,
            t == two_to(e as nat),
            1 <= t <= n,
            e <= 64,
            log2_ratio(n as nat, 1) == e + log2_ratio(n as nat, t as nat),
        decreases n - t,
    {
        proof {
            if e >= 64 {
                lemma_two_to_mono(65, (e + 1) as nat);
                reveal_with_fuel(two_to, 66);
            }
        }
        t = t * 2;
        e = e + 1;
    }
    (t, e)
}

proof fn lemma_two_to_values()
    ensures
        two_to(12) == 4096,
        two_to(35) == 0x8_0000_0000,
        two_to(52) == 0x10_0000_0000_0000,
        two_to(53) == 0x20_0000_0000_0000,
        two_to(64) == 0x1_0000_0000_0000_0000,
{
    reveal_with_fuel(two_to, 13);
    assert(two_to(12) == 4096);
    lemma_two_to_add(12, 12);
    lemma_two_to_add(24, 11);
    assert(two_to(35) == 0x8_0000_0000);
    lemma_two_to_add(35, 12);
    lemma_two_to_add(47, 5);
    assert(two_to(52) == 0x10_0000_0000_0000);
    lemma_two_to_add(52, 1);
    assert(two_to(53) == 0x20_0000_0000_0000);
    lemma_two_to_add(53, 11);
    assert(two_to(64) == 0x1_0000_0000_0000_0000);
}

proof fn lemma_round_bounds(n: nat, t: nat, u: nat, q: nat, p: nat)
    requires
        u >= 1,
        t == u * p,
        t <= n < 2 * t,
        q == rne(n, u),
        q <= n / u + 1,
    ensures
        p * u <= q * u <= 2 * p * u,
{
    let q0 = n / u;
    let r0 = n % u;
    vstd::arithmetic::div_mod::lemma_fundamental_div_mod(n as int, u as int);
    assert(q0 < 2 * p) by (nonlinear_arith)
        requires
            n == u * q0 + r0,
            0 <= r0,
            n < 2 * (u * p),
            u >= 1,
    ;
    assert(q0 >= p) by (nonlinear_arith)
        requires
            n == u * q0 + r0,
            r0 < u,
            n >= u * p,
            u >= 1,
    ;
    assert(q >= q0);
    assert(q * u <= 2 * p * u) by (nonlinear_arith)
        requires
            q <= 2 * p,
            u >= 1,
    ;
    assert(q * u >= p * u) by (nonlinear_arith)
        requires
            q >= p,
            u >= 1,
    ;
}

/// The binary64 value nearest `n` (as `n as f64` gives it), as an integer.
fn f64_of_u64(n: u64) -> (b: u128)
    requires
        n >= 1,
    ensures
        b == f64_of_int(n as nat),
        n < 0x20_0000_0000_0000 ==> b == n,
        n >= 0x20_0000_0000_0000 ==> b >= 0x20_0000_0000_0000,
        b <= 0x1_0000_0000_0000_0000,
{
    let (t, e) = log2_floor(n as u128);
    proof {
        lemma_two_to_values();
        if e >= 64 {
            lemma_two_to_mono(64, e as nat);
        }
        lemma_two_to_mono((e + 1) as nat, 64);
    }
    if e <= 52 {
        proof {
            lemma_two_to_mono((e + 1) as nat, 53);
        }
        return n as u128;
    }
    proof {
        lemma_two_to_mono((e - 52) as nat, 12);
        lemma_two_to_pos((e - 52) as nat);
    }
    let mut u: u128 = 1;
    let mut k: u32 = 0;
    while k < e - 52
        invariant
            52 < e <= 63,
            k <= e - 52,
            u == two_to(k as nat),
            two_to((e - 52) as nat) <= 4096,
            1 <= u <= two_to((e - 52) as nat),
        decreases e - 52 - k,
    {
        proof {
            lemma_two_to_mono((k + 1) as nat, (e - 52) as nat);
        }
        u = u * 2;
        k = k + 1;
    }
    let q = rne_exec(n as u128, u);
    proof {
        lemma_two_to_add((e - 52) as nat, 52);
        lemma_round_bounds(n as nat, t as nat, u as nat, q as nat, two_to(52));
        assert(two_to((e + 1) as nat) == 2 * two_to(e as nat));
        assert(two_to((e + 1) as nat) == 2 * t);
        assert(2 * t <= 0x1_0000_0000_0000_0000);
        assert(2 * two_to(52) * u == 2 * t) by (nonlinear_arith)
            requires
                t == u * two_to(52),
        ;
    }
    q * u
}

proof fn lemma_two_to_add(a: nat, b: nat)
    ensures
        two_to(a + b) == two_to(a) * two_to(b),
    decreases a,
{
    if a > 0 {
        let a1 = (a - 1) as nat;
        lemma_two_to_add(a1, b);
        assert(a + b == (a1 + b) + 1);
        assert(two_to(a + b) == 2 * two_to(a1 + b));
        assert(two_to(a) == 2 * two_to(a1));
        let x = two_to(a1);
        let y = two_to(b);
        assert(2 * (x * y) == (2 * x) * y) by (nonlinear_arith);
    } else {
        assert(two_to(0) == 1);
        assert(a + b == b);
    }
}

/// The decimal rendering of `n`.
fn decimal_u128(n: u128) -> (r: String)
    ensures
        r@ == decimal(n as nat),
    decreases n,
{
    if n < 10 {
        let mut r = String::new();
        let c = (((n as u32) + 0x30) as u8) as char;
        crate::text::push_char(&mut r, c);
        assert(r@ =~= decimal(n as nat));
        r
    } else {
        let mut r = decimal_u128(n / 10);
        let d = (n % 10) as u32;
        let c = ((d + 0x30) as u8) as char;
        crate::text::push_char(&mut r, c);
        r
    }
}

/// Format a byte count as a human-readable decimal size (e.g. `8.4 MB`) for
/// messages: `{:.1}` of the count as a float over the largest decimal unit not
/// above it, or the plain count in bytes below 1 KB.
pub fn human_size(bytes: u64) -> (s: String)
    ensures
        s@ == spec_human_size(bytes as nat),
{
    let (unit, div): (&str, u128) = if bytes >= 1000000000 {
        ("GB", 1000000000)
    } else if bytes >= 1000000 {
        ("MB", 1000000)
    } else if bytes >= 1000 {
        ("KB", 1000)
    } else {
        let mut r = decimal_string(bytes);
        r.append(" B");
        return r;
    };
    assert(size_unit_of(bytes as nat) == Some((unit@, div as nat)));
    let b = f64_of_u64(bytes);
    proof {
        lemma_two_to_values();
    }
    let mut t: u128 = div;
    let mut e: u32 = 0;
    assert(two_to(0) == 1);
    while t * 2 <= b
        invariant
            1000 <= div <= 1000000000,
            t == div * two_to(e as nat),
            div <= t <= b,
            b <= 0x1_0000_0000_0000_0000,
            b < div * 0x8_0000_0000,
            two_to(35) == 0x8_0000_0000,
            e < 35,
            log2_ratio(b as nat, div as nat) == e + log2_ratio(b as nat, t as nat),
        decreases b - t,
    {
        proof {
            assert(two_to((e + 1) as nat) == 2 * two_to(e as nat));
            if e + 1 >= 35 {
                lemma_two_to_mono(35, (e + 1) as nat);
                assert(div * two_to((e + 1) as nat) >= div * 0x8_0000_0000) by (nonlinear_arith)
                    requires
                        two_to((e + 1) as nat) >= 0x8_0000_0000,
                        div >= 1000,
                ;
                assert(t * 2 == div * two_to((e + 1) as nat)) by (nonlinear_arith)
                    requires
                        t == div * two_to(e as nat),
                        two_to((e + 1) as nat) == 2 * two_to(e as nat),
                ;
            }
            assert(t * 2 == div * two_to((e + 1) as nat)) by (nonlinear_arith)
                requires
                    t == div * two_to(e as nat),
                    two_to((e + 1) as nat) == 2 * two_to(e as nat),
            ;
        }
        t = t * 2;
        e = e + 1;
    }
    let sh = 52 - e;
    proof {
        lemma_two_to_mono(sh as nat, 52);
        lemma_two_to_pos(sh as nat);
    }
    let mut ps: u128 = 1;
    let mut k: u32 = 0;
    while k < sh
        invariant
            sh <= 52,
            k <= sh,
            ps == two_to(k as nat),
            two_to(52) == 0x10_0000_0000_0000,
            1 <= ps <= two_to(sh as nat),
            two_to(sh as nat) <= 0x10_0000_0000_0000,
        decreases sh - k,
    {
        proof {
            lemma_two_to_mono((k + 1) as nat, sh as nat);
        }
        ps = ps * 2;
        k = k + 1;
    }
    assert(b * ps <= 0x1_0000_0000_0000_0000 * 0x10_0000_0000_0000) by (nonlinear_arith)
        requires
            b <= 0x1_0000_0000_0000_0000,
            ps <= 0x10_0000_0000_0000,
    ;
    let a = b * ps;
    let m = rne_exec(a, div);
    assert(m <= 0x1_0000_0000_0000_0000 * 0x10_0000_0000_0000);
    let tenths = rne_exec(10 * m, ps);
    proof {
        assert(log2_ratio(b as nat, t as nat) == 0);
        assert(tenths == quotient_tenths(b as nat, div as nat));
    }
    let mut r = decimal_u128(tenths / 10);
    r.append(".");
    let d = (tenths % 10) as u32;
    crate::text::push_char(&mut r, ((d + 0x30) as u8) as char);
    r.append(" ");
    r.append(unit);
    r
}

// ---------------------------------------------------------------------------
// The pack report
// ---------------------------------------------------------------------------

/// The outcome of a pack, emitted as text or JSON. Fields are stable so the JSON
/// can gate CI.
#[derive(Debug)]
pub struct PackReport {
    /// Image tag when an image was built (loaded into Docker).
    pub tag: Option<String>,
    /// Path of the OCI archive when `--oci-archive` was used (daemonless).
    pub archive: Option<String>,
    /// The pushed image reference when `--push` was used (daemonless).
    pub pushed: Option<String>,
    /// Staging directory when `-n -o` was used instead of building an image.
    pub staged_dir: Option<String>,
    /// Entrypoint path inside the image.
    pub entrypoint: String,
    /// Per-file and total payload sizes.
    pub size: SizeReport,
    /// Best-effort warnings (e.g. an absent NSS module).
    pub warnings: Vec<String>,
    /// Smoke-run result: `Some(true)` if started, `None` if not run.
    pub smoke_ok: Option<bool>,
    /// Path of the generated SBOM, if `--sbom` was requested.
    pub sbom: Option<String>,
    /// Vulnerability counts by severity, if `--scan` was requested.
    pub scan: Option<ScanSummary>,
    /// The signed by-digest reference, if `--sign` signed the pushed image.
    pub signed: Option<String>,
}

/// One `warning: ...` line per warning.
pub open spec fn warning_lines(ws: Seq<Seq<char>>) -> Seq<char>
    decreases ws.len(),
{
    if ws.len() == 0 {
        Seq::empty()
    } else {
        warning_lines(ws.drop_last()) + "warning: "@ + ws.last() + "\n"@
    }
}

/// `prefix` and the value on a line of its own, when there is a value.
pub open spec fn opt_line(o: Option<String>, prefix: Seq<char>) -> Seq<char> {
    match o {
        Some(v) => prefix + v@ + "\n"@,
        None => Seq::empty(),
    }
}

/// The vulnerability counts line, when a scan ran.
pub open spec fn scan_line(o: Option<ScanSummary>) -> Seq<char> {
    match o {
        Some(s) => "vulnerabilities: "@ + decimal(s.total as nat) + " total (critical="@ + decimal(
            s.critical as nat,
        ) + ", high="@ + decimal(s.high as nat) + ", medium="@ + decimal(s.medium as nat) + ", low="@
            + decimal(s.low as nat) + ", negligible="@ + decimal(s.negligible as nat) + ", unknown="@
            + decimal(s.unknown as nat) + ")\n"@,
        None => Seq::empty(),
    }
}

/// The report text before its trailing whitespace is trimmed.
pub open spec fn report_body(r: PackReport) -> Seq<char> {
    warning_lines(views(r.warnings@)) + "payload size:\n"@ + size_report_text(r.size) + "\n"@
        + outcome_lines(r)
}

/// Appends `prefix`, the value and a newline when there is a value.
fn push_opt_line(out: &mut String, o: &Option<String>, prefix: &str)
    ensures
        final(out)@ == old(out)@ + opt_line(*o, prefix@),
{
    match o {
        Some(v) => {
            out.append(prefix);
            out.append(v.as_str());
            out.append("\n");
        },
        None => {
            assert(old(out)@ + Seq::<char>::empty() =~= old(out)@);
        },
    }
}

/// The vulnerability counts line, when a scan ran.
fn push_scan_line(out: &mut String, o: &Option<ScanSummary>)
    ensures
        final(out)@ == old(out)@ + scan_line(*o),
{
    match o {
        Some(sc) => {
            out.append("vulnerabilities: ");
            out.append(decimal_string(sc.total as u64).as_str());
            out.append(" total (critical=");
            out.append(decimal_string(sc.critical as u64).as_str());
            out.append(", high=");
            out.append(decimal_string(sc.high as u64).as_str());
            out.append(", medium=");
            out.append(decimal_string(sc.medium as u64).as_str());
            out.append(", low=");
            out.append(decimal_string(sc.low as u64).as_str());
            out.append(", negligible=");
            out.append(decimal_string(sc.negligible as u64).as_str());
            out.append(", unknown=");
            out.append(decimal_string(sc.unknown as u64).as_str());
            out.append(")\n");
        },
        None => {
            assert(old(out)@ + Seq::<char>::empty() =~= old(out)@);
        },
    }
}

/// The report lines that follow the size report.
pub open spec fn outcome_lines(r: PackReport) -> Seq<char> {
    opt_line(r.tag, "loaded image "@) + opt_line(r.archive, "wrote OCI archive "@) + opt_line(
        r.pushed,
        "pushed "@,
    ) + opt_line(r.staged_dir, "staged to "@) + opt_line(r.sbom, "sbom: "@) + scan_line(r.scan)
        + opt_line(r.signed, "signed "@) + if r.smoke_ok == Some(true) {
        "smoke-run ok: the binary starts inside the image\n"@
    } else {
        Seq::<char>::empty()
    }
}

impl PackReport {
    /// The lines that follow the size report.
    fn outcome_text(&self) -> (s: String)
        ensures
            s@ == outcome_lines(*self),
    {
        let mut out = String::new();
        push_opt_line(&mut out, &self.tag, "loaded image ");
        push_opt_line(&mut out, &self.archive, "wrote OCI archive ");
        push_opt_line(&mut out, &self.pushed, "pushed ");
        push_opt_line(&mut out, &self.staged_dir, "staged to ");
        push_opt_line(&mut out, &self.sbom, "sbom: ");
        push_scan_line(&mut out, &self.scan);
        push_opt_line(&mut out, &self.signed, "signed ");
        if self.smoke_ok == Some(true) {
            out.append("smoke-run ok: the binary starts inside the image\n");
        } else {
            assert(out@ + Seq::<char>::empty() =~= out@);
        }
        assert(out@ =~= outcome_lines(*self));
        out
    }

    /// Human-readable rendering (the `--format text` output).
    pub fn to_text(&self) -> (s: String)
        ensures
            s@ == trim_end(report_body(*self)),
    {
        let mut out = String::new();
        let ghost wv = views(self.warnings@);
        let mut i: usize = 0;
        while i < self.warnings.len()
            invariant
                i <= self.warnings.len(),
                wv == views(self.warnings@),
                out@ == warning_lines(wv.take(i as int)),
            decreases self.warnings.len() - i,
        {
            out.append("warning: ");
            out.append(self.warnings[i].as_str());
            out.append("\n");
            proof {
                assert(wv.take(i + 1).drop_last() =~= wv.take(i as int));
                assert(wv.take(i + 1).last() == self.warnings@[i as int]@);
            }
            i += 1;
        }
        assert(wv.take(self.warnings.len() as int) =~= wv);
        out.append("payload size:\n");
        out.append(self.size.to_text().as_str());
        out.append("\n");
        out.append(self.outcome_text().as_str());
        assert(out@ =~= report_body(*self));
        trim_end_str(out.as_str())
    }
}

} // verus!
