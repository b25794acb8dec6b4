//! The Postgres NUMERIC type: decoding of its binary wire form (base-10000
//! digits) and of its text form into a fixed-precision decimal.
use vstd::prelude::*;
use vstd::string::*;
use vstd::arithmetic::div_mod::{lemma_div_denominator, lemma_hoist_over_denominator};
use crate::text::{lower_of, lowercase, push_char, str_equal};
use crate::table::NUMERIC_OID;

verus! {

/// The largest number of fractional decimal digits a decimal can store.
pub const MAX_SCALE: u32 = 28;

/// Mantissas are held below this bound (96 bits).
pub const MANTISSA_LIMIT: u128 = 79228162514264337593543950336;

/// A signed decimal `(-1)^negative * mantissa / 10^scale`.
#[derive(Clone, Copy, Debug, PartialEq, Eq, Structural)]
pub struct PgDecimal {
    pub negative: bool,
    pub mantissa: u128,
    pub scale: u32,
}

impl PgDecimal {
    /// Canonical form: a 96-bit mantissa, at most `MAX_SCALE` fractional
    /// digits, and no negative zero.
    pub open spec fn wf(self) -> bool {
        &&& self.mantissa < MANTISSA_LIMIT
        &&& self.scale <= MAX_SCALE
        &&& (self.negative ==> self.mantissa > 0)
    }
}

/// A NUMERIC value: a decimal or one of the three special values.
#[derive(Clone, Copy, Debug, PartialEq, Eq, Structural)]
pub enum PgNumeric {
    NaN,
    PositiveInf,
    NegativeInf,
    Value(PgDecimal),
}

/// Why a NUMERIC could not be decoded.
#[derive(Clone, Copy, Debug, PartialEq, Eq, Structural)]
pub enum ParseDecimalError {
    /// The input ends before the value does.
    UnexpectedEnd,
    /// The sign word is none of the five known codes.
    InvalidSign(u16),
    /// A base-10000 digit is 10000 or more.
    InvalidDigit,
    /// The value does not fit in a 96-bit mantissa at its scale.
    InvalidDecimalValue,
    /// The text is neither a decimal nor a special value.
    InvalidText,
}

pub const SIGN_POSITIVE: u16 = 0x0000;
pub const SIGN_NEGATIVE: u16 = 0x4000;
pub const SIGN_NAN: u16 = 0xC000;
pub const SIGN_POSITIVE_INF: u16 = 0xD000;
pub const SIGN_NEGATIVE_INF: u16 = 0xF000;

pub open spec fn pow10(n: nat) -> nat
    decreases n,
{
    if n == 0 { 1 } else { 10 * pow10((n - 1) as nat) }
}

/// Big-endian unsigned 16-bit word at byte offset `i`.
pub open spec fn be_u16(b: Seq<u8>, i: int) -> nat {
    b[i] as nat * 256 + b[i + 1] as nat
}

/// Two's-complement reading of a 16-bit word.
pub open spec fn as_i16(v: nat) -> int {
    if v >= 32768 { v - 65536 } else { v as int }
}

/// The value of base-10000 digits, most significant first.
pub open spec fn digits_value(d: Seq<nat>) -> nat
    decreases d.len(),
{
    if d.len() == 0 { 0 } else { digits_value(d.drop_last()) * 10000 + d.last() }
}

/// `floor(u * 10^k)`.
pub open spec fn scaled_floor(u: nat, k: int) -> nat {
    if k >= 0 { u * pow10(k as nat) } else { u / pow10((-k) as nat) }
}

/// The scale a decoded decimal is stored with.
pub open spec fn stored_scale(scale: nat) -> nat {
    if scale < MAX_SCALE { scale } else { MAX_SCALE as nat }
}

/// Drops the last decimal digit of `t`, rounding half away from zero.
pub open spec fn round_last_digit(t: nat) -> nat {
    t / 10 + if t % 10 >= 5 { 1nat } else { 0nat }
}

/// The magnitude of `digits * 10000^(weight - len + 1)` at the stored scale,
/// rounded half away from zero.
pub open spec fn numeric_mantissa(digits: Seq<nat>, weight: int, scale: nat) -> nat {
    round_last_digit(
        scaled_floor(digits_value(digits), 4 * (weight - digits.len() + 1) + stored_scale(scale) + 1),
    )
}

/// The digits of a binary NUMERIC, which start at byte 8.
pub open spec fn wire_digits(raw: Seq<u8>, n: nat) -> Seq<nat> {
    Seq::new(n, |i: int| be_u16(raw, 8 + 2 * i))
}

/// The decimal held by a sign, a weight, a declared scale and base-10000 digits.
pub open spec fn numeric_from_parts(negative: bool, weight: int, scale: nat, digits: Seq<nat>) -> Result<
    PgNumeric,
    ParseDecimalError,
> {
    let m = numeric_mantissa(digits, weight, scale);
    if m >= MANTISSA_LIMIT {
        Err(ParseDecimalError::InvalidDecimalValue)
    } else {
        Ok(
            PgNumeric::Value(
                PgDecimal { negative: negative && m > 0, mantissa: m as u128, scale: stored_scale(scale) as u32 },
            ),
        )
    }
}

/// Binary NUMERIC: `n_digits: u16, weight: i16, sign: u16, scale: u16,
/// digits: u16[n_digits]`, all big-endian.
pub open spec fn decode_numeric(raw: Seq<u8>) -> Result<PgNumeric, ParseDecimalError> {
    if raw.len() < 6 {
        Err(ParseDecimalError::UnexpectedEnd)
    } else {
        let sign = be_u16(raw, 4);
        if sign == SIGN_NAN {
            Ok(PgNumeric::NaN)
        } else if sign == SIGN_POSITIVE_INF {
            Ok(PgNumeric::PositiveInf)
        } else if sign == SIGN_NEGATIVE_INF {
            Ok(PgNumeric::NegativeInf)
        } else if sign != SIGN_POSITIVE && sign != SIGN_NEGATIVE {
            Err(ParseDecimalError::InvalidSign(sign as u16))
        } else if raw.len() < 8 + 2 * be_u16(raw, 0) {
            Err(ParseDecimalError::UnexpectedEnd)
        } else {
            let digits = wire_digits(raw, be_u16(raw, 0));
            if exists|i: int| 0 <= i < digits.len() && digits[i] >= 10000 {
                Err(ParseDecimalError::InvalidDigit)
            } else {
                numeric_from_parts(sign == SIGN_NEGATIVE, as_i16(be_u16(raw, 2)), be_u16(raw, 6), digits)
            }
        }
    }
}

proof fn lemma_pow10_add(a: nat, b: nat)
    ensures
        pow10(a + b) == pow10(a) * pow10(b),
    decreases a,
{
    if a > 0 {
        let a1 = (a - 1) as nat;
        lemma_pow10_add(a1, b);
        assert((a1 + b) as nat == (a + b - 1) as nat);
        assert(pow10(a + b) == 10 * pow10(a1 + b));
        assert(pow10(a) == 10 * pow10(a1));
        let x = pow10(a1);
        let y = pow10(b);
        assert(10 * (x * y) == (10 * x) * y) by (nonlinear_arith);
    } else {
        assert(a + b == b);
        assert(pow10(a) == 1);
    }
}

proof fn lemma_pow10_known()
    ensures
        pow10(4) == 10000,
        pow10(29) == 100000000000000000000000000000,
        pow10(30) == 1000000000000000000000000000000,
{
    reveal_with_fuel(pow10, 31);
}

proof fn lemma_pow10_pos(a: nat)
    ensures
        pow10(a) >= 1,
    decreases a,
{
    if a > 0 {
        lemma_pow10_pos((a - 1) as nat);
    }
}

proof fn lemma_pow10_mono(a: nat, b: nat)
    requires
        a <= b,
    ensures
        pow10(a) <= pow10(b),
    decreases b,
{
    if a < b {
        lemma_pow10_mono(a, (b - 1) as nat);
        lemma_pow10_pos((b - 1) as nat);
    }
}

/// `floor(value of the first i digits * 10^(c - 4i))`.
pub open spec fn prefix_floor(d: Seq<nat>, c: int, i: int) -> nat {
    scaled_floor(digits_value(d.take(i)), c - 4 * i)
}

/// What digit `dig` adds at exponent `e` to the running floor.
pub open spec fn digit_term(dig: nat, e: int) -> nat {
    if e >= 0 {
        dig * pow10(e as nat)
    } else if e >= -4 {
        dig / pow10((-e) as nat)
    } else {
        0
    }
}

proof fn lemma_prefix_step(d: Seq<nat>, c: int, i: int)
    requires
        0 <= i < d.len(),
        d[i] < 10000,
    ensures
        prefix_floor(d, c, i + 1) == prefix_floor(d, c, i) + digit_term(d[i], c - 4 * i - 4),
{
    let p = digits_value(d.take(i));
    let dig = d[i];
    assert(d.take(i + 1).drop_last() =~= d.take(i));
    assert(digits_value(d.take(i + 1)) == p * 10000 + dig);
    let e = c - 4 * i - 4;
    lemma_pow10_add(4, 0);
    lemma_pow10_known();
    if e >= 0 {
        lemma_pow10_add(e as nat, 4);
        assert((e + 4) as nat == (e as nat + 4) as nat);
        let x = pow10(e as nat);
        assert((p * 10000 + dig) * x == p * (x * 10000) + dig * x) by (nonlinear_arith);
    } else if e >= -4 {
        let m = (-e) as nat;
        let k = (4 - m) as nat;
        lemma_pow10_add(k, m);
        assert(k + m == 4);
        lemma_pow10_pos(m);
        let q = pow10(m);
        let r = pow10(k);
        assert(p * 10000 == (p * r) * q) by (nonlinear_arith)
            requires r * q == 10000;
        lemma_hoist_over_denominator(dig as int, (p * r) as int, q);
        assert(((p * r) * q) as int == (p * r) as int * q as int);
    } else {
        let m = (-e) as nat;
        let k = (m - 4) as nat;
        lemma_pow10_add(4, k);
        lemma_pow10_pos(k);
        assert(c - 4 * i == -(k as int));
        lemma_div_denominator((p * 10000 + dig) as int, 10000, pow10(k) as int);
        assert((p * 10000 + dig) / 10000 == p);
    }
}

proof fn lemma_prefix_mono(d: Seq<nat>, c: int, i: int, j: int)
    requires
        0 <= i <= j <= d.len(),
        forall|k: int| 0 <= k < d.len() ==> d[k] < 10000,
    ensures
        prefix_floor(d, c, i) <= prefix_floor(d, c, j),
    decreases j - i,
{
    if i < j {
        lemma_prefix_mono(d, c, i, j - 1);
        lemma_prefix_step(d, c, j - 1);
    }
}

fn pow10_u128(e: u32) -> (r: u128)
    requires
        e <= 30,
    ensures
        r == pow10(e as nat),
{
    let mut r: u128 = 1;
    let mut i: u32 = 0;
    while i < e
        invariant
            i <= e <= 30,
            r == pow10(i as nat),
        decreases e - i,
    {
        proof {
            lemma_pow10_mono(i as nat + 1, 30);
            lemma_pow10_known();
        }
        r = r * 10;
        i = i + 1;
    }
    r
}

fn read_be_u16(raw: &[u8], i: usize) -> (r: u16)
    requires
        i + 1 < raw@.len(),
    ensures
        r as nat == be_u16(raw@, i as int),
{
    (raw[i] as u16) * 256 + (raw[i + 1] as u16)
}

/// Largest running floor (one extra decimal digit) that can still round to a
/// mantissa below `MANTISSA_LIMIT`.
const FLOOR_LIMIT: u128 = 792281625142643375935439503360;

fn mantissa_of_digits(raw: &[u8], n: usize, weight: i16, scale: u16) -> (r: Option<u128>)
    requires
        n < 65536,
        raw@.len() >= 8 + 2 * n,
        forall|k: int| 0 <= k < n ==> #[trigger] be_u16(raw@, 8 + 2 * k) < 10000,
    ensures
        ({
            let m = numeric_mantissa(wire_digits(raw@, n as nat), weight as int, scale as nat);
            match r {
                Some(v) => v == m && m < MANTISSA_LIMIT,
                None => m >= MANTISSA_LIMIT,
            }
        }),
{
    let ghost d = wire_digits(raw@, n as nat);
    let s: i64 = if (scale as u32) < MAX_SCALE { scale as i64 } else { MAX_SCALE as i64 };
    let c: i64 = 4 * (weight as i64 + 1) + s + 1;
    let mut acc: u128 = 0;
    let mut i: usize = 0;
    assert(d.take(0) =~= Seq::<nat>::empty());
    proof {
        lemma_pow10_pos((-c) as nat);
        assert(digits_value(d.take(0)) == 0);
        assert(0 * pow10(c as nat) == 0);
    }
    while i < n
        invariant
            n < 65536,
            raw@.len() >= 8 + 2 * n,
            d == wire_digits(raw@, n as nat),
            forall|k: int| 0 <= k < d.len() ==> d[k] < 10000,
            c == 4 * (weight as int + 1) + stored_scale(scale as nat) + 1,
            i <= n,
            acc == prefix_floor(d, c as int, i as int),
            acc <= FLOOR_LIMIT,
        decreases n - i,
    {
        let dig = read_be_u16(raw, 8 + 2 * i);
        assert(dig as nat == d[i as int]);
        proof {
            lemma_prefix_step(d, c as int, i as int);
            lemma_prefix_mono(d, c as int, i as int + 1, n as int);
        }
        assert(d.take(n as int) =~= d);
        let e: i64 = c - 4 * (i as i64) - 4;
        if e >= 0 {
            assert(0 * pow10(e as nat) == 0);
            if dig != 0 {
                if e > 29 {
                    proof {
                        lemma_pow10_mono(30, e as nat);
                        lemma_pow10_known();
                        assert(dig as nat * pow10(e as nat) >= pow10(e as nat)) by (nonlinear_arith)
                            requires dig >= 1;
                    }
                    return None;
                }
                let p = pow10_u128(e as u32);
                proof {
                    lemma_pow10_mono(e as nat, 29);
                    lemma_pow10_known();
                    assert(dig as nat * pow10(e as nat) <= 9999 * pow10(29)) by (nonlinear_arith)
                        requires dig < 10000, pow10(e as nat) <= pow10(29);
                }
                acc = acc + (dig as u128) * p;
            }
        } else if e >= -4 {
            let p = pow10_u128((-e) as u32);
            proof { lemma_pow10_pos((-e) as nat); }
            acc = acc + (dig as u128) / p;
        }
        if acc > FLOOR_LIMIT {
            return None;
        }
        i = i + 1;
    }
    assert(d.take(n as int) =~= d);
    assert(d.len() == n);
    let m = acc / 10 + if acc % 10 >= 5 { 1 } else { 0 };
    if m >= MANTISSA_LIMIT {
        None
    } else {
        Some(m)
    }
}

impl PgNumeric {
    /// Decodes the binary wire form of a NUMERIC.
    pub fn from_sql(raw: &[u8]) -> (r: Result<PgNumeric, ParseDecimalError>)
        ensures
            r == decode_numeric(raw@),
    {
        if raw.len() < 6 {
            return Err(ParseDecimalError::UnexpectedEnd);
        }
        let n = read_be_u16(raw, 0);
        let weight_word = read_be_u16(raw, 2);
        let sign = read_be_u16(raw, 4);
        if sign == SIGN_NAN {
            return Ok(PgNumeric::NaN);
        } else if sign == SIGN_POSITIVE_INF {
            return Ok(PgNumeric::PositiveInf);
        } else if sign == SIGN_NEGATIVE_INF {
            return Ok(PgNumeric::NegativeInf);
        } else if sign != SIGN_POSITIVE && sign != SIGN_NEGATIVE {
            return Err(ParseDecimalError::InvalidSign(sign));
        }
        if raw.len() < 8 + 2 * (n as usize) {
            return Err(ParseDecimalError::UnexpectedEnd);
        }
        let scale = read_be_u16(raw, 6);
        let weight: i16 = if weight_word >= 32768 {
            (weight_word as i32 - 65536) as i16
        } else {
            weight_word as i16
        };
        let ghost d = wire_digits(raw@, n as nat);
        let mut k: usize = 0;
        while k < n as usize
            invariant
                raw@.len() >= 8 + 2 * n,
                d == wire_digits(raw@, n as nat),
                n as nat == be_u16(raw@, 0),
                sign as nat == be_u16(raw@, 4),
                sign == SIGN_POSITIVE || sign == SIGN_NEGATIVE,
                k <= n,
                forall|j: int| 0 <= j < k ==> d[j] < 10000,
            decreases n - k,
        {
            let dig = read_be_u16(raw, 8 + 2 * k);
            if dig >= 10000 {
                assert(d[k as int] >= 10000);
                assert(d.len() == n);
                assert(exists|i: int| 0 <= i < d.len() && d[i] >= 10000);
                return Err(ParseDecimalError::InvalidDigit);
            }
            k = k + 1;
        }
        assert(forall|j: int| 0 <= j < n ==> #[trigger] be_u16(raw@, 8 + 2 * j) == d[j]);
        match mantissa_of_digits(raw, n as usize, weight, scale) {
            None => Err(ParseDecimalError::InvalidDecimalValue),
            Some(m) => {
                let s: u32 = if (scale as u32) < MAX_SCALE { scale as u32 } else { MAX_SCALE };
                Ok(PgNumeric::Value(PgDecimal { negative: sign == SIGN_NEGATIVE && m > 0, mantissa: m, scale: s }))
            }
        }
    }
}

/// Base-10000 digits of `n`, most significant first, without leading zeros.
pub open spec fn base10000_digits(n: nat) -> Seq<nat>
    decreases n,
{
    if n == 0 { Seq::empty() } else { base10000_digits(n / 10000).push(n % 10000) }
}

/// Number of decimal zeros appended so that the scale becomes a multiple of 4.
pub open spec fn scale_padding(scale: nat) -> nat {
    ((4 - scale % 4) % 4) as nat
}

/// The digits Postgres sends for a decimal: its mantissa widened to a whole
/// number of base-10000 fractional digits.
pub open spec fn encoded_digits(d: PgDecimal) -> Seq<nat> {
    base10000_digits(d.mantissa as nat * pow10(scale_padding(d.scale as nat)))
}

/// The weight Postgres sends for a decimal: the power of 10000 of its first digit.
pub open spec fn encoded_weight(d: PgDecimal) -> int {
    encoded_digits(d).len() - 1 - (d.scale + scale_padding(d.scale as nat)) / 4
}

proof fn lemma_base10000_digits(n: nat)
    ensures
        digits_value(base10000_digits(n)) == n,
        forall|i: int| 0 <= i < base10000_digits(n).len() ==> #[trigger] base10000_digits(n)[i] < 10000,
    decreases n,
{
    if n > 0 {
        lemma_base10000_digits(n / 10000);
        let s = base10000_digits(n);
        assert(s.drop_last() =~= base10000_digits(n / 10000));
        assert forall|i: int| 0 <= i < s.len() implies #[trigger] s[i] < 10000 by {
            if i < s.len() - 1 {
                assert(s[i] == base10000_digits(n / 10000)[i]);
            }
        }
    }
}

/// Decoding the digits and weight that encode a canonical decimal, with the
/// decimal's own scale and sign, gives back that decimal; every such digit is
/// a valid base-10000 digit.
pub proof fn lemma_numeric_round_trip(d: PgDecimal)
    requires
        d.wf(),
    ensures
        numeric_from_parts(d.negative, encoded_weight(d), d.scale as nat, encoded_digits(d))
            == Ok::<PgNumeric, ParseDecimalError>(PgNumeric::Value(d)),
        forall|i: int| 0 <= i < encoded_digits(d).len() ==> #[trigger] encoded_digits(d)[i] < 10000,
{
    let s = d.scale as nat;
    let pad = scale_padding(s);
    let m = d.mantissa as nat;
    let n = m * pow10(pad);
    lemma_base10000_digits(n);
    let digits = encoded_digits(d);
    assert((s + pad) % 4 == 0);
    let k = 4 * (encoded_weight(d) - digits.len() + 1) + stored_scale(s) + 1;
    assert(stored_scale(s) == s);
    assert(k == 1 - pad);
    if pad == 0 {
        assert(pow10(0) == 1);
        assert(n == m * 1);
        assert(n == m);
        assert(scaled_floor(n, k) == m * 10);
    } else {
        let p = (pad - 1) as nat;
        lemma_pow10_add(1, p);
        assert(pow10(1) == 10) by {
            assert(pow10(0) == 1);
        }
        assert((1 + p) as nat == pad);
        lemma_pow10_pos(p);
        let q = pow10(p);
        assert(n == (m * 10) * q) by (nonlinear_arith)
            requires n == m * pow10(pad), pow10(pad) == 10 * q;
        if k == 0 {
            assert(p == 0);
            assert(q == 1);
            assert(pow10(0) == 1);
            assert(scaled_floor(n, k) == n * 1);
            assert(n / 1 == n);
        } else {
            assert((-k) as nat == p);
        }
        assert(scaled_floor(n, k) == n / q);
        assert(((m * 10) * q) / q == m * 10) by (nonlinear_arith)
            requires q >= 1;
    }
    assert((m * 10) / 10 == m && (m * 10) % 10 == 0) by (nonlinear_arith);
    assert(round_last_digit(m * 10) == m);
}

/// Big-endian bytes of a 16-bit word.
pub open spec fn be_bytes(v: nat) -> Seq<u8> {
    seq![(v / 256) as u8, (v % 256) as u8]
}

/// Big-endian bytes of base-10000 digits.
pub open spec fn digits_bytes(ds: Seq<nat>) -> Seq<u8>
    decreases ds.len(),
{
    if ds.len() == 0 { Seq::empty() } else { digits_bytes(ds.drop_last()) + be_bytes(ds.last()) }
}

/// The 16-bit two's-complement word of a weight.
pub open spec fn weight_word(w: int) -> nat {
    (if w < 0 { w + 65536 } else { w }) as nat
}

/// Binary NUMERIC of a sign, a weight, a declared scale and base-10000
/// digits.
pub open spec fn wire_of(negative: bool, weight: int, scale: nat, ds: Seq<nat>) -> Seq<u8> {
    be_bytes(ds.len()) + be_bytes(weight_word(weight)) + be_bytes(
        if negative { SIGN_NEGATIVE as nat } else { SIGN_POSITIVE as nat },
    ) + be_bytes(scale) + digits_bytes(ds)
}

/// The binary NUMERIC of a canonical decimal with every base-10000 digit of
/// its widened mantissa, trailing zeros included.
pub open spec fn numeric_wire(d: PgDecimal) -> Seq<u8> {
    wire_of(d.negative, encoded_weight(d), d.scale as nat, encoded_digits(d))
}

/// Digits without their trailing zeros.
pub open spec fn strip_zeros(ds: Seq<nat>) -> Seq<nat>
    decreases ds.len(),
{
    if ds.len() > 0 && ds.last() == 0 { strip_zeros(ds.drop_last()) } else { ds }
}

/// The digits Postgres sends for a decimal: trailing zero digits stripped.
pub open spec fn postgres_digits(d: PgDecimal) -> Seq<nat> {
    strip_zeros(encoded_digits(d))
}

/// The weight Postgres sends for a decimal: that of its first digit, and 0
/// for zero.
pub open spec fn postgres_weight(d: PgDecimal) -> int {
    if postgres_digits(d).len() == 0 { 0 } else { encoded_weight(d) }
}

/// The binary NUMERIC that Postgres sends for a canonical decimal.
pub open spec fn postgres_numeric_wire(d: PgDecimal) -> Seq<u8> {
    wire_of(d.negative, postgres_weight(d), d.scale as nat, postgres_digits(d))
}

proof fn lemma_be_bytes(b: Seq<u8>, i: int, v: nat)
    requires
        v < 65536,
        0 <= i,
        i + 1 < b.len(),
        b[i] == (v / 256) as u8,
        b[i + 1] == (v % 256) as u8,
    ensures
        be_u16(b, i) == v,
{
}

proof fn lemma_digits_bytes(ds: Seq<nat>)
    requires
        forall|k: int| 0 <= k < ds.len() ==> #[trigger] ds[k] < 10000,
    ensures
        digits_bytes(ds).len() == 2 * ds.len(),
        forall|k: int| 0 <= k < ds.len() ==> #[trigger] be_u16(digits_bytes(ds), 2 * k) == ds[k],
    decreases ds.len(),
{
    if ds.len() > 0 {
        let rest = ds.drop_last();
        lemma_digits_bytes(rest);
        let b = digits_bytes(ds);
        let rb = digits_bytes(rest);
        assert forall|k: int| 0 <= k < ds.len() implies #[trigger] be_u16(b, 2 * k) == ds[k] by {
            if k < ds.len() - 1 {
                assert(b[2 * k] == rb[2 * k]);
                assert(b[2 * k + 1] == rb[2 * k + 1]);
                assert(rest[k] == ds[k]);
                assert(be_u16(rb, 2 * k) == rest[k]);
            } else {
                lemma_be_bytes(b, 2 * k, ds[k]);
            }
        }
    }
}

proof fn lemma_base10000_len(n: nat, k: nat)
    requires
        n < pow10(4 * k),
    ensures
        base10000_digits(n).len() <= k,
    decreases n,
{
    if n > 0 {
        assert(k > 0) by {
            if k == 0 {
                assert(pow10(0) == 1);
            }
        }
        let k1 = (k - 1) as nat;
        lemma_pow10_add(4, 4 * k1);
        lemma_pow10_known();
        assert((4 + 4 * k1) as nat == 4 * k);
        assert(n / 10000 < pow10(4 * k1)) by {
            let p = pow10(4 * k1);
            assert(n < 10000 * p);
            assert(n / 10000 < p) by (nonlinear_arith)
                requires n < 10000 * p;
        }
        lemma_base10000_len(n / 10000, k1);
    }
}

proof fn lemma_wire_decodes(negative: bool, w: int, scale: nat, ds: Seq<nat>)
    requires
        ds.len() < 65536,
        -32768 <= w < 32768,
        scale < 65536,
        forall|k: int| 0 <= k < ds.len() ==> #[trigger] ds[k] < 10000,
    ensures
        decode_numeric(wire_of(negative, w, scale, ds)) == numeric_from_parts(negative, w, scale, ds),
{
    let raw = wire_of(negative, w, scale, ds);
    lemma_digits_bytes(ds);
    let sign: nat = if negative { SIGN_NEGATIVE as nat } else { SIGN_POSITIVE as nat };
    let head = be_bytes(ds.len()) + be_bytes(weight_word(w)) + be_bytes(sign) + be_bytes(scale);
    assert(head.len() == 8);
    assert(raw == head + digits_bytes(ds));
    lemma_be_bytes(raw, 0, ds.len());
    lemma_be_bytes(raw, 2, weight_word(w));
    lemma_be_bytes(raw, 4, sign);
    lemma_be_bytes(raw, 6, scale);
    assert(as_i16(weight_word(w)) == w);
    let db = digits_bytes(ds);
    assert(wire_digits(raw, ds.len()) =~= ds) by {
        assert forall|k: int| 0 <= k < ds.len() implies #[trigger] wire_digits(raw, ds.len())[k] == ds[k] by {
            assert(raw[8 + 2 * k] == db[2 * k]);
            assert(raw[8 + 2 * k + 1] == db[2 * k + 1]);
            assert(be_u16(db, 2 * k) == ds[k]);
        }
    }
}

/// The widened mantissa of a canonical decimal has at most 8 base-10000
/// digits, so its weight lies in [-8, 7].
proof fn lemma_encoded_digits_len(d: PgDecimal)
    requires
        d.wf(),
    ensures
        encoded_digits(d).len() <= 8,
        -8 <= encoded_weight(d) <= 7,
{
    let pad = scale_padding(d.scale as nat);
    let n = d.mantissa as nat * pow10(pad);
    assert(pad <= 3);
    lemma_pow10_mono(pad, 3);
    assert(pow10(3) == 1000) by {
        reveal_with_fuel(pow10, 4);
    }
    assert(pow10(32) == 100000000000000000000000000000000) by {
        reveal_with_fuel(pow10, 33);
    }
    assert(n < pow10(32)) by (nonlinear_arith)
        requires
            n == d.mantissa as nat * pow10(pad),
            pow10(pad) <= 1000,
            d.mantissa < 79228162514264337593543950336,
            pow10(32) == 100000000000000000000000000000000;
    assert(4 * 8nat == 32nat);
    lemma_base10000_len(n, 8);
}

/// Decoding the binary NUMERIC that encodes a canonical decimal with all
/// digits of its widened mantissa gives back that decimal.
pub proof fn lemma_numeric_wire_round_trip(d: PgDecimal)
    requires
        d.wf(),
    ensures
        decode_numeric(numeric_wire(d)) == Ok::<PgNumeric, ParseDecimalError>(PgNumeric::Value(d)),
{
    lemma_numeric_round_trip(d);
    lemma_encoded_digits_len(d);
    lemma_wire_decodes(d.negative, encoded_weight(d), d.scale as nat, encoded_digits(d));
}

proof fn lemma_zero_floor(k: int)
    ensures
        scaled_floor(0, k) == 0,
{
    if k < 0 {
        lemma_pow10_pos((-k) as nat);
    } else {
        assert(0 * pow10(k as nat) == 0);
    }
}

/// A trailing zero digit does not change the decoded magnitude.
proof fn lemma_drop_zero_digit(ds: Seq<nat>, w: int, scale: nat)
    requires
        ds.len() > 0,
        ds.last() == 0,
    ensures
        numeric_mantissa(ds.drop_last(), w, scale) == numeric_mantissa(ds, w, scale),
{
    let p = digits_value(ds.drop_last());
    assert(digits_value(ds) == p * 10000);
    let k = 4 * (w - ds.len() + 1) + stored_scale(scale) + 1;
    assert(4 * (w - ds.drop_last().len() + 1) + stored_scale(scale) + 1 == k + 4);
    lemma_pow10_known();
    if k >= 0 {
        lemma_pow10_add(4, k as nat);
        assert((k + 4) as nat == (4 + k as nat) as nat);
        let x = pow10(k as nat);
        assert(p * 10000 * x == p * (10000 * x)) by (nonlinear_arith);
    } else if k + 4 >= 0 {
        let m = (-k) as nat;
        let j = (k + 4) as nat;
        lemma_pow10_add(j, m);
        assert(j + m == 4);
        lemma_pow10_pos(m);
        let q = pow10(m);
        let r = pow10(j);
        assert(p * 10000 == (p * r) * q) by (nonlinear_arith)
            requires r * q == 10000;
        assert(((p * r) * q) / q == p * r) by (nonlinear_arith)
            requires q >= 1;
        assert(scaled_floor(p * 10000, k) == (p * 10000) / q);
        assert(scaled_floor(p, k + 4) == p * r);
    } else {
        let m = (-(k + 4)) as nat;
        lemma_pow10_add(4, m);
        lemma_pow10_pos(m);
        assert((-k) as nat == (4 + m) as nat);
        lemma_div_denominator((p * 10000) as int, 10000, pow10(m) as int);
        assert((p * 10000) / 10000 == p);
    }
}

proof fn lemma_strip_zeros(ds: Seq<nat>, w: int, scale: nat)
    ensures
        numeric_mantissa(strip_zeros(ds), w, scale) == numeric_mantissa(ds, w, scale),
        strip_zeros(ds).len() <= ds.len(),
        forall|k: int| 0 <= k < strip_zeros(ds).len() ==> #[trigger] strip_zeros(ds)[k] == ds[k],
    decreases ds.len(),
{
    if ds.len() > 0 && ds.last() == 0 {
        lemma_strip_zeros(ds.drop_last(), w, scale);
        lemma_drop_zero_digit(ds, w, scale);
        assert forall|k: int| 0 <= k < strip_zeros(ds).len() implies #[trigger] strip_zeros(ds)[k] == ds[k] by {
            assert(strip_zeros(ds)[k] == ds.drop_last()[k]);
        }
    }
}

/// Decoding the binary NUMERIC that Postgres sends for a canonical decimal
/// (trailing zero digits stripped, weight 0 for zero) gives back that
/// decimal.
pub proof fn lemma_numeric_postgres_round_trip(d: PgDecimal)
    requires
        d.wf(),
    ensures
        decode_numeric(postgres_numeric_wire(d)) == Ok::<PgNumeric, ParseDecimalError>(PgNumeric::Value(d)),
{
    lemma_numeric_round_trip(d);
    lemma_encoded_digits_len(d);
    let full = encoded_digits(d);
    let ds = postgres_digits(d);
    let s = d.scale as nat;
    lemma_strip_zeros(full, encoded_weight(d), s);
    assert forall|k: int| 0 <= k < ds.len() implies #[trigger] ds[k] < 10000 by {
        assert(ds[k] == full[k]);
    }
    if ds.len() == 0 {
        assert(digits_value(ds) == 0);
        lemma_zero_floor(4 * (0 - 0 + 1) + stored_scale(s) + 1);
        lemma_zero_floor(4 * (encoded_weight(d) - 0 + 1) + stored_scale(s) + 1);
        assert(numeric_mantissa(ds, 0, s) == 0);
        assert(numeric_mantissa(ds, encoded_weight(d), s) == 0);
    }
    assert(numeric_mantissa(ds, postgres_weight(d), s) == numeric_mantissa(full, encoded_weight(d), s));
    lemma_wire_decodes(d.negative, postgres_weight(d), s, ds);
}

/// A decoded decimal is canonical and stores the declared scale, capped at
/// `MAX_SCALE`.
pub proof fn lemma_decoded_scale(raw: Seq<u8>)
    ensures
        decode_numeric(raw) matches Ok(PgNumeric::Value(v)) ==> v.wf() && v.scale as nat == stored_scale(
            be_u16(raw, 6),
        ),
{
}

/// What `rust_decimal` parses from a text: sign flag, magnitude of the
/// mantissa, scale.
pub uninterp spec fn decimal_text(s: Seq<char>) -> Option<(bool, u128, u32)>;

/// Relies on `rust_decimal::Decimal::from_str`, and on `Decimal` holding a
/// 96-bit mantissa with a scale of at most 28.
#[verifier::external_body]
fn parse_decimal_text(s: &str) -> (r: Option<(bool, u128, u32)>)
    ensures
        r == decimal_text(s@),
        r matches Some(t) ==> t.1 < MANTISSA_LIMIT && t.2 <= MAX_SCALE,
{
    match <rust_decimal::Decimal as std::str::FromStr>::from_str(s) {
        Ok(d) => Some((d.is_sign_negative(), d.mantissa().unsigned_abs(), d.scale())),
        Err(_) => None,
    }
}

/// A NUMERIC from what `rust_decimal` parsed of a text and the text in
/// lowercase: the decimal when it parsed, else `infinity`, `-infinity` or
/// `nan`.
pub open spec fn numeric_from_parsed(parsed: Option<(bool, u128, u32)>, lowered: Seq<char>) -> Result<PgNumeric, ParseDecimalError> {
    match parsed {
        Some(t) => Ok(PgNumeric::Value(PgDecimal { negative: t.0 && t.1 > 0, mantissa: t.1, scale: t.2 })),
        None => if lowered == "infinity"@ {
            Ok(PgNumeric::PositiveInf)
        } else if lowered == "-infinity"@ {
            Ok(PgNumeric::NegativeInf)
        } else if lowered == "nan"@ {
            Ok(PgNumeric::NaN)
        } else {
            Err(ParseDecimalError::InvalidText)
        },
    }
}

/// A NUMERIC written as text: a decimal, or `infinity`, `-infinity`, `nan`
/// in any letter case.
pub open spec fn numeric_text(s: Seq<char>) -> Result<PgNumeric, ParseDecimalError> {
    numeric_from_parsed(decimal_text(s), lower_of(s))
}

impl PgNumeric {
    /// The NUMERIC for a parsed decimal (sign, magnitude of the mantissa,
    /// scale), or, when the text did not parse as one, for its lowercase form.
    pub fn from_parsed(parsed: Option<(bool, u128, u32)>, lowered: &str) -> (r: Result<PgNumeric, ParseDecimalError>)
        ensures
            r == numeric_from_parsed(parsed, lowered@),
    {
        match parsed {
            Some((neg, m, scale)) => Ok(PgNumeric::Value(PgDecimal { negative: neg && m > 0, mantissa: m, scale })),
            None => {
                if str_equal(lowered, "infinity") {
                    Ok(PgNumeric::PositiveInf)
                } else if str_equal(lowered, "-infinity") {
                    Ok(PgNumeric::NegativeInf)
                } else if str_equal(lowered, "nan") {
                    Ok(PgNumeric::NaN)
                } else {
                    Err(ParseDecimalError::InvalidText)
                }
            },
        }
    }

    /// Parses the text form of a NUMERIC.
    pub fn from_str(s: &str) -> (r: Result<PgNumeric, ParseDecimalError>)
        ensures
            r == numeric_text(s@),
            r matches Ok(PgNumeric::Value(d)) ==> d.wf(),
    {
        let parsed = parse_decimal_text(s);
        let lowered = lowercase(s);
        PgNumeric::from_parsed(parsed, lowered.as_str())
    }
}

impl PgNumeric {
    /// Only the NUMERIC type decodes to a `PgNumeric`.
    pub fn accepts(typ: u32) -> (r: bool)
        ensures
            r == (typ == NUMERIC_OID),
    {
        typ == NUMERIC_OID
    }
}

impl Default for PgNumeric {
    fn default() -> (r: PgNumeric)
        ensures
            r == PgNumeric::Value(PgDecimal { negative: false, mantissa: 0, scale: 0 }),
    {
        PgNumeric::Value(PgDecimal { negative: false, mantissa: 0, scale: 0 })
    }
}

pub open spec fn digit_char(d: nat) -> char {
    if d == 0 { '0' } else if d == 1 { '1' } else if d == 2 { '2' } else if d == 3 { '3' } else if d == 4 { '4' }
    else if d == 5 { '5' } else if d == 6 { '6' } else if d == 7 { '7' } else if d == 8 { '8' } else { '9' }
}

/// Decimal digits of `n`, most significant first.
pub open spec fn decimal_digits(n: nat) -> Seq<char>
    decreases n,
{
    if n < 10 { seq![digit_char(n)] } else { decimal_digits(n / 10).push(digit_char(n % 10)) }
}

/// The digits of a mantissa, with leading zeros so that at least one digit
/// stands before the fractional ones.
pub open spec fn padded_digits(m: nat, scale: nat) -> Seq<char> {
    let ds = decimal_digits(m);
    if ds.len() <= scale { Seq::new((scale + 1 - ds.len()) as nat, |i: int| '0') + ds } else { ds }
}

/// A decimal as text: sign, integer digits, and exactly `scale` fractional
/// digits after a point.
pub open spec fn decimal_display(d: PgDecimal) -> Seq<char> {
    let p = padded_digits(d.mantissa as nat, d.scale as nat);
    let k = p.len() - d.scale;
    let body = if d.scale == 0 { p } else { p.subrange(0, k) + seq!['.'] + p.subrange(k, p.len() as int) };
    if d.negative { seq!['-'] + body } else { body }
}

pub open spec fn numeric_display(n: PgNumeric) -> Seq<char> {
    match n {
        PgNumeric::NaN => "NaN"@,
        PgNumeric::PositiveInf => "Infinity"@,
        PgNumeric::NegativeInf => "-Infinity"@,
        PgNumeric::Value(d) => decimal_display(d),
    }
}

fn digit_of(d: u128) -> (c: char)
    requires
        d < 10,
    ensures
        c == digit_char(d as nat),
{
    if d == 0 { '0' } else if d == 1 { '1' } else if d == 2 { '2' } else if d == 3 { '3' } else if d == 4 { '4' }
    else if d == 5 { '5' } else if d == 6 { '6' } else if d == 7 { '7' } else if d == 8 { '8' } else { '9' }
}

fn push_decimal_digits(out: &mut Vec<char>, n: u128)
    ensures
        final(out)@ == old(out)@ + decimal_digits(n as nat),
    decreases n,
{
    if n >= 10 {
        push_decimal_digits(out, n / 10);
    }
    out.push(digit_of(n % 10));
    assert(final(out)@ =~= old(out)@ + decimal_digits(n as nat));
}

fn push_range(out: &mut String, p: &Vec<char>, from: usize, to: usize)
    requires
        from <= to <= p@.len(),
    ensures
        final(out)@ == old(out)@ + p@.subrange(from as int, to as int),
{
    let mut j = from;
    while j < to
        invariant
            from <= j <= to <= p@.len(),
            out@ == old(out)@ + p@.subrange(from as int, j as int),
        decreases to - j,
    {
        push_char(out, p[j]);
        assert(out@ =~= old(out)@ + p@.subrange(from as int, j as int + 1));
        j = j + 1;
    }
}

impl PgDecimal {
    /// The text of the decimal, with `scale` fractional digits.
    pub fn to_text(&self) -> (r: String)
        ensures
            r@ == decimal_display(*self),
    {
        let mut ds: Vec<char> = Vec::new();
        push_decimal_digits(&mut ds, self.mantissa);
        assert(ds@ =~= decimal_digits(self.mantissa as nat));
        let scale = self.scale as usize;
        let mut p: Vec<char> = Vec::new();
        if ds.len() <= scale {
            assert(ds@.len() >= 1);
            let z = scale - ds.len() + 1;
            let mut i: usize = 0;
            while i < z
                invariant
                    i <= z,
                    p@ == Seq::new(i as nat, |k: int| '0'),
                decreases z - i,
            {
                p.push('0');
                assert(p@ =~= Seq::new(i as nat + 1, |k: int| '0'));
                i = i + 1;
            }
            let mut j: usize = 0;
            while j < ds.len()
                invariant
                    j <= ds@.len(),
                    p@ == Seq::new(z as nat, |k: int| '0') + ds@.subrange(0, j as int),
                decreases ds@.len() - j,
            {
                p.push(ds[j]);
                assert(p@ =~= Seq::new(z as nat, |k: int| '0') + ds@.subrange(0, j as int + 1));
                j = j + 1;
            }
            assert(ds@.subrange(0, ds@.len() as int) =~= ds@);
        } else {
            p = ds;
        }
        assert(p@ == padded_digits(self.mantissa as nat, self.scale as nat));
        let mut out = String::new();
        if self.negative {
            push_char(&mut out, '-');
        }
        if scale == 0 {
            push_range(&mut out, &p, 0, p.len());
            assert(p@.subrange(0, p@.len() as int) =~= p@);
        } else {
            let k = p.len() - scale;
            push_range(&mut out, &p, 0, k);
            push_char(&mut out, '.');
            push_range(&mut out, &p, k, p.len());
        }
        assert(out@ =~= decimal_display(*self));
        out
    }
}

impl PgNumeric {
    /// The display text: `NaN`, `Infinity`, `-Infinity`, or the decimal.
    pub fn to_text(&self) -> (r: String)
        ensures
            r@ == numeric_display(*self),
    {
        match self {
            PgNumeric::NaN => String::from_str("NaN"),
            PgNumeric::PositiveInf => String::from_str("Infinity"),
            PgNumeric::NegativeInf => String::from_str("-Infinity"),
            PgNumeric::Value(d) => d.to_text(),
        }
    }
}

} // verus!
