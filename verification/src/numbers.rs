//! Numbers as text, and arithmetic that rounds as doubles do.
//!
//! Durations and money are whole numbers of small units. They are printed
//! with a fixed number of decimals, rounded the way a double-precision number
//! nearest to the value is rounded. Sizes of pictures and the footprint of a
//! browser are computed the way doubles are, each step rounded to the nearest
//! one.
use vstd::prelude::*;
use vstd::string::StringExecFns;
use crate::text;

verus! {

/// 2^52: the significand of a normal double is at least this much.
pub const SIGNIFICAND_MIN: u128 = 4503599627370496;

/// 2^53: the significand of a normal double is less than this.
pub const SIGNIFICAND_END: u128 = 9007199254740992;

/// `n / d` rounded to the nearest whole number, ties to the even one.
pub open spec fn half_even(n: nat, d: nat) -> nat {
    if 2 * (n % d) < d || (2 * (n % d) == d && (n / d) % 2 == 0) {
        n / d
    } else {
        n / d + 1
    }
}

/// 10^k.
pub open spec fn pow10(k: nat) -> nat
    decreases k,
{
    if k == 0 {
        1
    } else {
        10 * pow10((k - 1) as nat)
    }
}

/// `n` doubled until `n / d` is a significand, beside `unit` doubled as often.
pub open spec fn doubled(n: nat, d: nat, unit: nat) -> (nat, nat)
    decreases
            (if n < SIGNIFICAND_MIN * d {
                SIGNIFICAND_MIN * d - n
            } else {
                0
            }),
{
    if n == 0 || n >= SIGNIFICAND_MIN * d {
        (n, unit)
    } else {
        doubled(2 * n, d, 2 * unit)
    }
}

/// `d` doubled until `n / d` is a significand, beside `step` doubled as often.
pub open spec fn coarsened(n: nat, d: nat, step: nat) -> (nat, nat)
    decreases n - d,
{
    if d == 0 || n < SIGNIFICAND_END * d {
        (d, step)
    } else {
        coarsened(n, 2 * d, 2 * step)
    }
}

/// The double nearest to `n / d`, in units of `10^-k` and rounded to a whole
/// number of them.
pub open spec fn double_units(n: nat, d: nat, k: nat) -> nat {
    if n < SIGNIFICAND_END * d {
        let (scaled, unit) = doubled(n, d, 1);
        half_even(half_even(scaled, d) * pow10(k), unit)
    } else {
        let (divisor, step) = coarsened(n, d, 1);
        half_even(n, divisor) * step * pow10(k)
    }
}

/// The last `k` decimal digits of `n`, with leading zeros.
pub open spec fn pad(n: nat, k: nat) -> Seq<char>
    decreases k,
{
    if k == 0 {
        Seq::empty()
    } else {
        pad(n / 10, (k - 1) as nat).push(text::digit(n % 10))
    }
}

/// A whole number of units of `10^-k`, with `k` decimals.
pub open spec fn with_decimals(units: nat, k: nat) -> Seq<char> {
    text::dec(units / pow10(k)) + "."@ + pad(units % pow10(k), k)
}

/// The text of the double nearest to `n / d`, with `k` decimals.
pub open spec fn fixed(n: nat, d: nat, k: nat) -> Seq<char> {
    with_decimals(double_units(n, d, k), k)
}

/// `n / d` rounded to the nearest whole number, ties to the even one.
fn round_half_even(n: u128, d: u128) -> (r: u128)
    requires
        0 < d,
        d <= 0x7fff_ffff_ffff_ffff_ffff_ffff_ffff_ffff,
        n / d < u128::MAX,
    ensures
        r == half_even(n as nat, d as nat),
{
    let q: u128 = n / d;
    let rem: u128 = n % d;
    if 2 * rem < d || (2 * rem == d && q % 2 == 0) {
        q
    } else {
        q + 1
    }
}

/// The last `k` decimal digits of `n`, with leading zeros.
pub fn padded(n: u128, k: u32) -> (r: String)
    ensures
        r@ == pad(n as nat, k as nat),
    decreases k,
{
    if k == 0 {
        String::new()
    } else {
        let mut s = padded(n / 10, k - 1);
        let d: u8 = (n % 10) as u8;
        s.push((48 + d) as char);
        s
    }
}

/// 10^k.
fn power_of_ten(k: u32) -> (r: u128)
    requires
        k <= 6,
    ensures
        r == pow10(k as nat),
        1 <= r <= 1_000_000,
{
    proof {
        reveal_with_fuel(pow10, 7);
    }
    match k {
        0 => 1,
        1 => 10,
        2 => 100,
        3 => 1_000,
        4 => 10_000,
        5 => 100_000,
        _ => 1_000_000,
    }
}

/// `a / b` times `c` is no more than `a / d`, where `b` is `d * c`.
proof fn lemma_quotient_step(a: nat, b: nat, c: nat, d: nat)
    requires
        b == d * c,
        0 < b,
        0 < d,
    ensures
        (a / b) * c <= a / d,
        b <= a ==> c <= a / d,
{
    let q = a / b;
    assert(q * c * d <= a) by (nonlinear_arith)
        requires
            b == d * c,
            0 < b,
            q == a / b,
    ;
    assert(q * c <= a / d) by (nonlinear_arith)
        requires
            q * c * d <= a,
            0 < d,
    ;
    assert(b <= a ==> c <= a / d) by (nonlinear_arith)
        requires
            b == d * c,
            0 < d,
    ;
}

/// The double nearest to `n / d`, in units of `10^-k`.
fn nearest_units(n: u128, d: u128, k: u32) -> (r: u128)
    requires
        (1 <= d <= 1000 && n <= u64::MAX) || d == 1_000_000_000_000,
        k <= 6,
    ensures
        r == double_units(n as nat, d as nat, k as nat),
{
    let p: u128 = power_of_ten(k);
    if n < SIGNIFICAND_END * d {
        let mut scaled: u128 = n;
        let mut unit: u128 = 1;
        while scaled != 0 && scaled < SIGNIFICAND_MIN * d
            invariant
                1 <= d <= 1_000_000_000_000,
                doubled(scaled as nat, d as nat, unit as nat) == doubled(n as nat, d as nat, 1),
                scaled < SIGNIFICAND_END * d,
                1 <= unit,
                scaled == 0 ==> unit == 1,
                scaled > 0 ==> unit <= scaled,
            decreases
                (if scaled < SIGNIFICAND_MIN * d {
                    SIGNIFICAND_MIN * d - scaled
                } else {
                    0
                }),
        {
            scaled = 2 * scaled;
            unit = 2 * unit;
        }
        assert(scaled / d <= SIGNIFICAND_END) by (nonlinear_arith)
            requires
                scaled < SIGNIFICAND_END * d,
                0 < d,
        ;
        let m: u128 = round_half_even(scaled, d);
        assert(m * p <= 9007199254740993 * 1_000_000) by (nonlinear_arith)
            requires
                m <= 9007199254740993,
                p <= 1_000_000,
        ;
        assert((m * p) / (unit as int) <= m * p) by (nonlinear_arith)
            requires
                1 <= unit,
                0 <= m * p,
        ;
        round_half_even(m * p, unit)
    } else {
        let mut divisor: u128 = d;
        let mut step: u128 = 1;
        assert(d <= n / SIGNIFICAND_MIN);
        while n / SIGNIFICAND_END >= divisor
            invariant
                1 <= d <= divisor,
                divisor == d * step,
                step <= divisor,
                coarsened(n as nat, divisor as nat, step as nat) == coarsened(
                    n as nat,
                    d as nat,
                    1,
                ),
                divisor <= n / SIGNIFICAND_MIN,
            decreases n - divisor,
        {
            assert(2 * divisor == d * (2 * step)) by (nonlinear_arith)
                requires
                    divisor == d * step,
            ;
            divisor = 2 * divisor;
            step = 2 * step;
        }
        assert(n / divisor < u128::MAX) by (nonlinear_arith)
            requires
                1 <= divisor,
                n <= u64::MAX || 2 <= divisor,
                n <= u128::MAX,
        ;
        let m: u128 = round_half_even(n, divisor);
        proof {
            lemma_quotient_step(n as nat, divisor as nat, step as nat, d as nat);
            assert(m * step <= (n / divisor) * step + step) by (nonlinear_arith)
                requires
                    m <= n / divisor + 1,
            ;
            assert(m * step <= 2 * (n / d));
            let x: int = m * step;
            assert(x * p <= 340282366920938463463374607431768211455) by (nonlinear_arith)
                requires
                    0 <= x <= 2 * (n / d),
                    1 <= p <= 1_000_000,
                    (1 <= d && n <= 18446744073709551615) || d == 1_000_000_000_000,
                    n <= 340282366920938463463374607431768211455,
            ;
            assert(x <= x * p) by (nonlinear_arith)
                requires
                    0 <= x,
                    1 <= p,
            ;
        }
        m * step * p
    }
}

/// The text of the double nearest to `n / d`, with `k` decimals: `n` is a
/// number of whole units, of thousandths, or of 10^-12ths.
fn fixed_text(n: u128, d: u128, k: u32) -> (r: String)
    requires
        (1 <= d <= 1000 && n <= u64::MAX) || d == 1_000_000_000_000,
        k <= 6,
    ensures
        r@ == fixed(n as nat, d as nat, k as nat),
{
    let units: u128 = nearest_units(n, d, k);
    let p: u128 = power_of_ten(k);
    let mut s = text::decimal(units / p);
    s.append(".");
    s.append(padded(units % p, k).as_str());
    s
}

/// A number of milliseconds as seconds, with `k` decimals.
pub fn seconds(ms: u64, k: u32) -> (r: String)
    requires
        k <= 6,
    ensures
        r@ == fixed(ms as nat, 1000, k as nat),
{
    fixed_text(ms as u128, 1000, k)
}

/// An amount of picodollars as dollars, with `k` decimals.
pub fn dollars(amount: u128, k: u32) -> (r: String)
    requires
        k <= 6,
    ensures
        r@ == fixed(amount as nat, 1_000_000_000_000, k as nat),
{
    fixed_text(amount, 1_000_000_000_000, k)
}

/// A count, with `k` decimals.
pub fn count(n: u64, k: u32) -> (r: String)
    requires
        k <= 6,
    ensures
        r@ == fixed(n as nat, 1, k as nat),
{
    fixed_text(n as u128, 1, k)
}

/// The double nearest to a count.
pub fn nearest_double(n: u64) -> (r: u128)
    ensures
        r == double_units(n as nat, 1, 0),
{
    nearest_units(n as u128, 1, 0)
}

/// An amount of picodollars as dollars, with all its decimals.
pub fn exact_dollars(amount: u128) -> (r: String)
    ensures
        r@ == with_decimals(amount as nat, 12),
{
    proof {
        reveal_with_fuel(pow10, 13);
    }
    let p: u128 = 1_000_000_000_000;
    let mut s = text::decimal(amount / p);
    s.append(".");
    s.append(padded(amount % p, 12).as_str());
    s
}

/// A number of milliseconds as seconds, with all its decimals.
pub fn exact_seconds(ms: u128) -> (r: String)
    ensures
        r@ == with_decimals(ms as nat, 3),
{
    proof {
        reveal_with_fuel(pow10, 4);
    }
    let mut s = text::decimal(ms / 1000);
    s.append(".");
    s.append(padded(ms % 1000, 3).as_str());
    s
}

/// The ratio of `n` to `d` as a double: the significand and the unit that it
/// is counted in.
pub open spec fn ratio_of(n: nat, d: nat) -> (nat, nat) {
    let (scaled, unit) = doubled(n, d, 1);
    (half_even(scaled, d), unit)
}

/// The double nearest to a whole number.
pub open spec fn rounded_whole(n: nat) -> nat {
    let (divisor, step) = coarsened(n, 1, 1);
    half_even(n, divisor) * step
}

/// `edge` times the ratio of `limit` to `longest`, computed in doubles and
/// rounded to the nearest whole number, halves up.
pub open spec fn scaled_edge(edge: nat, limit: nat, longest: nat) -> nat {
    let (ratio, unit) = ratio_of(limit, longest);
    (2 * rounded_whole(edge * ratio) + unit) / (2 * unit)
}

/// Rounding moves a quotient by at most one half.
proof fn lemma_half_even(n: nat, d: nat)
    requires
        0 < d,
    ensures
        2 * (half_even(n, d) * d) <= 2 * n + d,
        2 * n <= 2 * (half_even(n, d) * d) + d,
{
    let q = n / d;
    let rem = n % d;
    assert(n == q * d + rem && rem < d) by (nonlinear_arith)
        requires
            0 < d,
            q == n / d,
            rem == n % d,
    ;
    assert((q + 1) * d == q * d + d) by (nonlinear_arith);
}

/// Doubling ends at a significand, and keeps the quotient by the unit.
proof fn lemma_doubled(n: nat, d: nat, unit: nat)
    requires
        0 < n,
        0 < d,
        0 < unit,
        n < SIGNIFICAND_END * d,
    ensures
        ({
            let (a, b) = doubled(n, d, unit);
            &&& SIGNIFICAND_MIN * d <= a < SIGNIFICAND_END * d
            &&& a * unit == n * b
            &&& unit <= b
        }),
    decreases
            (if n < SIGNIFICAND_MIN * d {
                SIGNIFICAND_MIN * d - n
            } else {
                0
            }),
{
    if n < SIGNIFICAND_MIN * d {
        lemma_doubled(2 * n, d, 2 * unit);
        let (a, b) = doubled(2 * n, d, 2 * unit);
        assert(a * unit == n * b) by (nonlinear_arith)
            requires
                a * (2 * unit) == (2 * n) * b,
        ;
    }
}

/// Coarsening ends at a significand.
proof fn lemma_coarsened(n: nat, d: nat)
    requires
        0 < d,
        d == 1 || SIGNIFICAND_MIN * d <= n,
    ensures
        ({
            let (divisor, step) = coarsened(n, d, d);
            &&& step == divisor
            &&& 0 < divisor
            &&& n < SIGNIFICAND_END * divisor
            &&& divisor == 1 || SIGNIFICAND_MIN * divisor <= n
        }),
    decreases n - d,
{
    if n >= SIGNIFICAND_END * d {
        lemma_coarsened(n, 2 * d);
    }
}

/// Rounding moves a whole number by at most one part in 2^53.
pub proof fn lemma_rounded_whole(n: nat)
    ensures
        2 * SIGNIFICAND_MIN * rounded_whole(n) <= 2 * SIGNIFICAND_MIN * n + n,
        2 * SIGNIFICAND_MIN * n <= 2 * SIGNIFICAND_MIN * rounded_whole(n) + n,
{
    lemma_coarsened(n, 1);
    let (divisor, step) = coarsened(n, 1, 1);
    if divisor == 1 {
        assert(n % 1 == 0 && n / 1 == n);
        assert(half_even(n, 1) == n);
        assert(n * 1 == n);
    } else {
        lemma_half_even(n, divisor);
        assert(2 * SIGNIFICAND_MIN * rounded_whole(n) <= 2 * SIGNIFICAND_MIN * n + n) by (
            nonlinear_arith)
            requires
                2 * rounded_whole(n) <= 2 * n + divisor,
                SIGNIFICAND_MIN * divisor <= n,
        ;
        assert(2 * SIGNIFICAND_MIN * n <= 2 * SIGNIFICAND_MIN * rounded_whole(n) + n) by (
            nonlinear_arith)
            requires
                2 * n <= 2 * rounded_whole(n) + divisor,
                SIGNIFICAND_MIN * divisor <= n,
        ;
    }
}

/// Scaling down makes no edge longer.
pub proof fn lemma_edge_shrinks(edge: nat, limit: nat, longest: nat)
    requires
        0 < limit < longest,
        edge <= longest,
        longest <= u32::MAX,
    ensures
        scaled_edge(edge, limit, longest) <= edge,
{
    lemma_doubled(limit, longest, 1);
    let (scaled, unit) = doubled(limit, longest, 1);
    let ratio = half_even(scaled, longest);
    lemma_half_even(scaled, longest);
    assert(scaled == limit * unit);
    assert(SIGNIFICAND_MIN <= unit) by (nonlinear_arith)
        requires
            SIGNIFICAND_MIN * longest <= limit * unit,
            0 < limit < longest,
    ;
    assert(ratio <= unit) by (nonlinear_arith)
        requires
            2 * (ratio * longest) <= 2 * (limit * unit) + longest,
            limit < longest,
            longest <= 0xffff_ffff,
            SIGNIFICAND_MIN <= unit,
            SIGNIFICAND_MIN >= 0xffff_ffff,
    ;
    let product = edge * ratio;
    assert(product <= edge * unit) by (nonlinear_arith)
        requires
            product == edge * ratio,
            ratio <= unit,
    ;
    lemma_rounded_whole(product);
    let whole = rounded_whole(product);
    assert(2 * whole < 2 * edge * unit + unit) by (nonlinear_arith)
        requires
            2 * SIGNIFICAND_MIN * whole <= 2 * SIGNIFICAND_MIN * product + product,
            product <= edge * unit,
            edge <= 0xffff_ffff,
            0 < unit,
            SIGNIFICAND_MIN > 0xffff_ffff,
    ;
    assert((2 * whole + unit) / (2 * unit) <= edge) by (nonlinear_arith)
        requires
            2 * whole < 2 * edge * unit + unit,
            0 < unit,
    ;
}

/// An edge that is no longer than the longest one is scaled to no more than
/// the limit.
pub proof fn lemma_scaled_edge(edge: nat, limit: nat, longest: nat)
    requires
        0 < limit < longest,
        edge <= longest,
        longest <= u32::MAX,
    ensures
        scaled_edge(edge, limit, longest) <= limit,
{
    lemma_doubled(limit, longest, 1);
    let (scaled, unit) = doubled(limit, longest, 1);
    let ratio = half_even(scaled, longest);
    lemma_half_even(scaled, longest);
    assert(scaled == limit * unit);
    let product = edge * ratio;
    assert(product <= longest * ratio) by (nonlinear_arith)
        requires
            product == edge * ratio,
            edge <= longest,
    ;
    assert(ratio * longest == longest * ratio) by (nonlinear_arith);
    assert(2 * product <= 2 * limit * unit + longest) by (nonlinear_arith)
        requires
            product <= longest * ratio,
            2 * (longest * ratio) <= 2 * (limit * unit) + longest,
    ;
    // the unit is far larger than the edges
    assert(SIGNIFICAND_MIN * longest <= limit * unit);
    assert(SIGNIFICAND_MIN <= unit) by (nonlinear_arith)
        requires
            SIGNIFICAND_MIN * longest <= limit * unit,
            0 < limit < longest,
    ;
    lemma_rounded_whole(product);
    let whole = rounded_whole(product);
    assert(2 * whole < 2 * limit * unit + unit) by (nonlinear_arith)
        requires
            2 * SIGNIFICAND_MIN * whole <= 2 * SIGNIFICAND_MIN * product + product,
            2 * product <= 2 * limit * unit + longest,
            0 < limit < longest,
            longest <= 0xffff_ffff,
            SIGNIFICAND_MIN <= unit,
    ;
    assert((2 * whole + unit) / (2 * unit) <= limit) by (nonlinear_arith)
        requires
            2 * whole < 2 * limit * unit + unit,
            0 < unit,
    ;
}

/// The ratio of `n` to `d` as a double: the significand and the unit that it
/// is counted in.
pub fn nearest_ratio(n: u128, d: u128) -> (r: (u128, u128))
    requires
        0 < n < SIGNIFICAND_END * d,
        d <= 0x200_0000_0000_0000,
    ensures
        (r.0 as nat, r.1 as nat) == ratio_of(n as nat, d as nat),
        r.0 <= SIGNIFICAND_END,
        1 <= r.1 <= SIGNIFICAND_END * d,
{
    let mut scaled: u128 = n;
    let mut unit: u128 = 1;
    while scaled < SIGNIFICAND_MIN * d
        invariant
            0 < d <= 0x200_0000_0000_0000,
            doubled(scaled as nat, d as nat, unit as nat) == doubled(n as nat, d as nat, 1),
            scaled < SIGNIFICAND_END * d,
            1 <= unit <= scaled,
        decreases
            (if scaled < SIGNIFICAND_MIN * d {
                SIGNIFICAND_MIN * d - scaled
            } else {
                0
            }),
    {
        scaled = 2 * scaled;
        unit = 2 * unit;
    }
    assert(scaled / d < SIGNIFICAND_END) by (nonlinear_arith)
        requires
            scaled < SIGNIFICAND_END * d,
            0 < d,
    ;
    (round_half_even(scaled, d), unit)
}

/// The double nearest to a whole number.
pub fn round_whole(n: u128) -> (r: u128)
    requires
        n <= 0x100_0000_0000_0000_0000_0000_0000_0000,
    ensures
        r == rounded_whole(n as nat),
        r <= 2 * n,
        n <= 2 * r,
{
    let mut divisor: u128 = 1;
    proof {
        lemma_coarsened(n as nat, 1);
        lemma_rounded_whole(n as nat);
    }
    while n >= SIGNIFICAND_END * divisor
        invariant
            1 <= divisor,
            divisor == 1 || SIGNIFICAND_MIN * divisor <= n,
            n <= 0x100_0000_0000_0000_0000_0000_0000_0000,
            coarsened(n as nat, divisor as nat, divisor as nat) == coarsened(n as nat, 1, 1),
        decreases n - divisor,
    {
        divisor = 2 * divisor;
    }
    let significand: u128 = round_half_even(n, divisor);
    assert(significand * divisor <= 2 * n + 2) by {
        lemma_half_even(n as nat, divisor as nat);
        assert(2 * (significand * divisor) <= 2 * n + divisor);
    }
    let whole: u128 = significand * divisor;
    assert(whole <= 2 * n && n <= 2 * whole) by (nonlinear_arith)
        requires
            2 * SIGNIFICAND_MIN * whole <= 2 * SIGNIFICAND_MIN * n + n,
            2 * SIGNIFICAND_MIN * n <= 2 * SIGNIFICAND_MIN * whole + n,
    ;
    whole
}

/// `edge` times the ratio of `limit` to `longest`, as a whole number.
pub fn scale_edge(edge: u32, limit: u32, longest: u32) -> (r: u32)
    requires
        0 < limit < longest,
        edge <= longest,
    ensures
        r == scaled_edge(edge as nat, limit as nat, longest as nat),
        r <= limit,
{
    proof {
        lemma_scaled_edge(edge as nat, limit as nat, longest as nat);
    }
    let (ratio, unit): (u128, u128) = nearest_ratio(limit as u128, longest as u128);
    assert(edge * ratio <= 0xffff_ffff * 9007199254740992) by (nonlinear_arith)
        requires
            edge <= 0xffff_ffff,
            ratio <= 9007199254740992,
    ;
    let whole: u128 = round_whole((edge as u128) * ratio);
    let r: u128 = (2 * whole + unit) / (2 * unit);
    r as u32
}

/// The whole part of a ratio in doubles is that of the exact ratio, but for
/// one part in 2^53.
pub proof fn lemma_ratio_floor(n: nat, d: nat)
    requires
        0 < d,
        0 < n < SIGNIFICAND_END * d,
    ensures
        ({
            let (significand, unit) = ratio_of(n, d);
            let k = significand / unit;
            &&& 0 < unit
            &&& 9007199254740992 * (k * d) <= 9007199254740993 * n
            &&& 9007199254740991 * n < 9007199254740992 * ((k + 1) * d)
        }),
{
    lemma_doubled(n, d, 1);
    let (scaled, unit) = doubled(n, d, 1);
    let m = half_even(scaled, d);
    lemma_half_even(scaled, d);
    let k = m / unit;
    assert(k * unit <= m && m + 1 <= (k + 1) * unit) by (nonlinear_arith)
        requires
            k == m / unit,
            0 < unit,
    ;
    // m * d lies within d / 2 of n * unit, and d is at most n * unit / 2^52
    assert(2 * (m * d) <= 2 * (n * unit) + d);
    assert(2 * (n * unit) <= 2 * (m * d) + d);
    assert(4503599627370496 * d <= n * unit);
    assert(9007199254740992 * (k * d) <= 9007199254740993 * n) by (nonlinear_arith)
        requires
            k * unit <= m,
            2 * (m * d) <= 2 * (n * unit) + d,
            4503599627370496 * d <= n * unit,
            0 < unit,
            0 < d,
    {
        assert((k * unit) * d <= m * d);
        assert(9007199254740992 * ((k * d) * unit) <= 9007199254740993 * (n * unit));
    }
    assert(9007199254740991 * n < 9007199254740992 * ((k + 1) * d)) by (nonlinear_arith)
        requires
            m + 1 <= (k + 1) * unit,
            2 * (n * unit) <= 2 * (m * d) + d,
            4503599627370496 * d <= n * unit,
            0 < unit,
            0 < d,
    {
        assert((m + 1) * d <= ((k + 1) * unit) * d);
        assert(9007199254740991 * (n * unit) < 9007199254740992 * (((k + 1) * d) * unit));
    }
}

/// A whole number below 2^53 is a double itself.
pub proof fn lemma_small_whole(n: nat)
    requires
        n < SIGNIFICAND_END,
    ensures
        rounded_whole(n) == n,
{
    assert(n % 1 == 0 && n / 1 == n);
    assert(n * 1 == n);
}

/// A whole number below 2^53 is compared as it is.
pub proof fn law_small_counts_are_exact(n: nat)
    requires
        n < 9007199254740992,
    ensures
        double_units(n, 1, 0) == n,
{
    assert(pow10(0) == 1);
    if n == 0 {
        assert(half_even(0, 1) == 0);
    } else {
        lemma_doubled(n, 1, 1);
        let (a, b) = doubled(n, 1, 1);
        assert(a % 1 == 0 && a / 1 == a);
        assert(half_even(a, 1) == a);
        lemma_exact_quotient(n, b);
    }
}

/// A multiple is divided without remainder.
proof fn lemma_exact_quotient(n: nat, b: nat)
    requires
        0 < b,
    ensures
        half_even(n * b, b) == n,
{
    assert((n * b) % b == 0 && (n * b) / b == n) by (nonlinear_arith)
        requires
            0 < b,
    ;
}

/// An amount that is printed is off by no more than half of its last place,
/// and one part in 2^53 of itself.
pub proof fn law_printed_amounts_are_close(n: nat, d: nat, k: nat)
    requires
        0 < d,
        0 < n < 9007199254740992 * d,
    ensures
        4503599627370496 * (2 * (double_units(n, d, k) * d)) <= 4503599627370496 * (2 * (n * pow10(
            k,
        )) + d) + n * pow10(k),
        4503599627370496 * (2 * (n * pow10(k))) <= 4503599627370496 * (2 * (double_units(n, d, k)
            * d) + d) + n * pow10(k),
{
    let (scaled, unit) = doubled(n, d, 1);
    let p = pow10(k);
    lemma_doubled(n, d, 1);
    let sig = half_even(scaled, d);
    lemma_half_even(scaled, d);
    lemma_half_even(sig * p, unit);
    let units = half_even(sig * p, unit);
    lemma_pow10_positive(k);
    assert(4503599627370496 * (2 * (units * d)) <= 4503599627370496 * (2 * (n * p) + d) + n * p)
        by {
        lemma_close_above(n, d, p, scaled, unit, sig, units);
    }
    assert(4503599627370496 * (2 * (n * p)) <= 4503599627370496 * (2 * (units * d) + d) + n * p)
        by {
        lemma_close_below(n, d, p, scaled, unit, sig, units);
    }
}

/// A power of ten is not zero.
proof fn lemma_pow10_positive(k: nat)
    ensures
        pow10(k) > 0,
    decreases k,
{
    if k > 0 {
        lemma_pow10_positive((k - 1) as nat);
    }
}

/// What a factor that is not zero multiplies keeps its order.
proof fn lemma_cancel(a: int, b: int, c: int)
    by (nonlinear_arith)
    requires
        0 < c,
        a * c <= b * c,
    ensures
        a <= b,
{
}

/// The printed amount is not too large.
proof fn lemma_close_above(
    n: nat,
    d: nat,
    p: nat,
    scaled: nat,
    unit: nat,
    sig: nat,
    units: nat,
)
    requires
        0 < d,
        0 < unit,
        scaled == n * unit,
        4503599627370496 * d <= scaled,
        2 * (sig * d) <= 2 * scaled + d,
        2 * (units * unit) <= 2 * (sig * p) + unit,
    ensures
        4503599627370496 * (2 * (units * d)) <= 4503599627370496 * (2 * (n * p) + d) + n * p,
{
    let c = 4503599627370496int;
    assert(2 * (units * unit * d) <= 2 * (sig * p * d) + unit * d) by (nonlinear_arith)
        requires
            2 * (units * unit) <= 2 * (sig * p) + unit,
            0 < d,
    ;
    assert(2 * (sig * p * d) <= 2 * (scaled * p) + d * p) by (nonlinear_arith)
        requires
            2 * (sig * d) <= 2 * scaled + d,
            0 <= p,
    ;
    assert(c * (d * p) <= scaled * p) by (nonlinear_arith)
        requires
            c * d <= scaled,
            0 <= p,
    ;
    assert(scaled * p == n * p * unit) by (nonlinear_arith)
        requires
            scaled == n * unit,
    ;
    assert(units * unit * d == units * d * unit) by (nonlinear_arith);
    let left = c * (2 * (units * d));
    let right = c * (2 * (n * p) + d) + n * p;
    assert(left * unit == c * (2 * (units * d * unit))) by (nonlinear_arith)
        requires
            left == c * (2 * (units * d)),
    ;
    assert(right * unit == c * (2 * (n * p * unit) + unit * d) + n * p * unit) by (nonlinear_arith)
        requires
            right == c * (2 * (n * p) + d) + n * p,
    ;
    assert(left * unit <= right * unit);
    lemma_cancel(left, right, unit as int);
}

/// The printed amount is not too small.
proof fn lemma_close_below(
    n: nat,
    d: nat,
    p: nat,
    scaled: nat,
    unit: nat,
    sig: nat,
    units: nat,
)
    requires
        0 < d,
        0 < unit,
        scaled == n * unit,
        4503599627370496 * d <= scaled,
        2 * scaled <= 2 * (sig * d) + d,
        2 * (sig * p) <= 2 * (units * unit) + unit,
    ensures
        4503599627370496 * (2 * (n * p)) <= 4503599627370496 * (2 * (units * d) + d) + n * p,
{
    let c = 4503599627370496int;
    assert(2 * (sig * p * d) <= 2 * (units * unit * d) + unit * d) by (nonlinear_arith)
        requires
            2 * (sig * p) <= 2 * (units * unit) + unit,
            0 < d,
    ;
    assert(2 * (scaled * p) <= 2 * (sig * p * d) + d * p) by (nonlinear_arith)
        requires
            2 * scaled <= 2 * (sig * d) + d,
            0 <= p,
    ;
    assert(c * (d * p) <= scaled * p) by (nonlinear_arith)
        requires
            c * d <= scaled,
            0 <= p,
    ;
    assert(scaled * p == n * p * unit) by (nonlinear_arith)
        requires
            scaled == n * unit,
    ;
    assert(units * unit * d == units * d * unit) by (nonlinear_arith);
    let left = c * (2 * (n * p));
    let right = c * (2 * (units * d) + d) + n * p;
    assert(left * unit == c * (2 * (n * p * unit))) by (nonlinear_arith)
        requires
            left == c * (2 * (n * p)),
    ;
    assert(right * unit == c * (2 * (units * d * unit) + unit * d) + n * p * unit) by (
        nonlinear_arith)
        requires
            right == c * (2 * (units * d) + d) + n * p,
    ;
    assert(left * unit <= right * unit);
    lemma_cancel(left, right, unit as int);
}

/// A padded number behind another is its low places.
proof fn lemma_pad_value(a: Seq<char>, m: nat, k: nat)
    requires
        m < pow10(k),
    ensures
        text::digits_value(a + pad(m, k)) == text::digits_value(a) * pow10(k) + m,
        pad(m, k).len() == k,
    decreases k,
{
    if k == 0 {
        assert(a + pad(m, k) =~= a);
        assert(text::digits_value(a) * 1 == text::digits_value(a));
    } else {
        let j = (k - 1) as nat;
        assert(pow10(k) == 10 * pow10(j));
        assert(m / 10 < pow10(j));
        lemma_pad_value(a, m / 10, j);
        let all = a + pad(m, k);
        assert(all.drop_last() =~= a + pad(m / 10, j));
        assert(all.last() == text::digit(m % 10));
        let v = text::digits_value(a);
        let q = pow10(j);
        assert(10 * (v * q + m / 10) + m % 10 == v * (10 * q) + m) by {
            assert(10 * (v * q) == v * (10 * q)) by (nonlinear_arith);
        }
    }
}

/// A number with decimals is its digits with a point before the last ones.
pub proof fn law_decimals_are_the_last_digits(units: nat, k: nat)
    ensures
        ({
            let s = with_decimals(units, k);
            let at = s.len() - k - 1;
            &&& 0 < at < s.len()
            &&& s[at] == '.'
            &&& text::digits_value(s.take(at) + s.skip(at + 1)) == units
        }),
{
    reveal_strlit(".");
    lemma_pow10_positive(k);
    let p = pow10(k);
    let whole = text::dec(units / p);
    let low = pad(units % p, k);
    assert(units % p < p);
    lemma_pad_value(whole, units % p, k);
    text::lemma_dec_value(units / p);
    let s = with_decimals(units, k);
    let at = s.len() - k - 1;
    assert(s.take(at) =~= whole);
    assert(s.skip(at + 1) =~= low);
    assert(units / p * p + units % p == units) by (nonlinear_arith)
        requires
            p > 0,
    ;
}

/// A scaled edge keeps the ratio, to half a pixel and a millionth.
pub proof fn law_scaled_edges_keep_the_ratio(edge: nat, limit: nat, longest: nat)
    requires
        0 < limit < longest,
        edge <= longest,
        longest <= 4294967295,
    ensures
        1048576 * (2 * (scaled_edge(edge, limit, longest) * longest)) <= 1048576 * (2 * (limit
            * edge) + longest) + 3 * longest,
        1048576 * (2 * (limit * edge)) <= 1048576 * (2 * (scaled_edge(edge, limit, longest)
            * longest) + longest) + 3 * longest,
{
    lemma_doubled(limit, longest, 1);
    let (scaled, unit) = doubled(limit, longest, 1);
    let ratio = half_even(scaled, longest);
    lemma_half_even(scaled, longest);
    assert(scaled == limit * unit);
    let product = edge * ratio;
    lemma_rounded_whole(product);
    let rw = rounded_whole(product);
    let s = (2 * rw + unit) / (2 * unit);
    assert(4503599627370496 * longest <= limit * unit);
    assert(4503599627370496 <= unit) by (nonlinear_arith)
        requires
            4503599627370496 * longest <= limit * unit,
            0 < limit < longest,
    ;
    lemma_ratio_kept(edge, limit, longest, unit, ratio, product, rw, s);
}

/// The arithmetic of a scaled edge.
proof fn lemma_ratio_kept(
    edge: nat,
    limit: nat,
    longest: nat,
    unit: nat,
    ratio: nat,
    product: nat,
    rw: nat,
    s: nat,
)
    requires
        0 < limit < longest <= 4294967295,
        edge <= longest,
        4503599627370496 <= unit,
        2 * (ratio * longest) <= 2 * (limit * unit) + longest,
        2 * (limit * unit) <= 2 * (ratio * longest) + longest,
        product == edge * ratio,
        9007199254740992 * rw <= 9007199254740992 * product + product,
        9007199254740992 * product <= 9007199254740992 * rw + product,
        s == (2 * rw + unit) / (2 * unit),
    ensures
        1048576 * (2 * (s * longest)) <= 1048576 * (2 * (limit * edge) + longest) + 3 * longest,
        1048576 * (2 * (limit * edge)) <= 1048576 * (2 * (s * longest) + longest) + 3 * longest,
{
    let a = product * longest;
    let b = limit * edge * unit;
    let e = longest * edge;
    let u = unit * longest;
    let r = rw * longest;
    let t = s * longest * unit;
    assert(2 * a <= 2 * b + e && 2 * b <= 2 * a + e) by (nonlinear_arith)
        requires
            a == product * longest,
            product == edge * ratio,
            b == limit * edge * unit,
            e == longest * edge,
            2 * (ratio * longest) <= 2 * (limit * unit) + longest,
            2 * (limit * unit) <= 2 * (ratio * longest) + longest,
    ;
    assert(9007199254740992 * r <= 9007199254740992 * a + a) by (nonlinear_arith)
        requires
            r == rw * longest,
            a == product * longest,
            9007199254740992 * rw <= 9007199254740992 * product + product,
    ;
    assert(9007199254740992 * a <= 9007199254740992 * r + a) by (nonlinear_arith)
        requires
            r == rw * longest,
            a == product * longest,
            9007199254740992 * product <= 9007199254740992 * rw + product,
    ;
    assert(2 * (s * unit) <= 2 * rw + unit && 2 * rw + unit <= 2 * (s * unit) + 2 * unit) by (
        nonlinear_arith)
        requires
            s == (2 * rw + unit) / (2 * unit),
            0 < unit,
    ;
    assert(2 * t <= 2 * r + u && 2 * r + u <= 2 * t + 2 * u) by (nonlinear_arith)
        requires
            t == s * longest * unit,
            r == rw * longest,
            u == unit * longest,
            2 * (s * unit) <= 2 * rw + unit,
            2 * rw + unit <= 2 * (s * unit) + 2 * unit,
    ;
    assert(1048576 * e <= u) by (nonlinear_arith)
        requires
            e == longest * edge,
            u == unit * longest,
            edge <= 4294967295,
            4503599627370496 <= unit,
    ;
    assert(1048576 * (limit * edge) <= 4503599627370496 * longest) by (nonlinear_arith)
        requires
            limit <= 4294967295,
            edge <= longest,
    ;
    assert(1048576 * b <= 4503599627370496 * u) by (nonlinear_arith)
        requires
            b == limit * edge * unit,
            u == unit * longest,
            1048576 * (limit * edge) <= 4503599627370496 * longest,
    ;
    assert(1048576 * (2 * t) <= 1048576 * (2 * b + u) + 3 * u);
    assert(1048576 * (2 * b) <= 1048576 * (2 * t + u) + 3 * u);
    let left = 1048576 * (2 * (s * longest));
    let right = 1048576 * (2 * (limit * edge) + longest) + 3 * longest;
    assert(left * unit == 1048576 * (2 * t)) by (nonlinear_arith)
        requires
            left == 1048576 * (2 * (s * longest)),
            t == s * longest * unit,
    ;
    assert(right * unit == 1048576 * (2 * b + u) + 3 * u) by (nonlinear_arith)
        requires
            right == 1048576 * (2 * (limit * edge) + longest) + 3 * longest,
            b == limit * edge * unit,
            u == unit * longest,
    ;
    lemma_cancel(left as int, right as int, unit as int);
    let low = 1048576 * (2 * (limit * edge));
    let high = 1048576 * (2 * (s * longest) + longest) + 3 * longest;
    assert(low * unit == 1048576 * (2 * b)) by (nonlinear_arith)
        requires
            low == 1048576 * (2 * (limit * edge)),
            b == limit * edge * unit,
    ;
    assert(high * unit == 1048576 * (2 * t + u) + 3 * u) by (nonlinear_arith)
        requires
            high == 1048576 * (2 * (s * longest) + longest) + 3 * longest,
            t == s * longest * unit,
            u == unit * longest,
    ;
    lemma_cancel(low as int, high as int, unit as int);
}

} // verus!
