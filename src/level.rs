//! Quantization of harmonic amplitudes into device levels.

use vstd::prelude::*;

verus! {

/// Number of harmonic partials in a level table.
pub const HARMONIC_COUNT: usize = 64;

/// Highest level a harmonic can be set to.
pub const MAX_LEVEL: u8 = 127;

/// A nonzero amplitude `±num / den`.
///
/// A well-formed amplitude has a magnitude in `(0, 1]`.
#[derive(Clone, Copy, Debug, PartialEq, Eq)]
pub struct Amplitude {
    pub negative: bool,
    pub num: u16,
    pub den: u16,
}

impl Amplitude {
    pub open spec fn wf(self) -> bool {
        0 < self.num <= self.den
    }

    /// The amplitude `1 / den`.
    pub open spec fn reciprocal(negative: bool, den: nat) -> Amplitude {
        Amplitude { negative, num: 1, den: den as u16 }
    }
}

pub open spec fn sq(x: int) -> int {
    x * x
}

pub open spec fn pow8(x: int) -> int {
    sq(sq(sq(x)))
}

pub open spec fn pow2(j: nat) -> nat
    decreases j,
{
    if j == 0 {
        1
    } else {
        2 * pow2((j - 1) as nat)
    }
}

/// The least `j` with `c <= 2^j`, that is `ceil(log2(c))` for `c >= 1`.
pub open spec fn ceil_log2(c: nat) -> nat
    decreases c,
{
    if c <= 1 {
        0
    } else {
        1 + ceil_log2(((c + 1) / 2) as nat)
    }
}

/// `ceil(a / b)` for `b > 0`.
pub open spec fn ceil_div(a: nat, b: nat) -> nat {
    if a == 0 || b == 0 {
        0
    } else {
        ((a - 1) / (b as int) + 1) as nat
    }
}

/// How many level steps an amplitude lies below full scale:
/// `ceil(8 * log2(den / num))`, the least `j` with `den^8 <= 2^j * num^8`.
pub open spec fn attenuation(a: Amplitude) -> nat {
    ceil_log2(ceil_div(pow8(a.den as int) as nat, pow8(a.num as int) as nat))
}

/// The device level of an amplitude: `floor(8 * log2(|a|) + 127)`.
pub open spec fn level_spec(a: Amplitude) -> int {
    MAX_LEVEL - attenuation(a)
}

proof fn lemma_pow2_add(a: nat, b: nat)
    ensures
        pow2(a + b) == pow2(a) * pow2(b),
    decreases a,
{
    if a > 0 {
        let a1 = (a - 1) as nat;
        lemma_pow2_add(a1, b);
        assert(pow2(a + b) == 2 * pow2(a1 + b));
        assert(pow2(a) == 2 * pow2(a1));
        assert(2 * (pow2(a1) * pow2(b)) == (2 * pow2(a1)) * pow2(b)) by (nonlinear_arith);
    } else {
        assert(pow2(a) == 1);
        assert(a + b == b);
    }
}

proof fn lemma_pow2_values()
    ensures
        pow2(96) == 0x1_0000_0000_0000_0000_0000_0000,
        pow2(128) == 0x1_0000_0000_0000_0000_0000_0000_0000_0000,
{
    reveal_with_fuel(pow2, 9);
    assert(pow2(8) == 256);
    lemma_pow2_add(8, 8);
    assert(pow2(16) == 0x1_0000);
    lemma_pow2_add(16, 16);
    assert(pow2(32) == 0x1_0000_0000);
    lemma_pow2_add(32, 32);
    assert(pow2(64) == 0x1_0000_0000_0000_0000);
    lemma_pow2_add(64, 32);
    lemma_pow2_add(64, 64);
}

/// `ceil_log2(c)` is the least exponent whose power of two reaches `c`.
proof fn lemma_ceil_log2(c: nat)
    ensures
        c <= pow2(ceil_log2(c)),
        forall|j: nat| c <= #[trigger] pow2(j) ==> ceil_log2(c) <= j,
    decreases c,
{
    if c > 1 {
        let h = ((c + 1) / 2) as nat;
        lemma_ceil_log2(h);
        assert(pow2(ceil_log2(c)) == 2 * pow2(ceil_log2(h)));
        assert forall|j: nat| c <= #[trigger] pow2(j) implies ceil_log2(c) <= j by {
            if j > 0 {
                assert(pow2(j) == 2 * pow2((j - 1) as nat));
                assert(h <= pow2((j - 1) as nat));
            }
        }
    }
}

/// `ceil_div(a, b)` is the least `k` with `a <= k * b`.
proof fn lemma_ceil_div(a: nat, b: nat, k: nat)
    requires
        b > 0,
    ensures
        a <= k * b <==> ceil_div(a, b) <= k,
{
    if a > 0 {
        let q = (a - 1) / (b as int);
        let r = (a - 1) % (b as int);
        vstd::arithmetic::div_mod::lemma_fundamental_div_mod(a - 1, b as int);
        if q + 1 <= k {
            assert(a <= k * b) by (nonlinear_arith)
                requires
                    a - 1 == b * q + r,
                    r < b,
                    q + 1 <= k,
                    b > 0,
            ;
        } else {
            assert(k * b < a) by (nonlinear_arith)
                requires
                    a - 1 == b * q + r,
                    0 <= r,
                    k <= q,
                    b > 0,
            ;
        }
    }
}

proof fn lemma_sq_mono(x: int, y: int)
    requires
        0 <= x <= y,
    ensures
        0 <= sq(x) <= sq(y),
{
    assert(0 <= x * x <= y * y) by (nonlinear_arith)
        requires
            0 <= x <= y,
    ;
}

proof fn lemma_sq_mul(x: int, y: int)
    ensures
        sq(x * y) == sq(x) * sq(y),
{
    assert((x * y) * (x * y) == (x * x) * (y * y)) by (nonlinear_arith);
}

proof fn lemma_pow8_mono(x: int, y: int)
    requires
        0 <= x <= y,
    ensures
        0 <= pow8(x) <= pow8(y),
{
    lemma_sq_mono(x, y);
    lemma_sq_mono(sq(x), sq(y));
    lemma_sq_mono(sq(sq(x)), sq(sq(y)));
}

proof fn lemma_pow8_mul(x: int, y: int)
    ensures
        pow8(x * y) == pow8(x) * pow8(y),
{
    lemma_sq_mul(x, y);
    lemma_sq_mul(sq(x), sq(y));
    lemma_sq_mul(sq(sq(x)), sq(sq(y)));
}

proof fn lemma_pow8_pos(x: int)
    requires
        x > 0,
    ensures
        pow8(x) > 0,
{
    assert(sq(x) > 0) by (nonlinear_arith)
        requires
            x > 0,
    ;
    assert(sq(sq(x)) > 0) by (nonlinear_arith)
        requires
            sq(x) > 0,
    ;
    assert(pow8(x) > 0) by (nonlinear_arith)
        requires
            sq(sq(x)) > 0,
    ;
}

/// The level of an amplitude `±1/d` with `d <= 4096` (so every `1/n` and
/// `1/n²` of a table) is no lower than `127 - 96`.
pub proof fn lemma_reciprocal_level_range(negative: bool, d: nat)
    requires
        1 <= d <= 4096,
    ensures
        31 <= level_spec(Amplitude::reciprocal(negative, d)) <= MAX_LEVEL,
{
    let a = Amplitude::reciprocal(negative, d);
    lemma_pow8_mono(d as int, 4096);
    assert(sq(4096) == 0x100_0000);
    assert(sq(0x100_0000) == 0x1_0000_0000_0000);
    assert(0x1_0000_0000_0000 * 0x1_0000_0000_0000 == 0x1_0000_0000_0000_0000_0000_0000int)
        by (nonlinear_arith);
    assert(pow8(1) == 1);
    lemma_pow8_pos(d as int);
    let q8 = pow8(d as int) as nat;
    lemma_ceil_div(q8, 1, q8);
    lemma_ceil_div(q8, 1, (ceil_div(q8, 1)));
    assert(ceil_div(q8, 1) == q8);
    lemma_pow2_values();
    lemma_ceil_log2(q8);
    assert(q8 <= pow2(96));
}

/// Levels never decrease as the magnitude of the amplitude grows.
pub proof fn lemma_level_monotone(a: Amplitude, b: Amplitude)
    requires
        a.wf(),
        b.wf(),
        a.negative == b.negative,
        a.num * b.den <= b.num * a.den,
    ensures
        level_spec(a) <= level_spec(b),
{
    let pa = pow8(a.num as int);
    let qa = pow8(a.den as int);
    let pb = pow8(b.num as int);
    let qb = pow8(b.den as int);
    lemma_pow8_pos(a.num as int);
    lemma_pow8_pos(a.den as int);
    lemma_pow8_pos(b.num as int);
    lemma_pow8_pos(b.den as int);
    lemma_pow8_mono(a.num * b.den, b.num * a.den);
    lemma_pow8_mul(a.num as int, b.den as int);
    lemma_pow8_mul(b.num as int, a.den as int);
    let ca = ceil_div(qa as nat, pa as nat);
    let cb = ceil_div(qb as nat, pb as nat);
    lemma_ceil_div(qa as nat, pa as nat, ca);
    assert(qb <= ca * pb) by (nonlinear_arith)
        requires
            pa * qb <= pb * qa,
            qa <= ca * pa,
            pa > 0,
            pb > 0,
    ;
    lemma_ceil_div(qb as nat, pb as nat, ca);
    lemma_ceil_log2(ca);
    lemma_ceil_log2(cb);
    assert(cb <= pow2(ceil_log2(ca)));
}

/// The device level of an amplitude, `floor(8 * log2(|a|) + 127)`.
///
/// The result is not clamped: amplitudes below `2^-16` give a negative level.
pub fn level_of(a: &Amplitude) -> (r: i32)
    requires
        a.wf(),
    ensures
        r == level_spec(*a),
{
    let p = a.num as u128;
    let q = a.den as u128;
    proof {
        lemma_pow8_pos(p as int);
        lemma_pow8_pos(q as int);
        assert(sq(p as int) < 0x1_0000_0000) by (nonlinear_arith)
            requires
                0 <= p < 0x1_0000,
        ;
        assert(sq(q as int) < 0x1_0000_0000) by (nonlinear_arith)
            requires
                0 <= q < 0x1_0000,
        ;
        lemma_sq_mono(sq(p as int), 0xffff_ffff);
        lemma_sq_mono(sq(q as int), 0xffff_ffff);
        lemma_sq_mono(sq(sq(p as int)), 0xffff_ffff_ffff_ffff);
        lemma_sq_mono(sq(sq(q as int)), 0xffff_ffff_ffff_ffff);
    }
    let p2 = p * p;
    let q2 = q * q;
    let p4 = p2 * p2;
    let q4 = q2 * q2;
    let p8 = p4 * p4;
    let q8 = q4 * q4;
    let c: u128 = (q8 - 1) / p8 + 1;
    proof {
        assert((q8 - 1) / (p8 as int) <= q8 - 1) by (nonlinear_arith)
            requires
                p8 >= 1,
                q8 >= 1,
        ;
        lemma_pow2_values();
        lemma_ceil_log2(c as nat);
    }
    let mut v: u128 = c;
    let mut j: u32 = 0;
    while v > 1
        invariant
            1 <= v,
            j + ceil_log2(v as nat) == ceil_log2(c as nat),
            ceil_log2(c as nat) <= 128,
        decreases v,
    {
        assert(v / 2 + v % 2 == (v + 1) / 2);
        v = v / 2 + v % 2;
        j = j + 1;
    }
    127 - j as i32
}

} // verus!
