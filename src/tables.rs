//! The waveform models and the 64-entry level tables they produce.

use rand::Rng;
use vstd::prelude::*;

use crate::level::{level_of, level_spec, lemma_reciprocal_level_range, Amplitude, HARMONIC_COUNT, MAX_LEVEL};

verus! {

/// A waveform model whose table needs no parameters.
#[derive(Clone, Copy, Debug, PartialEq, Eq)]
pub enum Waveform {
    Sine,
    Saw,
    Square,
    Triangle,
    Random,
}

/// Sine: only the fundamental sounds, at full level.
pub open spec fn sine_level(n: nat) -> int {
    if n == 1 {
        MAX_LEVEL as int
    } else {
        0
    }
}

/// Sawtooth: harmonic `n` has amplitude `1/n`.
pub open spec fn saw_level(n: nat) -> int {
    level_spec(Amplitude::reciprocal(false, n))
}

/// Square: the odd harmonics of the sawtooth; the even ones are silent.
pub open spec fn square_level(n: nat) -> int {
    if n % 2 == 1 {
        level_spec(Amplitude::reciprocal(false, n))
    } else {
        0
    }
}

/// The sign of odd harmonic `n` of the triangle: `+` for 1, 5, 9, ..., `-` for 3, 7, 11, ...
pub open spec fn triangle_negative(n: nat) -> bool {
    (n / 2) % 2 == 1
}

/// Triangle: odd harmonic `n` has amplitude `±1/n²` with alternating sign; the even
/// ones are silent.
pub open spec fn triangle_level(n: nat) -> int {
    if n % 2 == 1 {
        level_spec(Amplitude::reciprocal(triangle_negative(n), n * n))
    } else {
        0
    }
}

/// The level of harmonic `n` under a deterministic model (none for `Random`).
pub open spec fn model_level(w: Waveform, n: nat) -> int {
    match w {
        Waveform::Sine => sine_level(n),
        Waveform::Saw => saw_level(n),
        Waveform::Square => square_level(n),
        Waveform::Triangle => triangle_level(n),
        Waveform::Random => 0,
    }
}

/// A table of 64 levels, each in `[0, 127]`.
pub open spec fn is_level_table(t: Seq<u8>) -> bool {
    &&& t.len() == HARMONIC_COUNT
    &&& forall|i: int| 0 <= i < t.len() ==> t[i] <= MAX_LEVEL
}

/// Entry `i` of `t` is the level of harmonic `i + 1` under `f`.
pub open spec fn follows(t: Seq<u8>, f: spec_fn(nat) -> int) -> bool {
    forall|i: int| 0 <= i < t.len() ==> t[i] as int == f((i + 1) as nat)
}

/// Relies on rand's `thread_rng().gen_range(0..bound)`: a value drawn uniformly
/// from `[0, bound)`.
#[verifier::external_body]
fn draw_below(bound: u8) -> (r: u8)
    requires
        bound > 0,
    ensures
        r < bound,
{
    rand::thread_rng().gen_range(0..bound)
}

/// The sine table: the fundamental at full level, every other harmonic at 0.
pub fn get_sine_levels() -> (r: Vec<u8>)
    ensures
        is_level_table(r@),
        follows(r@, |n: nat| sine_level(n)),
{
    let mut levels: Vec<u8> = Vec::new();
    levels.push(MAX_LEVEL);
    while levels.len() < HARMONIC_COUNT
        invariant
            1 <= levels.len() <= HARMONIC_COUNT,
            levels@[0] == MAX_LEVEL,
            forall|i: int| 1 <= i < levels.len() ==> levels@[i] == 0,
        decreases HARMONIC_COUNT - levels.len(),
    {
        levels.push(0);
    }
    levels
}

/// The sawtooth table: harmonic `n` at the level of amplitude `1/n`.
pub fn get_saw_levels() -> (r: Vec<u8>)
    ensures
        is_level_table(r@),
        follows(r@, |n: nat| saw_level(n)),
{
    let mut levels: Vec<u8> = Vec::new();
    let mut i: usize = 0;
    while i < HARMONIC_COUNT
        invariant
            i <= HARMONIC_COUNT,
            levels.len() == i,
            forall|k: int| 0 <= k < i ==> levels@[k] <= MAX_LEVEL,
            forall|k: int| 0 <= k < i ==> levels@[k] as int == saw_level((k + 1) as nat),
        decreases HARMONIC_COUNT - i,
    {
        let n = (i + 1) as u16;
        let a = Amplitude { negative: false, num: 1, den: n };
        proof {
            lemma_reciprocal_level_range(false, n as nat);
        }
        let level = level_of(&a);
        levels.push(level as u8);
        i = i + 1;
    }
    levels
}

/// The square table: the sawtooth's odd harmonics, the even ones at 0.
pub fn get_square_levels() -> (r: Vec<u8>)
    ensures
        is_level_table(r@),
        follows(r@, |n: nat| square_level(n)),
{
    let saw_levels = get_saw_levels();
    let mut levels: Vec<u8> = Vec::new();
    let mut i: usize = 0;
    while i < HARMONIC_COUNT
        invariant
            i <= HARMONIC_COUNT,
            levels.len() == i,
            is_level_table(saw_levels@),
            follows(saw_levels@, |n: nat| saw_level(n)),
            forall|k: int| 0 <= k < i ==> levels@[k] <= MAX_LEVEL,
            forall|k: int| 0 <= k < i ==> levels@[k] as int == square_level((k + 1) as nat),
        decreases HARMONIC_COUNT - i,
    {
        let n = i + 1;
        let level = if n % 2 != 0 {
            saw_levels[i]
        } else {
            0
        };
        levels.push(level);
        i = i + 1;
    }
    levels
}

/// The triangle table: odd harmonic `n` at the level of amplitude `±1/n²`, the
/// sign alternating from one odd harmonic to the next; the even ones at 0.
///
/// The level depends on the magnitude alone, so the table is the same whichever
/// signs the odd harmonics carry.
pub fn get_triangle_levels() -> (r: Vec<u8>)
    ensures
        is_level_table(r@),
        follows(r@, |n: nat| triangle_level(n)),
{
    let mut levels: Vec<u8> = Vec::new();
    let mut is_negative = false;
    let mut i: usize = 0;
    while i < HARMONIC_COUNT
        invariant
            i <= HARMONIC_COUNT,
            levels.len() == i,
            is_negative == triangle_negative((i + 1) as nat),
            forall|k: int| 0 <= k < i ==> levels@[k] <= MAX_LEVEL,
            forall|k: int| 0 <= k < i ==> levels@[k] as int == triangle_level((k + 1) as nat),
        decreases HARMONIC_COUNT - i,
    {
        let n = i + 1;
        let mut level: u8 = 0;
        if n % 2 != 0 {
            assert(1 <= n * n <= 4096) by (nonlinear_arith)
                requires
                    1 <= n <= 64,
            ;
            let d = (n * n) as u16;
            let a = Amplitude { negative: is_negative, num: 1, den: d };
            proof {
                lemma_reciprocal_level_range(is_negative, d as nat);
            }
            level = level_of(&a) as u8;
            is_negative = !is_negative;
        }
        levels.push(level);
        i = i + 1;
    }
    levels
}

/// The random table: each level drawn independently and uniformly from `[0, 127]`.
pub fn get_random_levels() -> (r: Vec<u8>)
    ensures
        is_level_table(r@),
{
    let mut levels: Vec<u8> = Vec::new();
    while levels.len() < HARMONIC_COUNT
        invariant
            levels.len() <= HARMONIC_COUNT,
            forall|k: int| 0 <= k < levels.len() ==> levels@[k] <= MAX_LEVEL,
        decreases HARMONIC_COUNT - levels.len(),
    {
        let level = draw_below(MAX_LEVEL + 1);
        levels.push(level);
    }
    levels
}

/// The level table of a model; the deterministic models give the levels that
/// `model_level` states.
pub fn compute_levels(w: Waveform) -> (r: Vec<u8>)
    ensures
        is_level_table(r@),
        w != Waveform::Random ==> follows(r@, |n: nat| model_level(w, n)),
{
    match w {
        Waveform::Sine => get_sine_levels(),
        Waveform::Saw => get_saw_levels(),
        Waveform::Square => get_square_levels(),
        Waveform::Triangle => get_triangle_levels(),
        Waveform::Random => get_random_levels(),
    }
}

/// A raw level brought into the device range `[0, 127]`.
pub open spec fn clamp_spec(raw: int) -> int {
    if raw < 0 {
        0
    } else if raw > MAX_LEVEL {
        MAX_LEVEL as int
    } else {
        raw
    }
}

/// Brings a raw level into the device range `[0, 127]`.
pub fn clamp_level(raw: i64) -> (r: u8)
    ensures
        r == clamp_spec(raw as int),
{
    if raw < 0 {
        0
    } else if raw > MAX_LEVEL as i64 {
        MAX_LEVEL
    } else {
        raw as u8
    }
}

/// The table of a parametric model from the raw level of each harmonic,
/// `floor(8 * log2(|amplitude|) + 127)`, where `None` stands for an amplitude
/// that is not a finite number.
///
/// Each raw level is clamped to `[0, 127]`. The first harmonic without a finite
/// amplitude fails the whole table: `Err(n)` names it, counting from 1.
pub fn levels_from_raw(raw: &Vec<Option<i64>>) -> (r: Result<Vec<u8>, usize>)
    requires
        raw@.len() == HARMONIC_COUNT,
    ensures
        r is Ok <==> (forall|i: int| 0 <= i < HARMONIC_COUNT ==> raw@[i] is Some),
        r matches Ok(t) ==> is_level_table(t@) && forall|i: int|
            0 <= i < HARMONIC_COUNT ==> t@[i] as int == clamp_spec(raw@[i]->Some_0 as int),
        r matches Err(n) ==> 1 <= n <= HARMONIC_COUNT && raw@[n - 1] is None && forall|i: int|
            0 <= i < n - 1 ==> raw@[i] is Some,
{
    let mut levels: Vec<u8> = Vec::new();
    let mut i: usize = 0;
    while i < HARMONIC_COUNT
        invariant
            raw@.len() == HARMONIC_COUNT,
            i <= HARMONIC_COUNT,
            levels.len() == i,
            forall|k: int| 0 <= k < i ==> raw@[k] is Some,
            forall|k: int| 0 <= k < i ==> levels@[k] <= MAX_LEVEL,
            forall|k: int| 0 <= k < i ==> levels@[k] as int == clamp_spec(raw@[k]->Some_0 as int),
        decreases HARMONIC_COUNT - i,
    {
        match raw[i] {
            Some(value) => levels.push(clamp_level(value)),
            None => return Err(i + 1),
        }
        i = i + 1;
    }
    Ok(levels)
}

/// Every odd harmonic of the square table sits at the sawtooth's level, and every
/// even one is silent.
pub proof fn lemma_square_is_odd_saw(n: nat)
    requires
        1 <= n <= HARMONIC_COUNT,
    ensures
        n % 2 == 1 ==> square_level(n) == saw_level(n),
        n % 2 == 0 ==> square_level(n) == 0,
{
}

/// Every even harmonic of the triangle table is silent.
pub proof fn lemma_triangle_even_silent(n: nat)
    requires
        1 <= n <= HARMONIC_COUNT,
        n % 2 == 0,
    ensures
        triangle_level(n) == 0,
{
}

} // verus!
