//! Loudness metering: windowed root-mean-square with throttled emission.
//!
//! The meter batches mono samples into a window. Once the window holds at
//! least [`RMS_WINDOW`] samples, the RMS over the whole accumulated window is
//! computed, and an event is yielded only if at least
//! [`MIN_EMIT_INTERVAL_MS`] milliseconds have passed since the previous one;
//! otherwise the value is discarded. The window is cleared after every such
//! check, so short loudness bursts inside one throttle interval are lost by
//! design.
//!
//! RMS is reported in fixed-point amplitude units (full scale 32767), as the
//! floor of the square root of the mean of the squared samples.

use vstd::arithmetic::div_mod::{lemma_div_is_ordered, lemma_div_multiples_vanish};
use vstd::math::abs;
use vstd::prelude::*;

verus! {

/// Window size at which an RMS value is computed (about 50 ms at 16 kHz).
pub const RMS_WINDOW: usize = 800;

/// Minimum interval between two emitted loudness events, in milliseconds.
pub const MIN_EMIT_INTERVAL_MS: u64 = 50;

/// Floor of the square root of `n`.
pub open spec fn sqrt_floor(n: nat) -> nat
    decreases n,
{
    if n == 0 {
        0
    } else {
        let s = sqrt_floor((n - 1) as nat);
        if (s + 1) * (s + 1) <= n {
            s + 1
        } else {
            s
        }
    }
}

pub proof fn lemma_sqrt_floor_bounds(n: nat)
    ensures
        sqrt_floor(n) * sqrt_floor(n) <= n,
        n < (sqrt_floor(n) + 1) * (sqrt_floor(n) + 1),
    decreases n,
{
    if n == 0 {
        assert(sqrt_floor(n) == 0);
        assert(sqrt_floor(n) * sqrt_floor(n) <= n);
        assert((sqrt_floor(n) + 1) * (sqrt_floor(n) + 1) == 1) by (nonlinear_arith)
            requires
                sqrt_floor(n) == 0,
        ;
        assert(n < (sqrt_floor(n) + 1) * (sqrt_floor(n) + 1));
    } else {
        lemma_sqrt_floor_bounds((n - 1) as nat);
        let s = sqrt_floor((n - 1) as nat);
        assert(sqrt_floor(n) == if (s + 1) * (s + 1) <= n {
            s + 1
        } else {
            s
        });
        if (s + 1) * (s + 1) <= n {
            assert((s + 1) * (s + 1) < (s + 2) * (s + 2)) by (nonlinear_arith);
            assert(sqrt_floor(n) * sqrt_floor(n) <= n);
            assert(n < (sqrt_floor(n) + 1) * (sqrt_floor(n) + 1));
        } else {
            assert(sqrt_floor(n) * sqrt_floor(n) <= n);
            assert(n < (sqrt_floor(n) + 1) * (sqrt_floor(n) + 1));
        }
    }
}

/// `sqrt_floor` is the only value bracketing `n` between consecutive squares.
pub proof fn lemma_sqrt_floor_unique(n: nat, r: nat)
    requires
        r * r <= n,
        n < (r + 1) * (r + 1),
    ensures
        r == sqrt_floor(n),
{
    let s = sqrt_floor(n);
    lemma_sqrt_floor_bounds(n);
    if r < s {
        assert((r + 1) * (r + 1) <= s * s) by (nonlinear_arith)
            requires
                r + 1 <= s,
        ;
    }
    if s < r {
        assert((s + 1) * (s + 1) <= r * r) by (nonlinear_arith)
            requires
                s + 1 <= r,
        ;
    }
}

/// Sum of the squared samples of a window.
pub open spec fn sum_squares(s: Seq<i16>) -> nat
    decreases s.len(),
{
    if s.len() == 0 {
        0
    } else {
        (sum_squares(s.drop_last()) + s.last() * s.last()) as nat
    }
}

/// RMS of a nonempty window, in fixed-point amplitude units.
pub open spec fn rms_spec(w: Seq<i16>) -> nat {
    sqrt_floor(sum_squares(w) / w.len())
}

/// Whether enough time has passed since the last emission to emit again.
pub open spec fn emit_allowed(last_emit_ms: u64, now_ms: u64) -> bool {
    now_ms >= last_emit_ms && now_ms - last_emit_ms >= MIN_EMIT_INTERVAL_MS
}

/// Abstract state of a level meter.
pub ghost struct MeterModel {
    pub window: Seq<i16>,
    pub last_emit_ms: u64,
}

/// One feed of mono samples: the window grows by the samples; if it reached
/// the threshold it is cleared, and the RMS over the whole accumulated window
/// is yielded exactly when emission is not throttled.
pub open spec fn feed_step(m: MeterModel, samples: Seq<i16>, now_ms: u64) -> (MeterModel, Option<
    nat,
>) {
    let w = m.window + samples;
    if w.len() >= RMS_WINDOW {
        if emit_allowed(m.last_emit_ms, now_ms) {
            (MeterModel { window: Seq::empty(), last_emit_ms: now_ms }, Some(rms_spec(w)))
        } else {
            (MeterModel { window: Seq::empty(), last_emit_ms: m.last_emit_ms }, None)
        }
    } else {
        (MeterModel { window: w, last_emit_ms: m.last_emit_ms }, None)
    }
}

proof fn lemma_sum_squares_extend(s: Seq<i16>, n: int)
    requires
        0 <= n < s.len(),
    ensures
        sum_squares(s.subrange(0, n + 1)) == sum_squares(s.subrange(0, n)) + s[n] * s[n],
{
    let ext = s.subrange(0, n + 1);
    assert(ext.drop_last() =~= s.subrange(0, n));
    assert(s[n] * s[n] >= 0) by (nonlinear_arith);
}

proof fn lemma_sum_squares_bound(s: Seq<i16>)
    ensures
        sum_squares(s) <= s.len() * 0x4000_0000,
    decreases s.len(),
{
    if s.len() > 0 {
        lemma_sum_squares_bound(s.drop_last());
        assert(0 <= s.last() * s.last() <= 0x4000_0000) by (nonlinear_arith)
            requires
                -0x8000 <= s.last() <= 0x7fff,
        ;
    }
}

/// Floor of the square root of `x`, by bisection.
fn isqrt_u64(x: u64) -> (r: u64)
    requires
        x < 0x4000_0000_0000_0000,
    ensures
        r * r <= x,
        x < (r + 1) * (r + 1),
{
    let mut lo: u64 = 0;
    let mut hi: u64 = 0x8000_0000;
    while lo + 1 < hi
        invariant
            lo < hi <= 0x8000_0000,
            lo * lo <= x,
            x < hi * hi,
        decreases hi - lo,
    {
        let mid = lo + (hi - lo) / 2;
        proof {
            assert(mid * mid <= 0x8000_0000 * 0x8000_0000) by (nonlinear_arith)
                requires
                    mid <= 0x8000_0000,
            ;
        }
        if mid * mid <= x {
            lo = mid;
        } else {
            hi = mid;
        }
    }
    lo
}

/// Stateful loudness meter: window accumulator plus throttle timestamp.
pub struct LevelMeter {
    window: Vec<i16>,
    last_emit_ms: u64,
}

impl View for LevelMeter {
    type V = MeterModel;

    closed spec fn view(&self) -> MeterModel {
        MeterModel { window: self.window@, last_emit_ms: self.last_emit_ms }
    }
}

impl LevelMeter {
    /// Between feeds the window is always below the threshold.
    pub open spec fn wf(&self) -> bool {
        self@.window.len() < RMS_WINDOW
    }

    /// A fresh meter with an empty window, throttled relative to `now_ms`.
    pub fn new(now_ms: u64) -> (r: LevelMeter)
        ensures
            r.wf(),
            r@.window == Seq::<i16>::empty(),
            r@.last_emit_ms == now_ms,
    {
        LevelMeter { window: Vec::new(), last_emit_ms: now_ms }
    }

    /// Consume mono samples at time `now_ms`; yields the RMS of the
    /// accumulated window exactly when the window filled up and emission is
    /// not throttled.
    pub fn feed(&mut self, samples: &Vec<i16>, now_ms: u64) -> (r: Option<u16>)
        requires
            old(self).wf(),
            samples@.len() <= usize::MAX - RMS_WINDOW,
        ensures
            final(self).wf(),
            ({
                let (m2, e) = feed_step(old(self)@, samples@, now_ms);
                &&& final(self)@ == m2
                &&& match r {
                    Some(v) => e == Some(v as nat),
                    None => e is None,
                }
            }),
    {
        let ghost w = old(self)@.window + samples@;
        let mut i: usize = 0;
        while i < samples.len()
            invariant
                i <= samples@.len(),
                self.window@ == old(self)@.window + samples@.subrange(0, i as int),
                self.last_emit_ms == old(self)@.last_emit_ms,
                old(self)@.window.len() < RMS_WINDOW,
                samples@.len() <= usize::MAX - RMS_WINDOW,
            decreases samples@.len() - i,
        {
            self.window.push(samples[i]);
            proof {
                assert(self.window@ =~= old(self)@.window + samples@.subrange(0, i + 1));
            }
            i = i + 1;
        }
        proof {
            assert(samples@.subrange(0, samples@.len() as int) =~= samples@);
            assert(self.window@ == w);
        }
        if self.window.len() >= RMS_WINDOW {
            let should_emit = now_ms >= self.last_emit_ms && now_ms - self.last_emit_ms
                >= MIN_EMIT_INTERVAL_MS;
            let result = if should_emit {
                let n = self.window.len();
                let mut sum: u128 = 0;
                let mut j: usize = 0;
                while j < n
                    invariant
                        n == self.window@.len(),
                        j <= n,
                        sum == sum_squares(self.window@.subrange(0, j as int)),
                        sum <= j * 0x4000_0000,
                    decreases n - j,
                {
                    let s = self.window[j];
                    proof {
                        lemma_sum_squares_extend(self.window@, j as int);
                        assert(0 <= s * s <= 0x4000_0000) by (nonlinear_arith)
                            requires
                                -0x8000 <= s <= 0x7fff,
                        ;
                    }
                    sum = sum + ((s as i64 * s as i64) as u128);
                    j = j + 1;
                }
                proof {
                    assert(self.window@.subrange(0, n as int) =~= self.window@);
                    lemma_sum_squares_bound(self.window@);
                    lemma_div_is_ordered(
                        sum_squares(self.window@) as int,
                        self.window@.len() as int * 0x4000_0000,
                        self.window@.len() as int,
                    );
                    lemma_div_multiples_vanish(0x4000_0000, self.window@.len() as int);
                }
                let mean: u128 = sum / (n as u128);
                let rms = isqrt_u64(mean as u64);
                proof {
                    lemma_sqrt_floor_unique(mean as nat, rms as nat);
                    assert(rms * rms <= 0x4000_0000);
                    assert(rms <= 0xffff) by (nonlinear_arith)
                        requires
                            rms * rms <= 0x4000_0000,
                    ;
                }
                Some(rms as u16)
            } else {
                None
            };
            self.window.clear();
            if should_emit {
                self.last_emit_ms = now_ms;
            }
            result
        } else {
            None
        }
    }
}

/// Two full windows arriving within one throttle interval yield exactly one
/// event; a second full window after the interval yields its own event.
pub proof fn lemma_throttle(m: MeterModel, s1: Seq<i16>, s2: Seq<i16>, s3: Seq<i16>, t: u64)
    requires
        emit_allowed(m.last_emit_ms, t),
        m.window.len() + s1.len() >= RMS_WINDOW,
        s2.len() >= RMS_WINDOW,
        s3.len() >= RMS_WINDOW,
        t + 60 <= u64::MAX,
    ensures
        ({
            let (m1, first) = feed_step(m, s1, t);
            let (_, second_close) = feed_step(m1, s2, (t + 10) as u64);
            let (_, second_apart) = feed_step(m1, s3, (t + 60) as u64);
            &&& first is Some
            &&& second_close is None
            &&& second_apart is Some
        }),
{
    let (m1, first) = feed_step(m, s1, t);
    assert(m1.last_emit_ms == t);
    assert(m1.window =~= Seq::<i16>::empty());
    assert(m1.window + s2 =~= s2);
    assert(m1.window + s3 =~= s3);
}

/// The RMS of a constant window is the constant's magnitude.
pub proof fn lemma_rms_constant_window(x: i16, n: nat)
    requires
        n >= 1,
    ensures
        rms_spec(Seq::new(n, |i: int| x)) == abs(x as int),
{
    let w = Seq::new(n, |i: int| x);
    lemma_sum_squares_constant(x, n);
    assert(x * x >= 0) by (nonlinear_arith);
    let sq = (x * x) as nat;
    assert(sum_squares(w) / w.len() == sq) by {
        lemma_div_multiples_vanish(sq as int, n as int);
        assert(n * sq == sum_squares(w));
    }
    let r = abs(x as int);
    assert(r == x as int || r == -(x as int));
    assert(r * r == sq) by (nonlinear_arith)
        requires
            r == x as int || r == -(x as int),
            sq == x * x,
    ;
    assert(sq < (r + 1) * (r + 1)) by (nonlinear_arith)
        requires
            r * r == sq,
    ;
    lemma_sqrt_floor_unique(sq, r);
}

proof fn lemma_sum_squares_constant(x: i16, n: nat)
    ensures
        sum_squares(Seq::new(n, |i: int| x)) == n * (x * x),
    decreases n,
{
    let w = Seq::new(n, |i: int| x);
    if n == 0 {
        assert(n * (x * x) == 0) by (nonlinear_arith)
            requires
                n == 0,
        ;
    } else {
        lemma_sum_squares_constant(x, (n - 1) as nat);
        assert(w.drop_last() =~= Seq::new((n - 1) as nat, |i: int| x));
        assert(x * x >= 0) by (nonlinear_arith);
        assert(n * (x * x) == (n - 1) * (x * x) + x * x) by (nonlinear_arith);
    }
}

} // verus!
