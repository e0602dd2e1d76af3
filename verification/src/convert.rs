//! Sample conversion: interleaved device buffers to normalized mono samples.
//!
//! A device delivers interleaved frames of `C` channels. Each channel value is
//! first normalized to a fixed-point amplitude in `-32767 ..= 32767` (clamped),
//! and the mono sample of a frame is the floor of the mean of its `C`
//! amplitudes. Only complete frames are converted: the output has
//! `input_length / C` samples.

use vstd::arithmetic::div_mod::{
    lemma_div_is_ordered, lemma_div_multiples_vanish, lemma_fundamental_div_mod,
    lemma_hoist_over_denominator,
};
use vstd::prelude::*;

verus! {

/// Largest fixed-point amplitude: a sample value `v` stands for `v / 32767`.
pub const FULL_SCALE: i32 = 32767;

/// Clamp an integer to `[lo, hi]`.
pub open spec fn clamp_spec(x: int, lo: int, hi: int) -> int {
    if x < lo {
        lo
    } else if x > hi {
        hi
    } else {
        x
    }
}

/// A legal fixed-point amplitude.
pub open spec fn in_range(v: int) -> bool {
    -32767 <= v <= 32767
}

/// Amplitude of a signed 16-bit device sample (clamped; only `-32768` moves).
pub open spec fn amp_of_i16(s: i16) -> int {
    clamp_spec(s as int, -32767, 32767)
}

/// Amplitude of an unsigned 16-bit device sample: `0 ..= 65535` mapped
/// affinely onto `-32767 ..= 32767`, rounding down.
pub open spec fn amp_of_u16(s: u16) -> int {
    (s * 65534) / 65535 - 32767
}

/// Amplitude of a raw fixed-point sample (a floating-point device sample
/// scaled by `32767` outside the library; out-of-range values are clamped).
pub open spec fn amp_of_raw(x: i32) -> int {
    clamp_spec(x as int, -32767, 32767)
}

/// The amplitudes that a sample vector holds.
pub open spec fn amps_of(s: Seq<i16>) -> Seq<int> {
    s.map_values(|v: i16| v as int)
}

/// Sum of a sequence of amplitudes.
pub open spec fn sum_of(s: Seq<int>) -> int
    decreases s.len(),
{
    if s.len() == 0 {
        0
    } else {
        sum_of(s.drop_last()) + s.last()
    }
}

/// The mono sample of frame `k`: the floor of the mean of its `c` amplitudes.
pub open spec fn frame_mono(amps: Seq<int>, c: nat, k: nat) -> int {
    sum_of(amps.subrange((k * c) as int, (k * c + c) as int)) / c as int
}

/// Downmix: one mono sample per complete frame of `c` amplitudes.
pub open spec fn downmix_spec(amps: Seq<int>, c: nat) -> Seq<int> {
    Seq::new(amps.len() / c, |k: int| frame_mono(amps, c, k as nat))
}

/// Mono conversion of an interleaved signed 16-bit buffer.
pub open spec fn mono_of_i16(data: Seq<i16>, c: nat) -> Seq<int> {
    downmix_spec(data.map_values(|s: i16| amp_of_i16(s)), c)
}

/// Mono conversion of an interleaved unsigned 16-bit buffer.
pub open spec fn mono_of_u16(data: Seq<u16>, c: nat) -> Seq<int> {
    downmix_spec(data.map_values(|s: u16| amp_of_u16(s)), c)
}

/// Mono conversion of an interleaved raw fixed-point buffer.
pub open spec fn mono_of_raw(data: Seq<i32>, c: nat) -> Seq<int> {
    downmix_spec(data.map_values(|s: i32| amp_of_raw(s)), c)
}

proof fn lemma_sum_of_single(s: Seq<int>)
    requires
        s.len() == 1,
    ensures
        sum_of(s) == s[0],
{
    assert(s.drop_last() =~= Seq::<int>::empty());
    assert(sum_of(Seq::<int>::empty()) == 0);
}

proof fn lemma_sum_of_extend(s: Seq<int>, a: int, b: int)
    requires
        0 <= a <= b < s.len(),
    ensures
        sum_of(s.subrange(a, b + 1)) == sum_of(s.subrange(a, b)) + s[b],
{
    let ext = s.subrange(a, b + 1);
    assert(ext.drop_last() =~= s.subrange(a, b));
}

/// A frame's amplitude sum stays within `c` times full scale.
proof fn lemma_sum_of_bounds(s: Seq<int>)
    requires
        forall|i: int| 0 <= i < s.len() ==> in_range(s[i]),
    ensures
        -32767 * s.len() <= sum_of(s) <= 32767 * s.len(),
    decreases s.len(),
{
    if s.len() > 0 {
        lemma_sum_of_bounds(s.drop_last());
    }
}

/// Downmixing with one channel returns the amplitudes unchanged.
pub proof fn lemma_downmix_identity(amps: Seq<int>)
    ensures
        downmix_spec(amps, 1) == amps,
{
    let d = downmix_spec(amps, 1);
    assert forall|k: int| 0 <= k < amps.len() implies d[k] == amps[k] by {
        let fr = amps.subrange(k, k + 1);
        lemma_sum_of_single(fr);
        assert(sum_of(fr) == amps[k]);
    }
    assert(d =~= amps);
}

/// Mono of a two-channel raw frame `[x, y]` is the floor of the mean of the
/// two clamped amplitudes.
pub proof fn lemma_stereo_downmix(x: i32, y: i32)
    ensures
        mono_of_raw(seq![x, y], 2) == seq![(amp_of_raw(x) + amp_of_raw(y)) / 2],
{
    let amps = seq![x, y].map_values(|s: i32| amp_of_raw(s));
    assert(amps =~= seq![amp_of_raw(x), amp_of_raw(y)]);
    let d = downmix_spec(amps, 2);
    assert(d.len() == 1);
    let fr = amps.subrange(0, 2);
    assert(fr =~= amps);
    assert(fr.drop_last() =~= seq![amp_of_raw(x)]);
    lemma_sum_of_single(fr.drop_last());
    assert(sum_of(fr) == sum_of(fr.drop_last()) + fr.last());
    assert(sum_of(fr) == amp_of_raw(x) + amp_of_raw(y));
    assert(d =~= seq![(amp_of_raw(x) + amp_of_raw(y)) / 2]);
}

fn norm_of_i16(s: i16) -> (r: i16)
    ensures
        r as int == amp_of_i16(s),
{
    if s == i16::MIN {
        -32767
    } else {
        s
    }
}

fn norm_of_u16(s: u16) -> (r: i16)
    ensures
        r as int == amp_of_u16(s),
{
    let scaled: u32 = (s as u32) * 65534 / 65535;
    proof {
        assert((s as u32) * 65534 <= 65535u32 * 65534) by (nonlinear_arith)
            requires s <= 65535u32;
        lemma_div_is_ordered((s * 65534) as int, (65535 * 65534) as int, 65535);
        lemma_div_multiples_vanish(65534, 65535);
    }
    (scaled as i32 - 32767) as i16
}

fn norm_of_raw(x: i32) -> (r: i16)
    ensures
        r as int == amp_of_raw(x),
{
    if x < -32767 {
        -32767
    } else if x > 32767 {
        32767
    } else {
        x as i16
    }
}

/// Downmix an already normalized interleaved buffer to mono.
fn downmix(norm: &Vec<i16>, channels: u16) -> (r: Vec<i16>)
    requires
        channels >= 1,
        forall|i: int| 0 <= i < norm@.len() ==> in_range(norm@[i] as int),
    ensures
        amps_of(r@) == downmix_spec(amps_of(norm@), channels as nat),
{
    let c: usize = channels as usize;
    let n_frames: usize = norm.len() / c;
    proof {
        lemma_fundamental_div_mod(norm@.len() as int, c as int);
    }
    let mut out: Vec<i16> = Vec::new();
    let mut k: usize = 0;
    while k < n_frames
        invariant
            1 <= c <= 65535,
            norm@.len() <= usize::MAX,
            n_frames == norm@.len() / c as nat,
            n_frames * c <= norm@.len(),
            k <= n_frames,
            forall|i: int| 0 <= i < norm@.len() ==> in_range(norm@[i] as int),
            out@.len() == k,
            forall|i: int|
                0 <= i < k ==> out@[i] as int == frame_mono(amps_of(norm@), c as nat, i as nat),
        decreases n_frames - k,
    {
        let ghost amps = amps_of(norm@);
        proof {
            assert((k + 1) * c <= n_frames * c) by (nonlinear_arith)
                requires
                    k < n_frames,
            ;
            assert(k * c + c == (k + 1) * c) by (nonlinear_arith);
        }
        let base: usize = k * c;
        let mut j: usize = 0;
        let mut shifted: u32 = 0;
        while j < c
            invariant
                1 <= c <= 65535,
                j <= c,
                base == k * c,
                base + c <= norm@.len(),
                norm@.len() <= usize::MAX,
                amps == amps_of(norm@),
                forall|i: int| 0 <= i < norm@.len() ==> in_range(norm@[i] as int),
                shifted as int == sum_of(amps.subrange(base as int, base + j)) + j * 32767,
                shifted <= j * 65534,
            decreases c - j,
        {
            let s = norm[base + j];
            proof {
                lemma_sum_of_extend(amps, base as int, base + j);
                assert(amps[base + j] == norm@[base + j] as int);
            }
            shifted = shifted + ((s as i32 + 32767) as u32);
            j = j + 1;
        }
        let mono_shifted: u32 = shifted / (c as u32);
        proof {
            let fr = amps.subrange(base as int, base + c);
            assert(fr.len() == c);
            assert forall|i: int| 0 <= i < fr.len() implies in_range(fr[i]) by {
                assert(fr[i] == amps[base + i]);
            }
            lemma_sum_of_bounds(fr);
            lemma_hoist_over_denominator(sum_of(fr), 32767, c as nat);
            assert(mono_shifted as int == sum_of(fr) / c as int + 32767);
            assert(sum_of(fr) / c as int <= 32767 && sum_of(fr) / c as int >= -32767) by {
                lemma_div_is_ordered(sum_of(fr), 32767 * c, c as int);
                lemma_div_is_ordered(-32767 * c, sum_of(fr), c as int);
                lemma_div_multiples_vanish(32767, c as int);
                lemma_div_multiples_vanish(-32767, c as int);
            }
        }
        let mono: i32 = mono_shifted as i32 - 32767;
        out.push(mono as i16);
        k = k + 1;
    }
    proof {
        assert(amps_of(out@) =~= downmix_spec(amps_of(norm@), channels as nat));
    }
    out
}

/// Convert an interleaved signed 16-bit buffer to normalized mono samples.
pub fn interleaved_i16_to_mono(data: &Vec<i16>, channels: u16) -> (r: Vec<i16>)
    requires
        channels >= 1,
    ensures
        amps_of(r@) == mono_of_i16(data@, channels as nat),
        r@.len() == data@.len() / channels as nat,
{
    let mut norm: Vec<i16> = Vec::new();
    let mut i: usize = 0;
    while i < data.len()
        invariant
            i <= data@.len(),
            norm@.len() == i,
            forall|t: int| 0 <= t < i ==> norm@[t] as int == amp_of_i16(data@[t]),
        decreases data@.len() - i,
    {
        norm.push(norm_of_i16(data[i]));
        i = i + 1;
    }
    proof {
        assert(amps_of(norm@) =~= data@.map_values(|s: i16| amp_of_i16(s)));
    }
    if channels == 1 {
        proof {
            lemma_downmix_identity(amps_of(norm@));
        }
        norm
    } else {
        downmix(&norm, channels)
    }
}

/// Convert an interleaved unsigned 16-bit buffer to normalized mono samples.
pub fn interleaved_u16_to_mono(data: &Vec<u16>, channels: u16) -> (r: Vec<i16>)
    requires
        channels >= 1,
    ensures
        amps_of(r@) == mono_of_u16(data@, channels as nat),
        r@.len() == data@.len() / channels as nat,
{
    let mut norm: Vec<i16> = Vec::new();
    let mut i: usize = 0;
    while i < data.len()
        invariant
            i <= data@.len(),
            norm@.len() == i,
            forall|t: int| 0 <= t < i ==> norm@[t] as int == amp_of_u16(data@[t]),
        decreases data@.len() - i,
    {
        norm.push(norm_of_u16(data[i]));
        i = i + 1;
    }
    proof {
        assert(amps_of(norm@) =~= data@.map_values(|s: u16| amp_of_u16(s)));
        assert forall|i: int| 0 <= i < norm@.len() implies in_range(norm@[i] as int) by {
            assert(norm@[i] as int == amp_of_u16(data@[i]));
        }
    }
    if channels == 1 {
        proof {
            lemma_downmix_identity(amps_of(norm@));
        }
        norm
    } else {
        downmix(&norm, channels)
    }
}

/// Convert an interleaved raw fixed-point buffer (floating-point samples
/// scaled by `32767` outside the library) to normalized mono samples.
pub fn interleaved_raw_to_mono(data: &Vec<i32>, channels: u16) -> (r: Vec<i16>)
    requires
        channels >= 1,
    ensures
        amps_of(r@) == mono_of_raw(data@, channels as nat),
        r@.len() == data@.len() / channels as nat,
{
    let mut norm: Vec<i16> = Vec::new();
    let mut i: usize = 0;
    while i < data.len()
        invariant
            i <= data@.len(),
            norm@.len() == i,
            forall|t: int| 0 <= t < i ==> norm@[t] as int == amp_of_raw(data@[t]),
        decreases data@.len() - i,
    {
        norm.push(norm_of_raw(data[i]));
        i = i + 1;
    }
    proof {
        assert(amps_of(norm@) =~= data@.map_values(|s: i32| amp_of_raw(s)));
    }
    if channels == 1 {
        proof {
            lemma_downmix_identity(amps_of(norm@));
        }
        norm
    } else {
        downmix(&norm, channels)
    }
}

} // verus!
