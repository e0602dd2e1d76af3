//! Linear-interpolation resampling of 16-bit mono samples.
//!
//! A fractional read cursor walks the input at a step of
//! `input_rate / output_rate` source samples per output sample: output `k`
//! reads source position `k * input_rate / output_rate` and interpolates
//! between the two input samples bracketing it. The cursor is kept as the
//! exact rational `(k * input_rate) / output_rate`, so every output sample is
//! a pure function of the inputs.

use crate::convert::amps_of;
use vstd::arithmetic::div_mod::{
    lemma_fundamental_div_mod, lemma_hoist_over_denominator, lemma_multiply_divide_lt,
};
use vstd::prelude::*;

verus! {

/// Index of the input sample just at or before output `k`'s source position.
pub open spec fn cursor_index(k: nat, in_rate: nat, out_rate: nat) -> nat {
    (k * in_rate) / out_rate
}

/// Fractional part of output `k`'s source position, in units of `1/out_rate`.
pub open spec fn cursor_rem(k: nat, in_rate: nat, out_rate: nat) -> nat {
    (k * in_rate) % out_rate
}

/// The interpolated amplitude of output sample `k` (rounding down).
pub open spec fn interp_at(input: Seq<i16>, in_rate: nat, out_rate: nat, k: nat) -> int {
    let i = cursor_index(k, in_rate, out_rate);
    let a = input[i as int] as int;
    let b = input[i as int + 1] as int;
    a + ((b - a) * cursor_rem(k, in_rate, out_rate)) / out_rate as int
}

/// How many output samples interpolation yields: one per step `k` whose
/// source position still has a right neighbour, that is
/// `ceil((len - 1) * out_rate / in_rate)`.
pub open spec fn interp_count(len: nat, in_rate: nat, out_rate: nat) -> nat {
    if len == 0 {
        0
    } else {
        (((len - 1) * out_rate + in_rate - 1) / in_rate as int) as nat
    }
}

/// The resampled sequence. Equal rates and empty input pass through
/// unchanged; when interpolation yields nothing for a nonempty input, the
/// first input sample is kept so that no nonempty recording resamples to
/// nothing.
pub open spec fn resampled(input: Seq<i16>, in_rate: nat, out_rate: nat) -> Seq<int> {
    if in_rate == out_rate || input.len() == 0 {
        amps_of(input)
    } else {
        let n = interp_count(input.len(), in_rate, out_rate);
        if n == 0 {
            seq![input[0] as int]
        } else {
            Seq::new(n, |k: int| interp_at(input, in_rate, out_rate, k as nat))
        }
    }
}

/// Output `k` exists exactly while its cursor has a right neighbour.
proof fn lemma_count_window(len: nat, in_rate: nat, out_rate: nat, k: nat)
    requires
        in_rate >= 1,
        out_rate >= 1,
        len >= 1,
        k < interp_count(len, in_rate, out_rate),
    ensures
        k * in_rate < (len - 1) * out_rate,
        cursor_index(k, in_rate, out_rate) + 1 < len,
{
    let a = ((len - 1) * out_rate) as int;
    let c = interp_count(len, in_rate, out_rate) as int;
    lemma_fundamental_div_mod(a + in_rate - 1, in_rate as int);
    assert((k + 1) * in_rate <= c * in_rate) by (nonlinear_arith)
        requires
            k + 1 <= c,
            in_rate >= 1,
    ;
    assert(c * in_rate <= a + in_rate - 1) by (nonlinear_arith)
        requires
            c == (a + in_rate - 1) / in_rate as int,
            a + in_rate - 1 == in_rate * ((a + in_rate - 1) / in_rate as int) + (a + in_rate - 1)
                % in_rate as int,
            (a + in_rate - 1) % in_rate as int >= 0,
    ;
    assert(k * in_rate + in_rate == (k + 1) * in_rate) by (nonlinear_arith);
    assert(k * in_rate < a);
    assert(out_rate as int * (len - 1) == (len - 1) * out_rate) by (nonlinear_arith);
    lemma_multiply_divide_lt((k * in_rate) as int, out_rate as int, (len - 1) as int);
}

/// Interpolation stays between the two bracketing samples.
proof fn lemma_interp_bounds(a: int, b: int, rem: int, out_rate: int)
    requires
        out_rate >= 1,
        0 <= rem < out_rate,
    ensures
        b >= a ==> a <= a + ((b - a) * rem) / out_rate <= b,
        b < a ==> b <= a + ((b - a) * rem) / out_rate <= a,
{
    let x = (b - a) * rem;
    let q = x / out_rate;
    let r = x % out_rate;
    lemma_fundamental_div_mod(x, out_rate);
    assert(0 <= r < out_rate);
    if b >= a {
        assert(0 <= x <= (b - a) * out_rate) by (nonlinear_arith)
            requires
                x == (b - a) * rem,
                b >= a,
                0 <= rem < out_rate,
        ;
        assert(0 <= q <= b - a) by (nonlinear_arith)
            requires
                x == out_rate * q + r,
                0 <= r < out_rate,
                0 <= x <= (b - a) * out_rate,
                out_rate >= 1,
        ;
    } else {
        assert((b - a) * out_rate <= x <= 0) by (nonlinear_arith)
            requires
                x == (b - a) * rem,
                b < a,
                0 <= rem < out_rate,
        ;
        assert(b - a <= q <= 0) by (nonlinear_arith)
            requires
                x == out_rate * q + r,
                0 <= r < out_rate,
                (b - a) * out_rate <= x <= 0,
                out_rate >= 1,
        ;
    }
}

/// A nonempty input never resamples to nothing, whatever the two rates:
/// either samples pass through or interpolate, or the single first sample
/// is kept.
pub proof fn lemma_resample_nonempty(input: Seq<i16>, in_rate: nat, out_rate: nat)
    requires
        input.len() >= 1,
    ensures
        resampled(input, in_rate, out_rate).len() >= 1,
{
}

/// Resampling changes the length by the rate ratio: for a nonempty input of
/// `len` samples and a target rate no greater than the native rate, the
/// output length `n` approximates `len * out_rate / in_rate` to within one
/// sample, and is never zero.
pub proof fn lemma_resample_length(input: Seq<i16>, in_rate: nat, out_rate: nat)
    requires
        1 <= out_rate <= in_rate,
        input.len() >= 1,
    ensures
        ({
            let n = resampled(input, in_rate, out_rate).len();
            &&& n >= 1
            &&& n * in_rate <= input.len() * out_rate + in_rate
            &&& input.len() * out_rate <= n * in_rate + in_rate
        }),
{
    let len = input.len();
    if in_rate == out_rate {
        let n = len;
        assert(n * in_rate <= len * out_rate + in_rate) by (nonlinear_arith)
            requires
                n == len,
                in_rate == out_rate,
        ;
        assert(len * out_rate <= n * in_rate + in_rate) by (nonlinear_arith)
            requires
                n == len,
                in_rate == out_rate,
        ;
    } else {
        let a = ((len - 1) * out_rate) as int;
        let c = (a + in_rate - 1) / in_rate as int;
        lemma_fundamental_div_mod(a + in_rate - 1, in_rate as int);
        assert(a >= 0) by (nonlinear_arith)
            requires
                a == (len - 1) * out_rate,
                len >= 1,
                out_rate >= 1,
        ;
        assert(c * in_rate <= a + in_rate - 1) by (nonlinear_arith)
            requires
                a + in_rate - 1 == in_rate * c + (a + in_rate - 1) % in_rate as int,
                (a + in_rate - 1) % in_rate as int >= 0,
        ;
        assert(a <= c * in_rate) by (nonlinear_arith)
            requires
                a + in_rate - 1 == in_rate * c + (a + in_rate - 1) % in_rate as int,
                ((a + in_rate - 1) % in_rate as int) < in_rate,
        ;
        assert(a == len * out_rate - out_rate) by (nonlinear_arith)
            requires
                a == (len - 1) * out_rate,
                len >= 1,
        ;
        if c == 0 {
            // Interpolation yielded nothing: the single first sample is kept.
            let n = resampled(input, in_rate, out_rate).len();
            assert(n == 1);
            assert(c * in_rate == 0) by (nonlinear_arith)
                requires
                    c == 0,
            ;
            assert(a == 0);
            assert(len == 1) by (nonlinear_arith)
                requires
                    (len - 1) * out_rate == 0,
                    out_rate >= 1,
                    len >= 1,
            ;
            assert(len * out_rate <= out_rate) by (nonlinear_arith)
                requires
                    len == 1,
            ;
            assert(len * out_rate <= n * in_rate + in_rate);
            assert(n * in_rate <= len * out_rate + in_rate) by (nonlinear_arith)
                requires
                    n == 1,
                    len * out_rate >= out_rate >= 1,
                    in_rate >= 1,
            ;
        } else {
            let n = resampled(input, in_rate, out_rate).len();
            assert(n == c);
            assert(n * in_rate <= len * out_rate + in_rate);
            assert(len * out_rate <= n * in_rate + out_rate);
        }
    }
}

fn copy_samples(input: &Vec<i16>) -> (r: Vec<i16>)
    ensures
        r@ == input@,
{
    let mut out: Vec<i16> = Vec::new();
    let mut i: usize = 0;
    while i < input.len()
        invariant
            i <= input@.len(),
            out@ =~= input@.subrange(0, i as int),
        decreases input@.len() - i,
    {
        out.push(input[i]);
        i = i + 1;
    }
    proof {
        assert(out@ =~= input@);
    }
    out
}

/// Resample 16-bit mono samples from `input_rate` to `output_rate` by linear
/// interpolation. Equal rates and empty input pass through unchanged; a
/// nonempty input never yields an empty output.
pub fn resample_linear_i16(input: &Vec<i16>, input_rate: u32, output_rate: u32) -> (r: Vec<i16>)
    requires
        input@.len() == 0 || input_rate == output_rate || (input_rate >= 1 && output_rate >= 1
            && input@.len() * output_rate <= (usize::MAX - 1) * input_rate),
    ensures
        amps_of(r@) == resampled(input@, input_rate as nat, output_rate as nat),
        input_rate == output_rate ==> r@ == input@,
        input@.len() == 0 ==> r@.len() == 0,
        input@.len() > 0 ==> r@.len() >= 1,
{
    let len = input.len();
    if len == 0 || input_rate == output_rate {
        return copy_samples(input);
    }
    let ghost in_n = input_rate as nat;
    let ghost out_n = output_rate as nat;
    let in128 = input_rate as u128;
    let out128 = output_rate as u128;

    // count = ceil((len - 1) * output_rate / input_rate), shown to fit usize.
    proof {
        assert((len - 1) as int * out128 <= 0xffff_ffff_ffff_ffff * 0xffff_ffff)
            by (nonlinear_arith)
            requires
                0 <= (len - 1) as int <= 0xffff_ffff_ffff_ffff,
                0 <= out128 <= 0xffff_ffff,
        ;
    }
    let a128: u128 = (len - 1) as u128 * out128;
    let count128: u128 = (a128 + in128 - 1) / in128;
    proof {
        lemma_fundamental_div_mod(a128 + in128 - 1, in128 as int);
        assert(a128 <= len * output_rate) by (nonlinear_arith)
            requires
                a128 == (len - 1) * output_rate,
                len >= 1,
                output_rate >= 1,
        ;
        assert(count128 * in128 <= a128 + in128 - 1) by (nonlinear_arith)
            requires
                a128 + in128 - 1 == in128 * count128 + (a128 + in128 - 1) % in128 as int,
                (a128 + in128 - 1) % in128 as int >= 0,
        ;
        assert(count128 <= usize::MAX) by (nonlinear_arith)
            requires
                count128 * in128 <= a128 + in128 - 1,
                a128 <= (usize::MAX - 1) * in128,
                in128 >= 1,
        ;
        assert(count128 == interp_count(input@.len(), in_n, out_n));
    }
    let count: usize = count128 as usize;
    let mut out: Vec<i16> = Vec::new();
    let mut pos: u128 = 0;
    let mut k: usize = 0;
    while k < count
        invariant
            1 <= in128 <= u32::MAX,
            1 <= out128 <= u32::MAX,
            in128 == input_rate as u128,
            out128 == output_rate as u128,
            in128 == in_n,
            out128 == out_n,
            in_n != out_n,
            len == input@.len(),
            1 <= len,
            count == interp_count(input@.len(), in_n, out_n),
            count * in128 <= a128 + in128 - 1,
            a128 == (len - 1) * out128,
            a128 <= 0xffff_ffff_ffff_ffff * 0xffff_ffff,
            k <= count,
            pos == k * in128,
            out@.len() == k,
            forall|t: int| 0 <= t < k ==> out@[t] as int == interp_at(input@, in_n, out_n, t as nat),
        decreases count - k,
    {
        proof {
            lemma_count_window(input@.len(), in_n, out_n, k as nat);
            assert((k + 1) * in128 == k * in128 + in128) by (nonlinear_arith);
            assert((k + 1) * in128 <= count * in128) by (nonlinear_arith)
                requires
                    k < count,
            ;
        }
        let i128: u128 = pos / out128;
        let rem: u128 = pos % out128;
        proof {
            assert(i128 == cursor_index(k as nat, in_n, out_n));
            assert(rem == cursor_rem(k as nat, in_n, out_n));
            assert(i128 + 1 < len);
        }
        let i: usize = i128 as usize;
        let a: i64 = input[i] as i64;
        let b: i64 = input[i + 1] as i64;
        let ghost x = (b - a) * (rem as int);
        proof {
            assert(-65535 * 0x1_0000_0000 <= x <= 65535 * 0x1_0000_0000) by (nonlinear_arith)
                requires
                    x == (b - a) * (rem as int),
                    -65535 <= b - a <= 65535,
                    0 <= rem < 0x1_0000_0000,
            ;
            assert(x + 65535 * out128 >= 0) by (nonlinear_arith)
                requires
                    x == (b - a) * (rem as int),
                    -65535 <= b - a <= 65535,
                    0 <= rem < out128,
            ;
        }
        let num: i64 = (b - a) * (rem as i64) + 65535 * (output_rate as i64);
        proof {
            lemma_hoist_over_denominator(x, 65535, out128 as nat);
            lemma_interp_bounds(a as int, b as int, rem as int, out128 as int);
        }
        let d: u64 = num as u64 / output_rate as u64;
        proof {
            assert(d == x / out128 as int + 65535);
            assert(a + x / out128 as int == interp_at(input@, in_n, out_n, k as nat));
        }
        let v: i64 = a + d as i64 - 65535;
        out.push(v as i16);
        pos = pos + in128;
        k = k + 1;
    }
    if out.len() == 0 {
        out.push(input[0]);
    }
    proof {
        assert(amps_of(out@) =~= resampled(input@, in_n, out_n));
    }
    out
}

} // verus!
