//! Laying out audio frames: one value per frame, repeated on every channel.

use vstd::prelude::*;
use vstd::arithmetic::div_mod::{lemma_fundamental_div_mod, lemma_fundamental_div_mod_converse};

verus! {

/// The number of frames in `len` samples of `channels` channels; a last
/// frame may be cut short.
pub open spec fn frame_count(len: int, channels: int) -> int {
    len / channels + if len % channels == 0 { 0int } else { 1int }
}

/// The number of frames in `len` samples of `channels` channels.
pub fn frames_in(len: usize, channels: usize) -> (n: usize)
    requires
        channels > 0,
    ensures
        n == frame_count(len as int, channels as int),
{
    if len % channels == 0 {
        len / channels
    } else {
        assert(len / channels < len) by {
            lemma_fundamental_div_mod(len as int, channels as int);
            assert(channels * (len / channels) >= len / channels) by (nonlinear_arith)
                requires channels > 0, len / channels >= 0;
        }
        len / channels + 1
    }
}

/// The frame that sample `k` belongs to lies within the frame count.
proof fn lemma_frame_in_range(k: int, len: int, channels: int)
    requires
        channels > 0,
        0 <= k < len,
    ensures
        0 <= k / channels < frame_count(len, channels),
{
    lemma_fundamental_div_mod(k, channels);
    lemma_fundamental_div_mod(len, channels);
    let q = k / channels;
    let p = len / channels;
    let rk = k % channels;
    let rl = len % channels;
    assert(0 <= rk < channels && 0 <= rl < channels);
    assert(k == channels * q + rk);
    assert(len == channels * p + rl);
    assert(q >= 0) by (nonlinear_arith)
        requires k >= 0, channels > 0, k == channels * q + rk, rk < channels;
    assert(q <= p) by (nonlinear_arith)
        requires k < len, channels > 0, k == channels * q + rk, len == channels * p + rl, 0 <= rk, rl < channels;
    if q == p {
        assert(rl != 0);
    }
}

/// Writes `values[f]` to every sample of frame `f` of `output`: the samples
/// `f * channels` up to (not including) `(f + 1) * channels`, the last
/// frame cut at the end of `output`.
pub fn write_frames<T: Copy>(output: &mut [T], channels: usize, values: &Vec<T>)
    requires
        channels > 0,
        values@.len() == frame_count(old(output)@.len() as int, channels as int),
    ensures
        final(output)@.len() == old(output)@.len(),
        forall|k: int| 0 <= k < final(output)@.len() ==> #[trigger] final(output)@[k] == values@[k / channels as int],
{
    let len = output.len();
    let mut k: usize = 0;
    let mut frame: usize = 0;
    let mut pos: usize = 0;
    while k < len
        invariant
            len == output@.len(),
            channels > 0,
            values@.len() == frame_count(len as int, channels as int),
            k <= len,
            pos < channels,
            k == frame * channels + pos,
            forall|j: int| 0 <= j < k ==> #[trigger] output@[j] == values@[j / channels as int],
        decreases len - k,
    {
        proof {
            lemma_fundamental_div_mod_converse(k as int, channels as int, frame as int, pos as int);
            lemma_frame_in_range(k as int, len as int, channels as int);
        }
        output[k] = values[frame];
        k += 1;
        if pos + 1 == channels {
            assert((frame + 1) * channels == frame * channels + channels) by (nonlinear_arith);
            frame += 1;
            pos = 0;
        } else {
            pos += 1;
        }
    }
}

} // verus!
