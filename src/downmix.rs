//! Downmixing interleaved integer frames to mono.
//!
//! An integer sample is first centred on zero by its encoding's midpoint,
//! giving a level between minus and plus the encoding's full scale. The mono
//! value of one frame position is the mean of its channels' levels divided by
//! the full scale; this module yields the exact sum of the levels, and
//! `mono_divisor` what it is divided by, so that no rounding happens before
//! the single final division.
use vstd::prelude::*;

verus! {

/// How the capture source encodes one sample.
#[derive(Clone, Copy, Debug, PartialEq, Eq, Structural)]
pub enum SampleEncoding {
    U8,
    I16,
    I32,
    F32,
}

/// The level at which an encoding reaches full scale.
pub open spec fn spec_full_scale(e: SampleEncoding) -> int {
    match e {
        SampleEncoding::U8 => 128,
        SampleEncoding::I16 => 32768,
        SampleEncoding::I32 => 2147483648,
        SampleEncoding::F32 => 1,
    }
}

/// The level at which an encoding reaches full scale.
pub fn full_scale(e: SampleEncoding) -> (r: u64)
    ensures
        r == spec_full_scale(e),
{
    match e {
        SampleEncoding::U8 => 128,
        SampleEncoding::I16 => 32768,
        SampleEncoding::I32 => 2147483648,
        SampleEncoding::F32 => 1,
    }
}

/// What the sum of one frame's levels is divided by to give its mono value
/// in `[-1, 1]`: the channel count times the full scale.
pub fn mono_divisor(e: SampleEncoding, channels: u16) -> (r: u64)
    ensures
        r == channels * spec_full_scale(e),
{
    let s = full_scale(e);
    assert(channels * s <= 65535 * 2147483648) by (nonlinear_arith)
        requires
            channels <= 65535,
            s <= 2147483648,
    ;
    channels as u64 * s
}

/// The sum of the `c` levels that start at `start`.
pub open spec fn frame_sum(levels: Seq<int>, start: int, c: int) -> int
    decreases c,
{
    if c <= 0 {
        0
    } else {
        frame_sum(levels, start, c - 1) + levels[start + c - 1]
    }
}

/// The level of an unsigned 8-bit sample: centred on 128.
pub open spec fn level_u8(s: u8) -> int {
    s - 128
}

/// The levels of unsigned 8-bit samples.
pub open spec fn levels_u8(data: Seq<u8>) -> Seq<int> {
    data.map_values(|s: u8| level_u8(s))
}

/// The levels of signed 16-bit samples: the samples themselves.
pub open spec fn levels_i16(data: Seq<i16>) -> Seq<int> {
    data.map_values(|s: i16| s as int)
}

/// The levels of signed 32-bit samples: the samples themselves.
pub open spec fn levels_i32(data: Seq<i32>) -> Seq<int> {
    data.map_values(|s: i32| s as int)
}

/// `r` holds, for each whole frame of `channels` interleaved levels, the sum
/// of that frame's levels, which lies within `channels` times `scale` of zero.
pub open spec fn frame_sums_of(levels: Seq<int>, channels: int, scale: int, r: Seq<i64>) -> bool {
    &&& r.len() == levels.len() as int / channels
    &&& forall|k: int|
        0 <= k < r.len() ==> #[trigger] r[k] == frame_sum(levels, k * channels, channels)
    &&& forall|k: int| 0 <= k < r.len() ==> -(channels * scale) <= #[trigger] r[k] <= channels * scale
}

proof fn lemma_frame_sum_bounds(levels: Seq<int>, start: int, c: int, scale: int)
    requires
        0 <= c,
        0 <= start,
        start + c <= levels.len(),
        forall|i: int| 0 <= i < levels.len() ==> -scale <= #[trigger] levels[i] <= scale,
    ensures
        -(c * scale) <= frame_sum(levels, start, c) <= c * scale,
    decreases c,
{
    if c > 0 {
        lemma_frame_sum_bounds(levels, start, c - 1, scale);
        assert((c - 1) * scale + scale == c * scale) by (nonlinear_arith);
    }
}

/// Sums each whole frame of `channels` interleaved levels; a trailing partial
/// frame is left out.
fn sum_frames(levels: &Vec<i64>, channels: u16, scale: u64) -> (r: Vec<i64>)
    requires
        channels >= 1,
        scale <= 2147483648,
        forall|i: int| 0 <= i < levels.len() ==> -scale <= #[trigger] levels[i] <= scale,
    ensures
        frame_sums_of(levels@.map_values(|v: i64| v as int), channels as int, scale as int, r@),
{
    let ghost lv = levels@.map_values(|v: i64| v as int);
    let c = channels as usize;
    let frames = levels.len() / c;
    let mut r: Vec<i64> = Vec::new();
    let mut k: usize = 0;
    while k < frames
        invariant
            c == channels,
            c >= 1,
            scale <= 2147483648,
            lv == levels@.map_values(|v: i64| v as int),
            forall|i: int| 0 <= i < levels.len() ==> -scale <= #[trigger] levels[i] <= scale,
            frames == levels.len() / c,
            k <= frames,
            r@.len() == k,
            forall|j: int| 0 <= j < k ==> #[trigger] r@[j] == frame_sum(lv, j * c, c as int),
            forall|j: int| 0 <= j < k ==> -(c * scale) <= #[trigger] r@[j] <= c * scale,
        decreases frames - k,
    {
        assert(k * c + c <= levels.len()) by (nonlinear_arith)
            requires
                k < frames,
                frames == levels.len() / c,
                c >= 1,
        ;
        let base = k * c;
        let mut sum: i64 = 0;
        let mut j: usize = 0;
        while j < c
            invariant
                c == channels,
                c >= 1,
                scale <= 2147483648,
                lv == levels@.map_values(|v: i64| v as int),
                forall|i: int| 0 <= i < levels.len() ==> -scale <= #[trigger] levels[i] <= scale,
                base == k * c,
                base + c <= levels.len(),
                j <= c,
                sum == frame_sum(lv, base as int, j as int),
            decreases c - j,
        {
            proof {
                lemma_frame_sum_bounds(lv, base as int, j as int, scale as int);
                assert(j * scale <= 65535 * 2147483648) by (nonlinear_arith)
                    requires
                        j <= 65535,
                        scale <= 2147483648,
                ;
            }
            sum = sum + levels[base + j];
            j = j + 1;
        }
        proof {
            lemma_frame_sum_bounds(lv, base as int, c as int, scale as int);
        }
        r.push(sum);
        k = k + 1;
    }
    r
}

/// Downmixes interleaved unsigned 8-bit frames: for each whole frame of
/// `channels` samples, the sum of their levels.
pub fn downmix_u8(data: &Vec<u8>, channels: u16) -> (r: Vec<i64>)
    requires
        channels >= 1,
    ensures
        frame_sums_of(levels_u8(data@), channels as int, spec_full_scale(SampleEncoding::U8), r@),
{
    let mut lv: Vec<i64> = Vec::new();
    let mut i: usize = 0;
    while i < data.len()
        invariant
            i <= data.len(),
            lv@.len() == i,
            forall|j: int| 0 <= j < i ==> #[trigger] lv@[j] == level_u8(data@[j]),
        decreases data.len() - i,
    {
        lv.push(data[i] as i64 - 128);
        i = i + 1;
    }
    assert(lv@.map_values(|v: i64| v as int) =~= levels_u8(data@));
    sum_frames(&lv, channels, 128)
}

/// Downmixes interleaved signed 16-bit frames: for each whole frame of
/// `channels` samples, the sum of their levels.
pub fn downmix_i16(data: &Vec<i16>, channels: u16) -> (r: Vec<i64>)
    requires
        channels >= 1,
    ensures
        frame_sums_of(levels_i16(data@), channels as int, spec_full_scale(SampleEncoding::I16), r@),
{
    let mut lv: Vec<i64> = Vec::new();
    let mut i: usize = 0;
    while i < data.len()
        invariant
            i <= data.len(),
            lv@.len() == i,
            forall|j: int| 0 <= j < i ==> #[trigger] lv@[j] == data@[j] as int,
        decreases data.len() - i,
    {
        lv.push(data[i] as i64);
        i = i + 1;
    }
    assert(lv@.map_values(|v: i64| v as int) =~= levels_i16(data@));
    sum_frames(&lv, channels, 32768)
}

/// Downmixes interleaved signed 32-bit frames: for each whole frame of
/// `channels` samples, the sum of their levels.
pub fn downmix_i32(data: &Vec<i32>, channels: u16) -> (r: Vec<i64>)
    requires
        channels >= 1,
    ensures
        frame_sums_of(levels_i32(data@), channels as int, spec_full_scale(SampleEncoding::I32), r@),
{
    let mut lv: Vec<i64> = Vec::new();
    let mut i: usize = 0;
    while i < data.len()
        invariant
            i <= data.len(),
            lv@.len() == i,
            forall|j: int| 0 <= j < i ==> #[trigger] lv@[j] == data@[j] as int,
        decreases data.len() - i,
    {
        lv.push(data[i] as i64);
        i = i + 1;
    }
    assert(lv@.map_values(|v: i64| v as int) =~= levels_i32(data@));
    sum_frames(&lv, channels, 2147483648)
}

/// With one channel, downmixing is the identity after scaling: there is one
/// sum per sample, and each is that sample's own level.
pub proof fn lemma_single_channel_identity(levels: Seq<int>, scale: int, r: Seq<i64>)
    requires
        frame_sums_of(levels, 1, scale, r),
    ensures
        r.len() == levels.len(),
        forall|k: int| 0 <= k < r.len() ==> #[trigger] r[k] == levels[k],
{
    assert forall|k: int| 0 <= k < r.len() implies #[trigger] r[k] == levels[k] by {
        assert(r[k] == frame_sum(levels, k * 1, 1));
        assert(frame_sum(levels, k, 0) == 0);
    }
}

} // verus!
