//! Splitting a video into processing segments by whole frames, so that the
//! segments cover the video exactly and no timing drift accumulates.

use vstd::prelude::*;
use vstd::arithmetic::div_mod::*;
use crate::ratio::{FrameRate, round_div, round_div_u128, lemma_round_div_split};
use crate::text::{decimal, fixed_digits, push_decimal, push_fixed_digits};

verus! {

/// One processing segment: a range of frames of the source video.
#[derive(Clone, Copy, Debug, PartialEq, Eq, Structural)]
pub struct Segment {
    pub index: u32,
    pub start_frame: u64,
    pub frame_count: u64,
}

impl Segment {
    /// First frame after the segment.
    pub open spec fn spec_end_frame(self) -> int {
        self.start_frame + self.frame_count
    }

    pub fn end_frame(&self) -> (e: u64)
        requires
            self.start_frame + self.frame_count <= u64::MAX,
        ensures
            e == self.spec_end_frame(),
    {
        self.start_frame + self.frame_count
    }
}

/// Frames in `seconds` seconds at `fps`: `round(seconds * fps)`, but at
/// least one.
pub open spec fn segment_frames(seconds: u32, fps: FrameRate) -> int {
    let r = round_div(seconds * fps.num, fps.den as int);
    if r < 1 {
        1
    } else {
        r
    }
}

/// `ceil(n / k)`.
pub open spec fn ceil_div(n: int, k: int) -> int {
    (n + k - 1) / k
}

/// Number of segments for `n` frames in chunks of `k`: `ceil(n / k)` chunks,
/// one fewer when the last chunk would hold a single frame and there is an
/// earlier chunk to merge it into.
pub open spec fn segment_count(n: int, k: int) -> int {
    if n == 0 {
        0
    } else {
        let q = ceil_div(n, k);
        if q > 1 && n - (q - 1) * k == 1 {
            q - 1
        } else {
            q
        }
    }
}

/// Frame count of segment `i`: `k` for all but the last, which takes the rest.
pub open spec fn segment_frame_count(n: int, k: int, i: int) -> int {
    if i + 1 < segment_count(n, k) {
        k
    } else {
        n - i * k
    }
}

/// `segs` is the segmentation of `n` frames in chunks of `k`.
pub open spec fn is_segmentation(segs: Seq<Segment>, n: int, k: int) -> bool {
    &&& segs.len() == segment_count(n, k)
    &&& forall|i: int|
        0 <= i < segs.len() ==> {
            &&& (#[trigger] segs[i]).index == i
            &&& segs[i].start_frame == i * k
            &&& segs[i].frame_count == segment_frame_count(n, k, i)
        }
}

proof fn lemma_ceil_div_exact(n: int, k: int, j: int)
    requires
        k > 0,
        (j - 1) * k < n <= j * k,
    ensures
        ceil_div(n, k) == j,
{
    assert((j - 1) * k == j * k - k) by (nonlinear_arith);
    lemma_fundamental_div_mod_converse_div(n + k - 1, k, j, n + k - 1 - j * k);
}

proof fn lemma_ceil_div_above(n: int, k: int, i: int)
    requires
        k > 0,
        i >= 0,
        i * k < n,
    ensures
        i + 1 <= ceil_div(n, k),
{
    assert((i + 1) * k == i * k + k) by (nonlinear_arith);
    lemma_div_is_ordered((i + 1) * k, n + k - 1, k);
    lemma_div_by_multiple(i + 1, k);
}

/// Segment length in frames for segments of `seconds` seconds at `fps`:
/// `round(seconds * fps)`, at least one (see [`segment_frames`]).
pub fn frames_per_segment(seconds: u32, fps: FrameRate) -> (k: u64)
    requires
        fps.wf(),
    ensures
        k == segment_frames(seconds, fps),
        k >= 1,
{
    assert(seconds * fps.num <= 0xffff_ffff * 0xffff_ffffint) by (nonlinear_arith)
        requires
            seconds <= 0xffff_ffff,
            fps.num <= 0xffff_ffff,
            seconds >= 0,
            fps.num >= 0,
    ;
    let a: u128 = seconds as u128 * fps.num as u128;
    let r = round_div_u128(a, fps.den as u128);
    proof {
        lemma_round_div_split(a as int, fps.den as int);
        lemma_div_is_ordered_by_denominator(a as int, 1, fps.den as int);
    }
    if r < 1 {
        1
    } else {
        r as u64
    }
}

/// Splits `frame_count` frames into segments of `segment_frames` frames
/// (the segment length in frames, at least one); the last segment takes the
/// remainder. A last segment of a single frame is merged into the previous
/// one when there is one (frame interpolation needs at least two frames per
/// segment).
pub fn compute_segments(frame_count: u64, segment_frames: u64) -> (segs: Vec<Segment>)
    requires
        segment_frames >= 1,
        ceil_div(frame_count as int, segment_frames as int) <= u32::MAX,
    ensures
        is_segmentation(segs@, frame_count as int, segment_frames as int),
{
    if frame_count == 0 {
        return Vec::new();
    }
    let k = segment_frames;
    let ghost n = frame_count as int;
    let mut segs: Vec<Segment> = Vec::new();
    let mut start: u64 = 0;
    let mut index: u64 = 0;
    while start < frame_count
        invariant
            k >= 1,
            n == frame_count,
            n > 0,
            ceil_div(n, k as int) <= u32::MAX,
            start <= frame_count,
            segs.len() == index,
            index * k <= n ==> start == index * k,
            index * k > n ==> start == n,
            index > 0 ==> (index - 1) * k < n,
            forall|i: int|
                0 <= i < index ==> {
                    &&& (#[trigger] segs@[i]).index == i
                    &&& segs@[i].start_frame == i * k
                    &&& i * k < n
                    &&& segs@[i].frame_count == (if n - i * k < k {
                        n - i * k
                    } else {
                        k as int
                    })
                },
        decreases frame_count - start,
    {
        proof {
            if index * k > n {
                assert(false);
            }
            lemma_ceil_div_above(n, k as int, index as int);
        }
        let remaining = frame_count - start;
        let c = if k < remaining {
            k
        } else {
            remaining
        };
        segs.push(Segment { index: index as u32, start_frame: start, frame_count: c });
        start = start + c;
        proof {
            assert((index + 1) * k == index * k + k) by (nonlinear_arith);
        }
        index = index + 1;
    }
    proof {
        assert(index > 0) by {
            if index == 0 {
                assert(index * k == 0) by (nonlinear_arith)
                    requires
                        index == 0,
                ;
            }
        }
        assert(index * k >= n);
        lemma_ceil_div_exact(n, k as int, index as int);
    }
    let ghost q = index as int;
    let ghost pre = segs@;
    proof {
        assert((q - 1) * k == q * k - k) by (nonlinear_arith);
        assert(pre[q - 1].frame_count == n - (q - 1) * k);
        assert(pre[q - 1].frame_count >= 1);
    }
    let len = segs.len();
    if len > 1 && segs[len - 1].frame_count < 2 {
        let last = segs.pop().unwrap();
        let mut prev = segs[len - 2];
        proof {
            assert(segs@[len - 2] == prev);
            assert((q - 2) * k + k == (q - 1) * k) by (nonlinear_arith);
            assert(segment_count(n, k as int) == q - 1);
        }
        prev.frame_count = prev.frame_count + last.frame_count;
        segs.set(len - 2, prev);
        proof {
            assert forall|i: int| 0 <= i < segs.len() implies {
                &&& (#[trigger] segs@[i]).index == i
                &&& segs@[i].start_frame == i * k
                &&& segs@[i].frame_count == segment_frame_count(n, k as int, i)
            } by {
                if i + 2 < q {
                    assert((i + 1) * k == i * k + k) by (nonlinear_arith);
                    assert((i + 1) * k <= (q - 1) * k) by (nonlinear_arith)
                        requires
                            i + 2 <= q,
                            k >= 1,
                    ;
                    assert(segs@[i] == pre[i]);
                } else {
                    assert(i == q - 2);
                    assert(pre[i].frame_count == k) by {
                        assert((i + 1) * k == i * k + k) by (nonlinear_arith);
                    }
                }
            }
        }
    } else {
        proof {
            assert(segment_count(n, k as int) == q);
            assert forall|i: int| 0 <= i < segs.len() implies {
                &&& (#[trigger] segs@[i]).index == i
                &&& segs@[i].start_frame == i * k
                &&& segs@[i].frame_count == segment_frame_count(n, k as int, i)
            } by {
                if i + 1 < q {
                    assert((i + 1) * k == i * k + k) by (nonlinear_arith);
                    assert((i + 1) * k <= (q - 1) * k) by (nonlinear_arith)
                        requires
                            i + 2 <= q,
                            k >= 1,
                    ;
                }
            }
        }
    }
    segs
}


/// Sum of the frame counts of `segs`.
pub open spec fn total_frames(segs: Seq<Segment>) -> int
    decreases segs.len(),
{
    if segs.len() == 0 {
        0
    } else {
        total_frames(segs.drop_last()) + segs.last().frame_count
    }
}

/// The segments follow each other without gap or overlap, starting at frame 0.
pub open spec fn contiguous_from_zero(segs: Seq<Segment>) -> bool {
    &&& segs.len() > 0 ==> segs[0].start_frame == 0
    &&& forall|i: int|
        0 < i < segs.len() ==> (#[trigger] segs[i]).start_frame == segs[i - 1].spec_end_frame()
}

proof fn lemma_ceil_div_bounds(n: int, k: int)
    requires
        n >= 1,
        k >= 1,
    ensures
        ceil_div(n, k) >= 1,
        (ceil_div(n, k) - 1) * k < n <= ceil_div(n, k) * k,
{
    let q = ceil_div(n, k);
    lemma_fundamental_div_mod(n + k - 1, k);
    lemma_remainder(n + k - 1, k);
    lemma_ceil_div_above(n, k, 0);
    assert((q - 1) * k == q * k - k) by (nonlinear_arith);
    assert(k * q == q * k) by (nonlinear_arith);
}

proof fn lemma_prefix_total(segs: Seq<Segment>, n: int, k: int, j: int)
    requires
        is_segmentation(segs, n, k),
        k >= 1,
        0 <= j < segs.len(),
    ensures
        total_frames(segs.take(j)) == j * k,
    decreases j,
{
    if j == 0 {
        assert(segs.take(0) =~= Seq::<Segment>::empty());
    } else {
        lemma_prefix_total(segs, n, k, j - 1);
        assert(segs.take(j).drop_last() =~= segs.take(j - 1));
        assert(segs.take(j).last() == segs[j - 1]);
        assert(j * k == (j - 1) * k + k) by (nonlinear_arith);
    }
}

/// The segmentation partitions the video: the segments are contiguous from
/// frame 0, each holds at least one frame, a last segment after others holds
/// at least two, there are none exactly when the video is empty, and the
/// frame counts add up to the frame count of the video.
pub proof fn law_segmentation_partitions_video(segs: Seq<Segment>, n: int, k: int)
    requires
        is_segmentation(segs, n, k),
        n >= 0,
        k >= 1,
    ensures
        total_frames(segs) == n,
        contiguous_from_zero(segs),
        forall|i: int| 0 <= i < segs.len() ==> (#[trigger] segs[i]).frame_count >= 1,
        segs.len() > 1 ==> segs.last().frame_count >= 2,
        segs.len() == 0 <==> n == 0,
{
    if n == 0 {
        assert(segs =~= Seq::<Segment>::empty());
        return;
    }
    lemma_ceil_div_bounds(n, k);
    let q = ceil_div(n, k);
    let m = segs.len() as int;
    assert(m >= 1);
    assert((m - 1) * k + (n - (m - 1) * k) == n);
    if m < q {
        assert((q - 2) * k == (q - 1) * k - k) by (nonlinear_arith);
    }
    assert(segs[m - 1].frame_count == n - (m - 1) * k);
    assert(segs[m - 1].frame_count >= 1);
    assert forall|i: int| 0 <= i < segs.len() implies (#[trigger] segs[i]).frame_count >= 1 by {
        if i + 1 < m {
            assert(segs[i].frame_count == k);
        }
    }
    assert forall|i: int| 0 < i < segs.len() implies (#[trigger] segs[i]).start_frame
        == segs[i - 1].spec_end_frame() by {
        assert(segs[i - 1].frame_count == k);
        assert(i * k == (i - 1) * k + k) by (nonlinear_arith);
    }
    lemma_prefix_total(segs, n, k, m - 1);
    assert(segs.drop_last() =~= segs.take(m - 1));
}

/// A time position of `num / den` seconds.
#[derive(Clone, Copy, Debug, PartialEq, Eq, Structural)]
pub struct Timestamp {
    pub num: u128,
    pub den: u128,
}

/// Time of frame `start_frame`: `start_frame / fps` seconds.
pub fn start_timestamp(start_frame: u64, fps: FrameRate) -> (t: Timestamp)
    requires
        fps.positive(),
    ensures
        t.num == start_frame * fps.den,
        t.den == fps.num,
{
    assert(start_frame * fps.den <= 0xffff_ffff_ffff_ffff * 0xffff_ffffint) by (nonlinear_arith)
        requires
            start_frame <= 0xffff_ffff_ffff_ffff,
            fps.den <= 0xffff_ffff,
            start_frame >= 0,
            fps.den >= 0,
    ;
    Timestamp { num: start_frame as u128 * fps.den as u128, den: fps.num as u128 }
}

/// Input-seek position for a segment starting at `start_frame`: half a frame
/// before the frame, `(start_frame - 1/2) / fps`, so that the first decoded
/// frame is exactly `start_frame`. The first segment needs no seek (`None`).
pub fn seek_timestamp(start_frame: u64, fps: FrameRate) -> (t: Option<Timestamp>)
    requires
        fps.positive(),
    ensures
        start_frame == 0 ==> t is None,
        start_frame > 0 ==> (t matches Some(ts) && ts.num == (2 * start_frame - 1) * fps.den
            && ts.den == 2 * fps.num),
{
    if start_frame == 0 {
        None
    } else {
        assert((2 * start_frame - 1) * fps.den <= 0x1_ffff_ffff_ffff_ffff * 0xffff_ffffint)
            by (nonlinear_arith)
            requires
                start_frame <= 0xffff_ffff_ffff_ffff,
                start_frame >= 1,
                fps.den <= 0xffff_ffff,
                fps.den >= 0,
        ;
        Some(
            Timestamp {
                num: (2 * start_frame as u128 - 1) * fps.den as u128,
                den: 2 * fps.num as u128,
            },
        )
    }
}

/// The seek position of a segment lies strictly before its first frame and
/// less than one frame before it (exactly half a frame).
pub proof fn law_seek_half_frame_before_start(start_frame: int, fps: FrameRate)
    requires
        start_frame > 0,
        fps.positive(),
    ensures
        ({
            let seek = ((2 * start_frame - 1) * fps.den, 2 * fps.num);
            let start = (start_frame * fps.den, fps.num as int);
            let previous = ((start_frame - 1) * fps.den, fps.num as int);
            &&& seek.0 * start.1 < start.0 * seek.1
            &&& previous.0 * seek.1 < seek.0 * previous.1
            &&& (start.0 * seek.1 - seek.0 * start.1) * 2 * fps.num == seek.1 * start.1 * fps.den
        }),
{
    assert(((2 * start_frame - 1) * fps.den) * fps.num < (start_frame * fps.den) * (2 * fps.num))
        by (nonlinear_arith)
        requires
            fps.den > 0,
            fps.num > 0,
    ;
    assert(((start_frame - 1) * fps.den) * (2 * fps.num) < ((2 * start_frame - 1) * fps.den) * fps.num)
        by (nonlinear_arith)
        requires
            fps.den > 0,
            fps.num > 0,
    ;
    assert(((start_frame * fps.den) * (2 * fps.num) - ((2 * start_frame - 1) * fps.den) * fps.num) * 2
        * fps.num == (2 * fps.num) * fps.num * fps.den) by (nonlinear_arith);
}

/// `a / b` rounded to the nearest integer, ties to the even neighbour (as
/// fixed-precision float formatting rounds).
pub open spec fn round_half_even(a: int, b: int) -> int {
    let q = a / b;
    let r = a % b;
    if 2 * r > b || (2 * r == b && q % 2 == 1) {
        q + 1
    } else {
        q
    }
}

/// Text of a timestamp with six decimals, in microseconds rounded to nearest.
pub open spec fn timestamp_text(ts: Timestamp) -> Seq<char> {
    let micros = round_half_even(ts.num * 1_000_000, ts.den as int);
    decimal((micros / 1_000_000) as nat) + seq!['.'] + fixed_digits(
        (micros % 1_000_000) as nat,
        6,
    )
}

/// Formats a timestamp with six decimals (the form ffmpeg `-ss` reads).
pub fn format_timestamp(ts: Timestamp) -> (s: String)
    requires
        ts.den > 0,
        ts.num <= u128::MAX / 1_000_000,
    ensures
        s@ == timestamp_text(ts),
{
    let a = ts.num * 1_000_000;
    let q = a / ts.den;
    let r = a % ts.den;
    let micros = if r > ts.den - r || (r == ts.den - r && q % 2 == 1) {
        proof {
            vstd::arithmetic::div_mod::lemma_div_is_ordered_by_denominator(a as int, 1, ts.den as int);
        }
        q + 1
    } else {
        q
    };
    let mut s = String::new();
    push_decimal(&mut s, micros / 1_000_000);
    proof {
        reveal_strlit(".");
    }
    s.append(".");
    push_fixed_digits(&mut s, micros % 1_000_000, 6);
    s
}

} // verus!
