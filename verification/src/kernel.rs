//! The kernel dispatcher and the per-pixel semantics of every kernel entry
//! point. An invocation names an entry, carries a global work size equal to
//! the image dimensions (one work item per pixel) and an ordered scalar
//! argument list; dispatching it runs the entry over a source device image
//! and fills a destination of the same format.

use vstd::prelude::*;
use crate::ExecError;
use crate::format::{ChannelDataType, ChannelOrder};
use crate::image::lemma_row_major_index;
use crate::marshal::DeviceImage;

verus! {

/// The kernel entry points of the contrast feature's program.
#[derive(Clone, Copy, Debug, PartialEq, Eq, Structural)]
pub enum KernelEntry {
    Threshold,
    ThresholdMut,
    AdaptiveThreshold,
    StretchContrast,
}

/// How many scalar arguments an entry point takes, after its image
/// arguments.
pub open spec fn spec_arg_count(e: KernelEntry) -> nat {
    match e {
        KernelEntry::Threshold => 1,
        KernelEntry::ThresholdMut => 1,
        KernelEntry::AdaptiveThreshold => 1,
        KernelEntry::StretchContrast => 2,
    }
}

/// One kernel launch: an entry point, the global work size, and the scalar
/// arguments, in kernel order. Built per call and never reused.
#[derive(Debug)]
pub struct KernelInvocation {
    pub entry: KernelEntry,
    pub width: u32,
    pub height: u32,
    pub args: Vec<u32>,
}

impl KernelInvocation {
    /// The argument list matches the entry point's arity.
    pub open spec fn wf(&self) -> bool {
        self.args@.len() == spec_arg_count(self.entry)
    }

    /// Builds an invocation with the global work size set to the image
    /// dimensions; fails exactly when the argument list does not match the
    /// entry point's arity.
    pub fn build(entry: KernelEntry, global_work_size: (u32, u32), args: Vec<u32>) -> (r: Result<
        KernelInvocation,
        ExecError,
    >)
        ensures
            r is Ok <==> args@.len() == spec_arg_count(entry),
            r is Err ==> r == Err::<KernelInvocation, ExecError>(ExecError::KernelBuild),
            r is Ok ==> {
                let inv = r.unwrap();
                &&& inv.wf()
                &&& inv.entry == entry
                &&& inv.width == global_work_size.0
                &&& inv.height == global_work_size.1
                &&& inv.args@ == args@
            },
    {
        let expected: usize = match entry {
            KernelEntry::Threshold => 1,
            KernelEntry::ThresholdMut => 1,
            KernelEntry::AdaptiveThreshold => 1,
            KernelEntry::StretchContrast => 2,
        };
        if args.len() == expected {
            Ok(
                KernelInvocation {
                    entry,
                    width: global_work_size.0,
                    height: global_work_size.1,
                    args,
                },
            )
        } else {
            Err(ExecError::KernelBuild)
        }
    }
}

/// The binary threshold rule: 255 where the intensity exceeds the
/// threshold, 0 where it does not.
pub open spec fn threshold_pixel(v: u8, t: u8) -> u8 {
    if v > t {
        255
    } else {
        0
    }
}

/// Every pixel of a buffer put through the threshold rule.
pub open spec fn threshold_map(s: Seq<u8>, t: u8) -> Seq<u8> {
    s.map_values(|v: u8| threshold_pixel(v, t))
}

/// The contrast-stretch rule: 0 at or below the lower bound, 255 at or
/// above the upper bound, and in between a linear ramp from 0 to 255 over
/// the open interval.
pub open spec fn stretch_pixel(v: u8, lower: u8, upper: u8) -> u8
    recommends
        lower < upper,
{
    if v <= lower {
        0
    } else if v >= upper {
        255
    } else {
        (((v - lower) * 255) / (upper - lower)) as u8
    }
}

/// Every pixel of a buffer put through the contrast-stretch rule.
pub open spec fn stretch_map(s: Seq<u8>, lower: u8, upper: u8) -> Seq<u8> {
    s.map_values(|v: u8| stretch_pixel(v, lower, upper))
}

/// The lower edge of a neighborhood half-width `r` around `c`, clamped at 0.
pub open spec fn clamp_lo(c: int, r: int) -> int {
    if c - r < 0 {
        0
    } else {
        c - r
    }
}

/// The upper edge (inclusive) of a neighborhood half-width `r` around `c`,
/// clamped at the last valid coordinate `size - 1`.
pub open spec fn clamp_hi(c: int, r: int, size: int) -> int {
    if c + r > size - 1 {
        size - 1
    } else {
        c + r
    }
}

/// The sum of the row-`y` samples at columns `x0` (inclusive) to `x1`
/// (exclusive) of a row-major buffer of width `w`.
pub open spec fn row_sum(s: Seq<u8>, w: int, y: int, x0: int, x1: int) -> int
    decreases x1 - x0,
{
    if x0 >= x1 {
        0
    } else {
        s[y * w + x0] + row_sum(s, w, y, x0 + 1, x1)
    }
}

/// The sum of the samples in the rectangle of columns `[x0, x1)` and rows
/// `[y0, y1)` of a row-major buffer of width `w`.
pub open spec fn rect_sum(s: Seq<u8>, w: int, x0: int, x1: int, y0: int, y1: int) -> int
    decreases y1 - y0,
{
    if y0 >= y1 {
        0
    } else {
        row_sum(s, w, y0, x0, x1) + rect_sum(s, w, x0, x1, y0 + 1, y1)
    }
}

/// How many pixels the clamped square neighborhood of half-width `r`
/// around `(x, y)` holds in a `w` × `h` image.
pub open spec fn nbhd_count(w: int, h: int, x: int, y: int, r: int) -> int {
    (clamp_hi(x, r, w) - clamp_lo(x, r) + 1) * (clamp_hi(y, r, h) - clamp_lo(y, r) + 1)
}

/// The intensity sum over the clamped square neighborhood of half-width
/// `r` around `(x, y)`.
pub open spec fn nbhd_sum(s: Seq<u8>, w: int, h: int, x: int, y: int, r: int) -> int {
    rect_sum(s, w, clamp_lo(x, r), clamp_hi(x, r, w) + 1, clamp_lo(y, r), clamp_hi(y, r, h) + 1)
}

/// The adaptive threshold rule: 255 where the intensity is at least the
/// exact mean of its clamped square neighborhood (ties pass), 0 where it is
/// below. The comparison is `value * count >= sum`, the mean taken as a
/// rational, not rounded.
pub open spec fn adaptive_pixel(s: Seq<u8>, w: int, h: int, x: int, y: int, r: int) -> u8 {
    if s[y * w + x] * nbhd_count(w, h, x, y, r) >= nbhd_sum(s, w, h, x, y, r) {
        255
    } else {
        0
    }
}

/// Appending one more column on the right extends a row sum by that sample.
pub proof fn lemma_row_sum_extend(s: Seq<u8>, w: int, y: int, x0: int, x1: int)
    requires
        x0 <= x1,
    ensures
        row_sum(s, w, y, x0, x1 + 1) == row_sum(s, w, y, x0, x1) + s[y * w + x1],
    decreases x1 - x0,
{
    if x0 < x1 {
        lemma_row_sum_extend(s, w, y, x0 + 1, x1);
    } else {
        reveal_with_fuel(row_sum, 2);
    }
}

/// Appending one more row below extends a rectangle sum by that row's sum.
pub proof fn lemma_rect_sum_extend(s: Seq<u8>, w: int, x0: int, x1: int, y0: int, y1: int)
    requires
        y0 <= y1,
    ensures
        rect_sum(s, w, x0, x1, y0, y1 + 1) == rect_sum(s, w, x0, x1, y0, y1) + row_sum(
            s,
            w,
            y1,
            x0,
            x1,
        ),
    decreases y1 - y0,
{
    if y0 < y1 {
        lemma_rect_sum_extend(s, w, x0, x1, y0 + 1, y1);
    } else {
        reveal_with_fuel(rect_sum, 2);
    }
}

/// A row sum of `n` samples lies between 0 and 255·n.
pub proof fn lemma_row_sum_bounds(s: Seq<u8>, w: int, y: int, x0: int, x1: int)
    requires
        x0 <= x1,
    ensures
        0 <= row_sum(s, w, y, x0, x1) <= 255 * (x1 - x0),
    decreases x1 - x0,
{
    if x0 < x1 {
        lemma_row_sum_bounds(s, w, y, x0 + 1, x1);
    }
}

/// A rectangle sum of `n` samples lies between 0 and 255·n.
pub proof fn lemma_rect_sum_bounds(s: Seq<u8>, w: int, x0: int, x1: int, y0: int, y1: int)
    requires
        x0 <= x1,
        y0 <= y1,
    ensures
        0 <= rect_sum(s, w, x0, x1, y0, y1) <= 255 * (x1 - x0) * (y1 - y0),
    decreases y1 - y0,
{
    if y0 < y1 {
        lemma_rect_sum_bounds(s, w, x0, x1, y0 + 1, y1);
        lemma_row_sum_bounds(s, w, y0, x0, x1);
        assert(255 * (x1 - x0) + 255 * (x1 - x0) * (y1 - y0 - 1) == 255 * (x1 - x0) * (y1 - y0))
            by (nonlinear_arith);
        assert(0 <= 255 * (x1 - x0) * (y1 - y0 - 1)) by (nonlinear_arith)
            requires
                x0 <= x1,
                y0 < y1,
        ;
    } else {
        assert(255 * (x1 - x0) * (y1 - y0) == 0) by (nonlinear_arith)
            requires
                y0 == y1,
        ;
    }
}

/// A row sum over a buffer that is constant except possibly at one index:
/// the constant times the width, corrected by the odd sample where the row
/// segment covers that index.
pub proof fn lemma_row_sum_const_except(
    s: Seq<u8>,
    w: int,
    y: int,
    x0: int,
    x1: int,
    c: u8,
    pos: int,
)
    requires
        x0 <= x1,
        0 <= y * w + x0,
        y * w + x1 <= s.len(),
        forall|i: int| 0 <= i < s.len() && i != pos ==> s[i] == c,
    ensures
        y * w + x0 <= pos < y * w + x1 ==> row_sum(s, w, y, x0, x1) == c * (x1 - x0) - c + s[pos],
        !(y * w + x0 <= pos < y * w + x1) ==> row_sum(s, w, y, x0, x1) == c * (x1 - x0),
    decreases x1 - x0,
{
    if x0 < x1 {
        lemma_row_sum_const_except(s, w, y, x0 + 1, x1, c, pos);
        assert(c * (x1 - x0) == c + c * (x1 - x0 - 1)) by (nonlinear_arith);
    } else {
        assert(c * (x1 - x0) == 0) by (nonlinear_arith)
            requires
                x0 == x1,
        ;
    }
}

/// A rectangle sum over a buffer that is constant except possibly at pixel
/// `(px, py)`: the constant times the area, corrected by the odd sample
/// where the rectangle covers that pixel.
pub proof fn lemma_rect_sum_const_except(
    s: Seq<u8>,
    w: int,
    x0: int,
    x1: int,
    y0: int,
    y1: int,
    c: u8,
    px: int,
    py: int,
)
    requires
        0 <= x0 <= x1 <= w,
        0 <= y0 <= y1,
        y1 * w <= s.len(),
        0 <= px < w,
        0 <= py,
        forall|i: int| 0 <= i < s.len() && i != py * w + px ==> s[i] == c,
    ensures
        x0 <= px < x1 && y0 <= py < y1 ==> rect_sum(s, w, x0, x1, y0, y1) == c * (x1 - x0) * (y1
            - y0) - c + s[py * w + px],
        !(x0 <= px < x1 && y0 <= py < y1) ==> rect_sum(s, w, x0, x1, y0, y1) == c * (x1 - x0) * (y1
            - y0),
    decreases y1 - y0,
{
    if y0 < y1 {
        lemma_rect_sum_const_except(s, w, x0, x1, y0 + 1, y1, c, px, py);
        assert(0 <= y0 * w + x0 && y0 * w + x1 <= (y0 + 1) * w && (y0 + 1) * w <= y1 * w)
            by (nonlinear_arith)
            requires
                0 <= y0,
                0 <= x0 <= x1 <= w,
                y0 < y1,
        ;
        lemma_row_sum_const_except(s, w, y0, x0, x1, c, py * w + px);
        // The odd pixel's index lies in row y0's segment exactly when its
        // row is y0 and its column is inside the segment.
        assert((y0 * w + x0 <= py * w + px < y0 * w + x1) <==> (py == y0 && x0 <= px < x1))
            by (nonlinear_arith)
            requires
                0 <= x0 <= x1 <= w,
                0 <= px < w,
                0 <= py,
                0 <= y0,
        ;
        assert(c * (x1 - x0) * (y1 - y0) == c * (x1 - x0) + c * (x1 - x0) * (y1 - y0 - 1))
            by (nonlinear_arith);
    } else {
        assert(c * (x1 - x0) * (y1 - y0) == 0) by (nonlinear_arith)
            requires
                y0 == y1,
        ;
    }
}

/// A single-channel 8-bit device image: one byte per pixel.
pub open spec fn is_gray8(d: &DeviceImage) -> bool {
    d.order == ChannelOrder::Intensity && d.data_type == ChannelDataType::UnsignedInt8
}

/// A well-formed single-channel 8-bit device image holds exactly one byte
/// per pixel.
pub proof fn lemma_gray8_len(d: &DeviceImage)
    requires
        d.wf(),
        is_gray8(d),
    ensures
        d.data@.len() == d.width as int * d.height as int,
{
    assert(d.data@.len() == d.width as int * d.height as int) by (nonlinear_arith)
        requires
            d.data@.len() == d.width as int * d.height as int * 1 * 1,
    ;
}

/// The threshold kernel body: one work item per byte.
#[verifier::loop_isolation(false)]
fn threshold_bytes(data: &Vec<u8>, t: u8) -> (out: Vec<u8>)
    ensures
        out@ == threshold_map(data@, t),
{
    let mut out: Vec<u8> = Vec::new();
    let mut i: usize = 0;
    while i < data.len()
        invariant
            i <= data@.len(),
            out@.len() == i,
            forall|j: int| 0 <= j < i ==> out@[j] == threshold_pixel(data@[j], t),
        decreases data@.len() - i,
    {
        let v = data[i];
        if v > t {
            out.push(255);
        } else {
            out.push(0);
        }
        i = i + 1;
    }
    proof {
        assert(out@ =~= threshold_map(data@, t));
    }
    out
}

/// The contrast-stretch kernel body: one work item per byte.
#[verifier::loop_isolation(false)]
fn stretch_bytes(data: &Vec<u8>, lower: u8, upper: u8) -> (out: Vec<u8>)
    requires
        lower < upper,
    ensures
        out@ == stretch_map(data@, lower, upper),
{
    let mut out: Vec<u8> = Vec::new();
    let mut i: usize = 0;
    while i < data.len()
        invariant
            i <= data@.len(),
            out@.len() == i,
            forall|j: int| 0 <= j < i ==> out@[j] == stretch_pixel(data@[j], lower, upper),
        decreases data@.len() - i,
    {
        let v = data[i];
        let o: u8 = if v <= lower {
            0
        } else {
            if v >= upper {
                255
            } else {
                let num: u32 = ((v - lower) as u32) * 255;
                let den: u32 = (upper - lower) as u32;
                let q: u32 = num / den;
                proof {
                    assert(q <= 254) by (nonlinear_arith)
                        requires
                            q == num / den,
                            num <= 255 * den - 255,
                            den >= 1,
                    ;
                }
                q as u8
            }
        };
        out.push(o);
        i = i + 1;
    }
    proof {
        assert(out@ =~= stretch_map(data@, lower, upper));
    }
    out
}

/// The adaptive-threshold kernel body: one work item per pixel, each
/// summing its clamped square neighborhood and comparing against the mean.
#[verifier::loop_isolation(false)]
fn adaptive_bytes(data: &Vec<u8>, w: u32, h: u32, r: u32) -> (out: Vec<u8>)
    requires
        data@.len() == w as int * h as int,
    ensures
        out@.len() == data@.len(),
        forall|x: int, y: int|
            0 <= x < w && 0 <= y < h ==> out@[y * (w as int) + x] == adaptive_pixel(
                data@,
                w as int,
                h as int,
                x,
                y,
                r as int,
            ),
{
    let _len: usize = data.len();
    let mut out: Vec<u8> = Vec::new();
    let mut y: u32 = 0;
    while y < h
        invariant
            y <= h,
            out@.len() == y as int * w as int,
            forall|xx: int, yy: int|
                0 <= xx < w && 0 <= yy < y ==> out@[yy * (w as int) + xx] == adaptive_pixel(
                    data@,
                    w as int,
                    h as int,
                    xx,
                    yy,
                    r as int,
                ),
        decreases h - y,
    {
        let mut x: u32 = 0;
        while x < w
            invariant
                x <= w,
                y < h,
                out@.len() == y as int * w as int + x as int,
                forall|xx: int, yy: int|
                    0 <= xx < w && 0 <= yy < y ==> out@[yy * (w as int) + xx] == adaptive_pixel(
                        data@,
                        w as int,
                        h as int,
                        xx,
                        yy,
                        r as int,
                    ),
                forall|xx: int|
                    0 <= xx < x ==> out@[y as int * (w as int) + xx] == adaptive_pixel(
                        data@,
                        w as int,
                        h as int,
                        xx,
                        y as int,
                        r as int,
                    ),
            decreases w - x,
        {
            let x0: u32 = if x >= r {
                x - r
            } else {
                0
            };
            let xs: u64 = x as u64 + r as u64;
            let xhi: u32 = if xs < w as u64 {
                xs as u32
            } else {
                w - 1
            };
            let y0: u32 = if y >= r {
                y - r
            } else {
                0
            };
            let ys: u64 = y as u64 + r as u64;
            let yhi: u32 = if ys < h as u64 {
                ys as u32
            } else {
                h - 1
            };
            proof {
                assert(x0 as int == clamp_lo(x as int, r as int));
                assert(xhi as int == clamp_hi(x as int, r as int, w as int));
                assert(y0 as int == clamp_lo(y as int, r as int));
                assert(yhi as int == clamp_hi(y as int, r as int, h as int));
            }
            let mut sum: u128 = 0;
            let mut yy: u32 = y0;
            while yy <= yhi
                invariant
                    y0 <= yy <= yhi + 1,
                    x0 <= x <= xhi < w,
                    y0 <= y <= yhi < h,
                    sum == rect_sum(
                        data@,
                        w as int,
                        x0 as int,
                        xhi as int + 1,
                        y0 as int,
                        yy as int,
                    ),
                decreases yhi + 1 - yy,
            {
                let mut xx: u32 = x0;
                while xx <= xhi
                    invariant
                        x0 <= xx <= xhi + 1,
                        yy <= yhi,
                        sum == rect_sum(
                            data@,
                            w as int,
                            x0 as int,
                            xhi as int + 1,
                            y0 as int,
                            yy as int,
                        ) + row_sum(data@, w as int, yy as int, x0 as int, xx as int),
                    decreases xhi + 1 - xx,
                {
                    proof {
                        lemma_row_major_index(xx as int, yy as int, w as int, h as int);
                        lemma_rect_sum_bounds(
                            data@,
                            w as int,
                            x0 as int,
                            xhi as int + 1,
                            y0 as int,
                            yy as int,
                        );
                        lemma_row_sum_bounds(data@, w as int, yy as int, x0 as int, xx as int);
                        assert(255 * (xhi as int + 1 - x0 as int) * (yy as int - y0 as int) + 255
                            * (xx as int - x0 as int) <= 0xFFFF_FFFF_FFFF_FFFF_FFFF)
                            by (nonlinear_arith)
                            requires
                                0 <= x0 as int,
                                x0 <= xx <= xhi,
                                xhi < w,
                                w <= u32::MAX,
                                0 <= y0 as int,
                                y0 <= yy <= yhi,
                                yhi < h,
                                h <= u32::MAX,
                        ;
                        lemma_row_sum_extend(data@, w as int, yy as int, x0 as int, xx as int);
                    }
                    let idx: usize = (yy as usize) * (w as usize) + (xx as usize);
                    sum = sum + data[idx] as u128;
                    xx = xx + 1;
                }
                proof {
                    lemma_rect_sum_extend(
                        data@,
                        w as int,
                        x0 as int,
                        xhi as int + 1,
                        y0 as int,
                        yy as int,
                    );
                }
                yy = yy + 1;
            }
            proof {
                assert((xhi as int - x0 as int + 1) * (yhi as int - y0 as int + 1)
                    <= 0xFFFF_FFFE_0000_0001) by (nonlinear_arith)
                    requires
                        0 <= xhi as int - x0 as int + 1 <= u32::MAX,
                        0 <= yhi as int - y0 as int + 1 <= u32::MAX,
                ;
                lemma_row_major_index(x as int, y as int, w as int, h as int);
            }
            let count: u64 = ((xhi - x0) as u64 + 1) * ((yhi - y0) as u64 + 1);
            let idx: usize = (y as usize) * (w as usize) + (x as usize);
            let v = data[idx];
            proof {
                assert((v as int) * (count as int) <= 0xFFFF_FFFF_FFFF_FFFF_FFFF)
                    by (nonlinear_arith)
                    requires
                        0 <= v as int <= 255,
                        0 <= count as int <= 0xFFFF_FFFE_0000_0001,
                ;
            }
            let o: u8 = if (v as u128) * (count as u128) >= sum {
                255
            } else {
                0
            };
            proof {
                assert(count as int == nbhd_count(w as int, h as int, x as int, y as int, r as int));
                assert(sum as int == nbhd_sum(data@, w as int, h as int, x as int, y as int, r as int));
                assert(o == adaptive_pixel(data@, w as int, h as int, x as int, y as int, r as int));
            }
            out.push(o);
            proof {
                assert forall|xx: int, yy: int|
                    0 <= xx < w && 0 <= yy < y implies #[trigger] (yy * (w as int) + xx) < y as int
                    * (w as int) by {
                    lemma_row_major_index(xx, yy, w as int, y as int);
                    assert(w as int * y as int == y as int * (w as int)) by (nonlinear_arith);
                }
            }
            x = x + 1;
        }
        proof {
            assert((y as int + 1) * (w as int) == y as int * w as int + w as int)
                by (nonlinear_arith);
        }
        y = y + 1;
    }
    proof {
        assert(h as int * w as int == w as int * h as int) by (nonlinear_arith);
        assert(out@.len() == data@.len());
    }
    out
}

/// Runs an invocation of a source-to-destination entry point over a source
/// device image, filling a destination of the same dimensions and format.
/// Enqueueing is followed by completion before return, so the caller sees
/// a synchronous dispatch; the destination afterwards holds exactly what
/// the entry point's per-pixel rule gives, every other part of it
/// unchanged.
pub fn dispatch(inv: &KernelInvocation, src: &DeviceImage, dest: &mut DeviceImage)
    requires
        inv.wf(),
        inv.entry != KernelEntry::ThresholdMut,
        is_gray8(src),
        src.wf(),
        is_gray8(old(dest)),
        old(dest).wf(),
        old(dest).width == src.width,
        old(dest).height == src.height,
        inv.width == src.width,
        inv.height == src.height,
        inv.entry == KernelEntry::Threshold ==> inv.args@[0] <= 255,
        inv.entry == KernelEntry::StretchContrast ==> inv.args@[0] < inv.args@[1] <= 255,
    ensures
        final(dest).order == old(dest).order,
        final(dest).data_type == old(dest).data_type,
        final(dest).width == old(dest).width,
        final(dest).height == old(dest).height,
        final(dest).access == old(dest).access,
        final(dest).wf(),
        match inv.entry {
            KernelEntry::Threshold => final(dest).data@ == threshold_map(
                src.data@,
                inv.args@[0] as u8,
            ),
            KernelEntry::AdaptiveThreshold => final(dest).data@.len() == src.data@.len()
                && (forall|x: int, y: int|
                0 <= x < src.width && 0 <= y < src.height ==> final(dest).data@[y * (
                src.width as int) + x] == adaptive_pixel(
                    src.data@,
                    src.width as int,
                    src.height as int,
                    x,
                    y,
                    inv.args@[0] as int,
                )),
            KernelEntry::StretchContrast => final(dest).data@ == stretch_map(
                src.data@,
                inv.args@[0] as u8,
                inv.args@[1] as u8,
            ),
            KernelEntry::ThresholdMut => false,
        },
{
    proof {
        lemma_gray8_len(src);
        lemma_gray8_len(old(dest));
    }
    let new_data: Vec<u8> = match inv.entry {
        KernelEntry::Threshold => threshold_bytes(&src.data, inv.args[0] as u8),
        KernelEntry::AdaptiveThreshold => adaptive_bytes(
            &src.data,
            src.width,
            src.height,
            inv.args[0],
        ),
        KernelEntry::StretchContrast => stretch_bytes(
            &src.data,
            inv.args[0] as u8,
            inv.args[1] as u8,
        ),
        KernelEntry::ThresholdMut => {
            proof {
                assert(false);
            }
            Vec::new()
        },
    };
    dest.data = new_data;
    proof {
        lemma_gray8_len(src);
        assert(dest.data@.len() == dest.width as int * dest.height as int * 1 * 1)
            by (nonlinear_arith)
            requires
                dest.data@.len() == dest.width as int * dest.height as int,
        ;
    }
}

/// Runs the in-place entry point: a single read-write device image is both
/// the kernel's source and its destination, so no second allocation is
/// made. Afterwards the image holds its own pixels put through the
/// threshold rule; everything else about it is unchanged.
pub fn dispatch_mut(inv: &KernelInvocation, img: &mut DeviceImage)
    requires
        inv.wf(),
        inv.entry == KernelEntry::ThresholdMut,
        is_gray8(old(img)),
        old(img).wf(),
        inv.width == old(img).width,
        inv.height == old(img).height,
        inv.args@[0] <= 255,
    ensures
        final(img).order == old(img).order,
        final(img).data_type == old(img).data_type,
        final(img).width == old(img).width,
        final(img).height == old(img).height,
        final(img).access == old(img).access,
        final(img).wf(),
        final(img).data@ == threshold_map(old(img).data@, inv.args@[0] as u8),
{
    let new_data = threshold_bytes(&img.data, inv.args[0] as u8);
    img.data = new_data;
    proof {
        assert(img.data@.len() == img.width as int * img.height as int * 1 * 1)
            by (nonlinear_arith)
            requires
                img.data@.len() == img.width as int * img.height as int,
        ;
    }
}

} // verus!
