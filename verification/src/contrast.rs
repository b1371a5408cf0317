//! The contrast operations: binary threshold (into a fresh image and in
//! place), adaptive threshold, and contrast stretch. Every operation
//! follows the same protocol: allocate device images mirroring the host
//! image, build one kernel invocation with the global work size set to the
//! image dimensions, dispatch it, and read the result back. The laws the
//! operations obey stand below the `impl`.

use vstd::prelude::*;
use crate::{ExecError, Executor, Feature};
use crate::image::{lemma_row_major_index, GrayImage};
use crate::kernel::{
    adaptive_pixel, clamp_hi, clamp_lo, dispatch, dispatch_mut, lemma_rect_sum_const_except,
    nbhd_count, nbhd_sum, stretch_map, threshold_map, KernelEntry, KernelInvocation,
};
use crate::marshal::{device_to_host, Access};

verus! {

impl Executor {
    /// Binary threshold into a fresh image: every output pixel is 255
    /// where the input pixel exceeds the threshold and 0 where it does
    /// not; the dimensions are the input's. Fails exactly when the
    /// contrast feature was not enabled at construction.
    pub fn threshold(&self, img: &GrayImage, threshold: u8) -> (r: Result<GrayImage, ExecError>)
        requires
            self.wf(),
            img.wf(),
        ensures
            r is Ok <==> self.enabled(Feature::Contrast),
            r is Err ==> r == Err::<GrayImage, ExecError>(ExecError::FeatureNotEnabled),
            r is Ok ==> {
                let out = r.unwrap();
                &&& out.wf()
                &&& out.spec_width() == img.spec_width()
                &&& out.spec_height() == img.spec_height()
                &&& out@ == threshold_map(img@, threshold)
            },
    {
        let _program = match self.get_program(&Feature::Contrast) {
            Ok(p) => p,
            Err(e) => {
                return Err(e);
            },
        };
        let host = img.to_host();
        let src = match self.alloc_img(&host, Some(Access::ReadOnly)) {
            Ok(d) => d,
            Err(e) => {
                proof {
                    assert(false);
                }
                return Err(e);
            },
        };
        let mut dest = match self.alloc_img(&host, Some(Access::WriteOnly)) {
            Ok(d) => d,
            Err(e) => {
                proof {
                    assert(false);
                }
                return Err(e);
            },
        };
        let dims = img.dimensions();
        let mut args: Vec<u32> = Vec::new();
        args.push(threshold as u32);
        let inv = match KernelInvocation::build(KernelEntry::Threshold, dims, args) {
            Ok(i) => i,
            Err(e) => {
                proof {
                    assert(false);
                }
                return Err(e);
            },
        };
        dispatch(&inv, &src, &mut dest);
        let out_bytes = device_to_host(&dest);
        match GrayImage::from_raw(dims.0, dims.1, out_bytes) {
            Some(out) => Ok(out),
            None => {
                proof {
                    assert(false);
                }
                Err(ExecError::KernelBuild)
            },
        }
    }

    /// Binary threshold in place: the same rule as `threshold`, but run on
    /// a single read-write device copy backing the caller's buffer, which
    /// is overwritten with the result. Fails exactly when the contrast
    /// feature was not enabled, leaving the buffer untouched.
    pub fn threshold_mut(&self, img: &mut GrayImage, threshold: u8) -> (r: Result<(), ExecError>)
        requires
            self.wf(),
            old(img).wf(),
        ensures
            r is Ok <==> self.enabled(Feature::Contrast),
            r is Err ==> r == Err::<(), ExecError>(ExecError::FeatureNotEnabled) && *final(img)
                == *old(img),
            r is Ok ==> {
                &&& final(img).wf()
                &&& final(img).spec_width() == old(img).spec_width()
                &&& final(img).spec_height() == old(img).spec_height()
                &&& final(img)@ == threshold_map(old(img)@, threshold)
            },
    {
        let host = img.to_host();
        let mut dev = match self.alloc_img(&host, None) {
            Ok(d) => d,
            Err(e) => {
                proof {
                    assert(false);
                }
                return Err(e);
            },
        };
        let _program = match self.get_program(&Feature::Contrast) {
            Ok(p) => p,
            Err(e) => {
                return Err(e);
            },
        };
        let dims = img.dimensions();
        let mut args: Vec<u32> = Vec::new();
        args.push(threshold as u32);
        let inv = match KernelInvocation::build(KernelEntry::ThresholdMut, dims, args) {
            Ok(i) => i,
            Err(e) => {
                proof {
                    assert(false);
                }
                return Err(e);
            },
        };
        dispatch_mut(&inv, &mut dev);
        let out_bytes = device_to_host(&dev);
        img.replace_data(out_bytes);
        Ok(())
    }

    /// Adaptive threshold into a fresh image: every output pixel is 255
    /// where the input pixel is at least the exact mean of its square
    /// neighborhood of half-width `block_radius`, clamped at the image
    /// borders (ties pass), and 0 where it is below. A zero radius is an
    /// invalid parameter; the feature check follows it.
    pub fn adaptive_threshold(&self, img: &GrayImage, block_radius: u32) -> (r: Result<
        GrayImage,
        ExecError,
    >)
        requires
            self.wf(),
            img.wf(),
        ensures
            r is Ok <==> block_radius > 0 && self.enabled(Feature::Contrast),
            block_radius == 0 ==> r == Err::<GrayImage, ExecError>(ExecError::InvalidParam),
            block_radius > 0 && !self.enabled(Feature::Contrast) ==> r == Err::<
                GrayImage,
                ExecError,
            >(ExecError::FeatureNotEnabled),
            r is Ok ==> {
                let out = r.unwrap();
                &&& out.wf()
                &&& out.spec_width() == img.spec_width()
                &&& out.spec_height() == img.spec_height()
                &&& forall|x: int, y: int|
                    0 <= x < img.spec_width() && 0 <= y < img.spec_height() ==> out.pixel(x, y)
                        == adaptive_pixel(
                        img@,
                        img.spec_width() as int,
                        img.spec_height() as int,
                        x,
                        y,
                        block_radius as int,
                    )
            },
    {
        if block_radius == 0 {
            return Err(ExecError::InvalidParam);
        }
        let _program = match self.get_program(&Feature::Contrast) {
            Ok(p) => p,
            Err(e) => {
                return Err(e);
            },
        };
        let host = img.to_host();
        let src = match self.alloc_img(&host, Some(Access::ReadOnly)) {
            Ok(d) => d,
            Err(e) => {
                proof {
                    assert(false);
                }
                return Err(e);
            },
        };
        let mut dest = match self.alloc_img(&host, Some(Access::WriteOnly)) {
            Ok(d) => d,
            Err(e) => {
                proof {
                    assert(false);
                }
                return Err(e);
            },
        };
        let dims = img.dimensions();
        let mut args: Vec<u32> = Vec::new();
        args.push(block_radius);
        let inv = match KernelInvocation::build(KernelEntry::AdaptiveThreshold, dims, args) {
            Ok(i) => i,
            Err(e) => {
                proof {
                    assert(false);
                }
                return Err(e);
            },
        };
        dispatch(&inv, &src, &mut dest);
        let out_bytes = device_to_host(&dest);
        match GrayImage::from_raw(dims.0, dims.1, out_bytes) {
            Some(out) => {
                proof {
                    assert forall|x: int, y: int|
                        0 <= x < img.spec_width() && 0 <= y < img.spec_height() implies out.pixel(
                        x,
                        y,
                    ) == adaptive_pixel(
                        img@,
                        img.spec_width() as int,
                        img.spec_height() as int,
                        x,
                        y,
                        block_radius as int,
                    ) by {
                        assert(dest.data@[y * (src.width as int) + x] == adaptive_pixel(
                            src.data@,
                            src.width as int,
                            src.height as int,
                            x,
                            y,
                            inv.args@[0] as int,
                        ));
                    }
                }
                Ok(out)
            },
            None => {
                proof {
                    assert(false);
                }
                Err(ExecError::KernelBuild)
            },
        }
    }

    /// Contrast stretch into a fresh image: every output pixel is 0 at or
    /// below the lower bound, 255 at or above the upper bound, and in
    /// between lies on the linear ramp from 0 to 255 over the open
    /// interval. Bounds with `upper <= lower` are an invalid parameter;
    /// the feature check follows it.
    pub fn stretch_contrast(&self, img: &GrayImage, lower: u8, upper: u8) -> (r: Result<
        GrayImage,
        ExecError,
    >)
        requires
            self.wf(),
            img.wf(),
        ensures
            r is Ok <==> lower < upper && self.enabled(Feature::Contrast),
            upper <= lower ==> r == Err::<GrayImage, ExecError>(ExecError::InvalidParam),
            lower < upper && !self.enabled(Feature::Contrast) ==> r == Err::<
                GrayImage,
                ExecError,
            >(ExecError::FeatureNotEnabled),
            r is Ok ==> {
                let out = r.unwrap();
                &&& out.wf()
                &&& out.spec_width() == img.spec_width()
                &&& out.spec_height() == img.spec_height()
                &&& out@ == stretch_map(img@, lower, upper)
            },
    {
        if upper <= lower {
            return Err(ExecError::InvalidParam);
        }
        let _program = match self.get_program(&Feature::Contrast) {
            Ok(p) => p,
            Err(e) => {
                return Err(e);
            },
        };
        let host = img.to_host();
        let src = match self.alloc_img(&host, Some(Access::ReadOnly)) {
            Ok(d) => d,
            Err(e) => {
                proof {
                    assert(false);
                }
                return Err(e);
            },
        };
        let mut dest = match self.alloc_img(&host, Some(Access::WriteOnly)) {
            Ok(d) => d,
            Err(e) => {
                proof {
                    assert(false);
                }
                return Err(e);
            },
        };
        let dims = img.dimensions();
        let mut args: Vec<u32> = Vec::new();
        args.push(lower as u32);
        args.push(upper as u32);
        let inv = match KernelInvocation::build(KernelEntry::StretchContrast, dims, args) {
            Ok(i) => i,
            Err(e) => {
                proof {
                    assert(false);
                }
                return Err(e);
            },
        };
        dispatch(&inv, &src, &mut dest);
        let out_bytes = device_to_host(&dest);
        match GrayImage::from_raw(dims.0, dims.1, out_bytes) {
            Some(out) => Ok(out),
            None => {
                proof {
                    assert(false);
                }
                Err(ExecError::KernelBuild)
            },
        }
    }
}

/// The threshold rule, pixel by pixel: the output has the input's length,
/// is 255 exactly where the input exceeds the threshold, and 0 exactly
/// where it does not.
pub proof fn lemma_threshold_rule(s: Seq<u8>, t: u8)
    ensures
        threshold_map(s, t).len() == s.len(),
        forall|i: int| 0 <= i < s.len() ==> (threshold_map(s, t)[i] == 255 <==> s[i] > t),
        forall|i: int| 0 <= i < s.len() ==> (threshold_map(s, t)[i] == 0 <==> s[i] <= t),
{
}

/// Thresholding in place and thresholding into a fresh image are both
/// specified by `threshold_map` of the source, so on one source and one
/// threshold their results are pixel-identical: only where the result is
/// written differs.
pub proof fn lemma_threshold_mut_matches_threshold(
    s: Seq<u8>,
    t: u8,
    fresh: Seq<u8>,
    inplace: Seq<u8>,
)
    requires
        fresh == threshold_map(s, t),
        inplace == threshold_map(s, t),
    ensures
        fresh == inplace,
{
}

/// The contrast-stretch rule, pixel by pixel: 0 at or below the lower
/// bound, 255 at or above the upper bound, and the linear ramp
/// `(v - lower) * 255 / (upper - lower)` strictly in between; the length is
/// the input's.
pub proof fn lemma_stretch_rule(s: Seq<u8>, lower: u8, upper: u8)
    requires
        lower < upper,
    ensures
        stretch_map(s, lower, upper).len() == s.len(),
        forall|i: int|
            0 <= i < s.len() && s[i] <= lower ==> stretch_map(s, lower, upper)[i] == 0,
        forall|i: int|
            0 <= i < s.len() && s[i] >= upper ==> stretch_map(s, lower, upper)[i] == 255,
        forall|i: int|
            0 <= i < s.len() && lower < s[i] < upper ==> stretch_map(s, lower, upper)[i] == (((
            s[i] - lower) * 255) / (upper - lower)) as u8,
{
}

/// Adaptive thresholding a constant image yields an all-255 image,
/// whatever the radius: every pixel equals its clamped neighborhood mean
/// exactly, and ties pass.
pub proof fn lemma_adaptive_constant(s: Seq<u8>, w: int, h: int, c: u8, r: int)
    requires
        w >= 1,
        h >= 1,
        s.len() == w * h,
        r >= 0,
        forall|i: int| 0 <= i < s.len() ==> s[i] == c,
    ensures
        forall|x: int, y: int|
            0 <= x < w && 0 <= y < h ==> adaptive_pixel(s, w, h, x, y, r) == 255,
{
    assert forall|x: int, y: int|
        0 <= x < w && 0 <= y < h implies adaptive_pixel(s, w, h, x, y, r) == 255 by {
        let x0 = clamp_lo(x, r);
        let x1 = clamp_hi(x, r, w) + 1;
        let y0 = clamp_lo(y, r);
        let y1 = clamp_hi(y, r, h) + 1;
        assert(y1 * w <= s.len()) by (nonlinear_arith)
            requires
                0 <= y1 <= h,
                w >= 0,
                s.len() == w * h,
        ;
        lemma_row_major_index(x, y, w, h);
        lemma_rect_sum_const_except(s, w, x0, x1, y0, y1, c, x, y);
        assert(c * ((x1 - x0) * (y1 - y0)) == c * (x1 - x0) * (y1 - y0)) by (nonlinear_arith);
        assert(s[y * w + x] * nbhd_count(w, h, x, y, r) >= nbhd_sum(s, w, h, x, y, r));
    }
}

/// Adaptive thresholding an image that is constant but for one darker
/// pixel: the darker pixel falls below its clamped neighborhood mean and
/// becomes 0, and every other pixel — a neighbor of the darker pixel or
/// not — stays at or above its mean and becomes 255. A lone pixel is its
/// own whole neighborhood and would pass, so the image must have at least
/// two pixels.
pub proof fn lemma_adaptive_one_darker(
    s: Seq<u8>,
    w: int,
    h: int,
    c: u8,
    d: u8,
    px: int,
    py: int,
    r: int,
)
    requires
        w >= 1,
        h >= 1,
        w * h >= 2,
        s.len() == w * h,
        0 <= px < w,
        0 <= py < h,
        r >= 1,
        d < c,
        s[py * w + px] == d,
        forall|i: int| 0 <= i < s.len() && i != py * w + px ==> s[i] == c,
    ensures
        adaptive_pixel(s, w, h, px, py, r) == 0,
        forall|x: int, y: int|
            0 <= x < w && 0 <= y < h && !(x == px && y == py) ==> adaptive_pixel(s, w, h, x, y, r)
                == 255,
{
    assert(w >= 2 || h >= 2) by (nonlinear_arith)
        requires
            w >= 1,
            h >= 1,
            w * h >= 2,
    ;
    // The darker pixel itself.
    let x0 = clamp_lo(px, r);
    let x1 = clamp_hi(px, r, w) + 1;
    let y0 = clamp_lo(py, r);
    let y1 = clamp_hi(py, r, h) + 1;
    assert(y1 * w <= s.len()) by (nonlinear_arith)
        requires
            0 <= y1 <= h,
            w >= 0,
            s.len() == w * h,
    ;
    lemma_rect_sum_const_except(s, w, x0, x1, y0, y1, c, px, py);
    let count = nbhd_count(w, h, px, py, r);
    assert(x1 - x0 >= 2 || y1 - y0 >= 2);
    assert(count >= 2) by (nonlinear_arith)
        requires
            count == (x1 - x0) * (y1 - y0),
            x1 - x0 >= 1,
            y1 - y0 >= 1,
            x1 - x0 >= 2 || y1 - y0 >= 2,
    ;
    assert(c * ((x1 - x0) * (y1 - y0)) == c * (x1 - x0) * (y1 - y0)) by (nonlinear_arith);
    assert(d * count < c * count - c + d) by (nonlinear_arith)
        requires
            count >= 2,
            d < c,
    ;
    assert(adaptive_pixel(s, w, h, px, py, r) == 0);
    // Every other pixel.
    assert forall|x: int, y: int|
        0 <= x < w && 0 <= y < h && !(x == px && y == py) implies adaptive_pixel(s, w, h, x, y, r)
        == 255 by {
        let ox0 = clamp_lo(x, r);
        let ox1 = clamp_hi(x, r, w) + 1;
        let oy0 = clamp_lo(y, r);
        let oy1 = clamp_hi(y, r, h) + 1;
        assert(oy1 * w <= s.len()) by (nonlinear_arith)
            requires
                0 <= oy1 <= h,
                w >= 0,
                s.len() == w * h,
        ;
        lemma_row_major_index(x, y, w, h);
        assert(y * w + x != py * w + px) by (nonlinear_arith)
            requires
                0 <= x < w,
                0 <= px < w,
                0 <= y,
                0 <= py,
                !(x == px && y == py),
        ;
        lemma_rect_sum_const_except(s, w, ox0, ox1, oy0, oy1, c, px, py);
        assert(c * ((ox1 - ox0) * (oy1 - oy0)) == c * (ox1 - ox0) * (oy1 - oy0))
            by (nonlinear_arith);
        assert(s[y * w + x] * nbhd_count(w, h, x, y, r) >= nbhd_sum(s, w, h, x, y, r));
    }
}

} // verus!
