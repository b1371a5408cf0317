//! Host-side image buffers: a single-channel 8-bit image the operations
//! work on, and a general row-major buffer with an explicit layout for the
//! marshaler. Both are plain width × height × samples records whose length
//! invariant every constructor establishes and every method preserves.

use vstd::prelude::*;
use crate::format::{spec_bytes_per_sample, spec_channels, ColorLayout};

verus! {

/// `y * w + x < w * h` whenever `x < w` and `y < h`: the row-major index of
/// an in-bounds pixel is in bounds.
pub proof fn lemma_row_major_index(x: int, y: int, w: int, h: int) by (nonlinear_arith)
    requires
        0 <= x < w,
        0 <= y < h,
    ensures
        0 <= y * w + x < w * h,
{
}

/// A single-channel 8-bit image: one intensity sample per pixel, rows
/// stored contiguously, pixel `(x, y)` at index `y * width + x`.
#[derive(Debug)]
pub struct GrayImage {
    width: u32,
    height: u32,
    data: Vec<u8>,
}

impl View for GrayImage {
    type V = Seq<u8>;

    /// The pixel buffer in row-major order.
    closed spec fn view(&self) -> Seq<u8> {
        self.data@
    }
}

impl GrayImage {
    pub closed spec fn spec_width(&self) -> u32 {
        self.width
    }

    pub closed spec fn spec_height(&self) -> u32 {
        self.height
    }

    /// The buffer holds exactly one sample per pixel.
    pub open spec fn wf(&self) -> bool {
        self@.len() == self.spec_width() as int * self.spec_height() as int
    }

    /// The intensity at pixel `(x, y)`.
    pub open spec fn pixel(&self, x: int, y: int) -> u8
        recommends
            self.wf(),
            0 <= x < self.spec_width(),
            0 <= y < self.spec_height(),
    {
        self@[y * self.spec_width() as int + x]
    }

    /// Builds a constant image: every pixel at the given intensity.
    pub fn from_pixel(width: u32, height: u32, value: u8) -> (img: GrayImage)
        requires
            width as int * height as int <= usize::MAX as int,
        ensures
            img.wf(),
            img.spec_width() == width,
            img.spec_height() == height,
            forall|i: int| 0 <= i < img@.len() ==> img@[i] == value,
    {
        let n: usize = (width as usize) * (height as usize);
        let mut data: Vec<u8> = Vec::new();
        let mut i: usize = 0;
        while i < n
            invariant
                i <= n,
                data@.len() == i,
                forall|j: int| 0 <= j < i ==> data@[j] == value,
            decreases n - i,
        {
            data.push(value);
            i = i + 1;
        }
        GrayImage { width, height, data }
    }

    /// Adopts a raw row-major buffer; fails exactly when its length does
    /// not match the dimensions.
    pub fn from_raw(width: u32, height: u32, data: Vec<u8>) -> (r: Option<GrayImage>)
        ensures
            r is Some <==> data@.len() == width as int * height as int,
            r is Some ==> {
                let img = r.unwrap();
                &&& img.wf()
                &&& img.spec_width() == width
                &&& img.spec_height() == height
                &&& img@ == data@
            },
    {
        proof {
            lemma_pixel_count_bound(width as int, height as int);
        }
        let expected: u64 = (width as u64) * (height as u64);
        if data.len() as u64 == expected {
            Some(GrayImage { width, height, data })
        } else {
            None
        }
    }

    pub fn width(&self) -> (w: u32)
        ensures
            w == self.spec_width(),
    {
        self.width
    }

    pub fn height(&self) -> (h: u32)
        ensures
            h == self.spec_height(),
    {
        self.height
    }

    /// Width and height, in that order.
    pub fn dimensions(&self) -> (d: (u32, u32))
        ensures
            d.0 == self.spec_width(),
            d.1 == self.spec_height(),
    {
        (self.width, self.height)
    }

    /// The intensity at pixel `(x, y)`.
    pub fn get_pixel(&self, x: u32, y: u32) -> (v: u8)
        requires
            self.wf(),
            x < self.spec_width(),
            y < self.spec_height(),
        ensures
            v == self.pixel(x as int, y as int),
    {
        let _len: usize = self.data.len();
        proof {
            lemma_row_major_index(
                x as int,
                y as int,
                self.spec_width() as int,
                self.spec_height() as int,
            );
        }
        let idx: usize = (y as usize) * (self.width as usize) + (x as usize);
        self.data[idx]
    }

    /// Overwrites the intensity at pixel `(x, y)`; every other pixel and
    /// the dimensions are unchanged.
    pub fn put_pixel(&mut self, x: u32, y: u32, value: u8)
        requires
            old(self).wf(),
            x < old(self).spec_width(),
            y < old(self).spec_height(),
        ensures
            final(self).wf(),
            final(self).spec_width() == old(self).spec_width(),
            final(self).spec_height() == old(self).spec_height(),
            final(self)@ == old(self)@.update(
                y as int * old(self).spec_width() as int + x as int,
                value,
            ),
    {
        let _len: usize = self.data.len();
        proof {
            lemma_row_major_index(
                x as int,
                y as int,
                self.spec_width() as int,
                self.spec_height() as int,
            );
        }
        let idx: usize = (y as usize) * (self.width as usize) + (x as usize);
        self.data.set(idx, value);
    }

    /// Overwrites the whole pixel buffer with a same-length buffer read
    /// back from the device; the dimensions are unchanged.
    pub(crate) fn replace_data(&mut self, data: Vec<u8>)
        requires
            old(self).wf(),
            data@.len() == old(self)@.len(),
        ensures
            final(self).wf(),
            final(self).spec_width() == old(self).spec_width(),
            final(self).spec_height() == old(self).spec_height(),
            final(self)@ == data@,
    {
        self.data = data;
    }

    /// The same pixels as a general host buffer with the single-channel
    /// 8-bit layout, ready for the marshaler.
    pub fn to_host(&self) -> (h: HostImage)
        requires
            self.wf(),
        ensures
            h.wf(),
            h.layout == ColorLayout::L8,
            h.spec_width() == self.spec_width(),
            h.spec_height() == self.spec_height(),
            h.data@ == self@,
    {
        let h = HostImage {
            width: self.width,
            height: self.height,
            layout: ColorLayout::L8,
            data: clone_bytes(&self.data),
        };
        proof {
            assert(spec_channels(ColorLayout::L8) == 1);
            assert(spec_bytes_per_sample(ColorLayout::L8) == 1);
            assert(h.data@.len() == self.spec_width() as int * self.spec_height() as int * 1 * 1)
                by (nonlinear_arith)
                requires
                    h.data@.len() == self.spec_width() as int * self.spec_height() as int,
            ;
        }
        h
    }
}

/// The pixel count of an image with 32-bit dimensions fits in 64 bits.
proof fn lemma_pixel_count_bound(w: int, h: int) by (nonlinear_arith)
    requires
        0 <= w <= u32::MAX,
        0 <= h <= u32::MAX,
    ensures
        0 <= w * h <= 0xFFFF_FFFE_0000_0001,
{
}

/// A byte-for-byte copy of a sample buffer.
pub(crate) fn clone_bytes(data: &Vec<u8>) -> (r: Vec<u8>)
    ensures
        r@ == data@,
{
    let mut out: Vec<u8> = Vec::new();
    let mut i: usize = 0;
    while i < data.len()
        invariant
            i <= data@.len(),
            out@ == data@.take(i as int),
        decreases data@.len() - i,
    {
        out.push(data[i]);
        proof {
            assert(out@ == data@.take(i as int + 1));
        }
        i = i + 1;
    }
    proof {
        assert(data@.take(data@.len() as int) == data@);
    }
    out
}

/// A general host image buffer: row-major samples under an explicit pixel
/// layout. This is what the marshaler uploads and what a device read-back
/// fills.
#[derive(Debug)]
pub struct HostImage {
    pub width: u32,
    pub height: u32,
    pub layout: ColorLayout,
    pub data: Vec<u8>,
}

impl HostImage {
    pub open spec fn spec_width(&self) -> u32 {
        self.width
    }

    pub open spec fn spec_height(&self) -> u32 {
        self.height
    }

    /// The buffer holds exactly width × height pixels of the layout's size.
    pub open spec fn wf(&self) -> bool {
        self.data@.len() == self.width as int * self.height as int
            * spec_channels(self.layout) * spec_bytes_per_sample(self.layout)
    }

    /// Adopts a raw sample buffer; fails exactly when its length does not
    /// match the dimensions and layout.
    pub fn from_raw(width: u32, height: u32, layout: ColorLayout, data: Vec<u8>) -> (r: Option<
        HostImage,
    >)
        ensures
            r is Some <==> data@.len() == width as int * height as int * spec_channels(layout)
                * spec_bytes_per_sample(layout),
            r is Some ==> {
                let img = r.unwrap();
                &&& img.wf()
                &&& img.width == width
                &&& img.height == height
                &&& img.layout == layout
                &&& img.data@ == data@
            },
    {
        let ch = crate::format::channels(&layout);
        let bps = crate::format::bytes_per_sample(&layout);
        proof {
            lemma_sample_count_fits(width as int, height as int, ch as int, bps as int);
        }
        let expected: u128 = (width as u128) * (height as u128) * (ch as u128) * (bps as u128);
        if data.len() as u128 == expected {
            Some(HostImage { width, height, layout, data })
        } else {
            None
        }
    }
}

/// The sample count of an image with 32-bit dimensions, at most 4 channels
/// of at most 2 bytes each, fits in 68 bits.
proof fn lemma_sample_count_fits(w: int, h: int, ch: int, bps: int) by (nonlinear_arith)
    requires
        0 <= w <= u32::MAX,
        0 <= h <= u32::MAX,
        0 <= ch <= 4,
        0 <= bps <= 2,
    ensures
        0 <= w * h * ch * bps <= 0xF_FFFF_FFFF_FFFF_FFFF,
{
}

} // verus!
