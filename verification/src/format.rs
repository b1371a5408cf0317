//! The host-pixel-layout to device-image-format table. The mapping is a
//! pure function of the host layout (channel count and bit depth); a layout
//! with no device analogue is rejected explicitly, never coerced.

use vstd::prelude::*;
use crate::ExecError;

verus! {

/// A host pixel layout: channel arrangement plus bit depth, as a host
/// image buffer declares it.
#[derive(Clone, Copy, Debug, PartialEq, Eq, Structural)]
pub enum ColorLayout {
    L8,
    La8,
    Rgb8,
    Rgba8,
    L16,
    La16,
    Rgb16,
    Rgba16,
    Bgr8,
    Bgra8,
}

/// A device image's channel order.
#[derive(Clone, Copy, Debug, PartialEq, Eq, Structural)]
pub enum ChannelOrder {
    Intensity,
    Luminance,
    Rgb,
    Rgba,
    Bgra,
}

/// A device image's per-sample data type.
#[derive(Clone, Copy, Debug, PartialEq, Eq, Structural)]
pub enum ChannelDataType {
    UnsignedInt8,
    UnsignedInt16,
}

/// Samples per pixel of a host layout.
pub open spec fn spec_channels(l: ColorLayout) -> nat {
    match l {
        ColorLayout::L8 => 1,
        ColorLayout::La8 => 2,
        ColorLayout::Rgb8 => 3,
        ColorLayout::Rgba8 => 4,
        ColorLayout::L16 => 1,
        ColorLayout::La16 => 2,
        ColorLayout::Rgb16 => 3,
        ColorLayout::Rgba16 => 4,
        ColorLayout::Bgr8 => 3,
        ColorLayout::Bgra8 => 4,
    }
}

/// Bytes per sample of a host layout (bit depth divided by eight).
pub open spec fn spec_bytes_per_sample(l: ColorLayout) -> nat {
    match l {
        ColorLayout::L8 => 1,
        ColorLayout::La8 => 1,
        ColorLayout::Rgb8 => 1,
        ColorLayout::Rgba8 => 1,
        ColorLayout::L16 => 2,
        ColorLayout::La16 => 2,
        ColorLayout::Rgb16 => 2,
        ColorLayout::Rgba16 => 2,
        ColorLayout::Bgr8 => 1,
        ColorLayout::Bgra8 => 1,
    }
}

/// Samples per pixel of a device channel order.
pub open spec fn spec_order_channels(o: ChannelOrder) -> nat {
    match o {
        ChannelOrder::Intensity => 1,
        ChannelOrder::Luminance => 2,
        ChannelOrder::Rgb => 3,
        ChannelOrder::Rgba => 4,
        ChannelOrder::Bgra => 4,
    }
}

/// Bytes per sample of a device data type.
pub open spec fn spec_type_bytes(t: ChannelDataType) -> nat {
    match t {
        ChannelDataType::UnsignedInt8 => 1,
        ChannelDataType::UnsignedInt16 => 2,
    }
}

/// The format table: the device channel order and data type that mirror a
/// host layout, or `None` where the layout has no device analogue.
pub open spec fn spec_device_format(l: ColorLayout) -> Option<(ChannelOrder, ChannelDataType)> {
    match l {
        ColorLayout::L8 => Some((ChannelOrder::Intensity, ChannelDataType::UnsignedInt8)),
        ColorLayout::La8 => Some((ChannelOrder::Luminance, ChannelDataType::UnsignedInt8)),
        ColorLayout::Rgb8 => Some((ChannelOrder::Rgb, ChannelDataType::UnsignedInt8)),
        ColorLayout::Rgba8 => Some((ChannelOrder::Rgba, ChannelDataType::UnsignedInt8)),
        ColorLayout::L16 => Some((ChannelOrder::Intensity, ChannelDataType::UnsignedInt16)),
        ColorLayout::La16 => Some((ChannelOrder::Luminance, ChannelDataType::UnsignedInt16)),
        ColorLayout::Rgb16 => Some((ChannelOrder::Rgb, ChannelDataType::UnsignedInt16)),
        ColorLayout::Rgba16 => Some((ChannelOrder::Rgba, ChannelDataType::UnsignedInt16)),
        ColorLayout::Bgr8 => None,
        ColorLayout::Bgra8 => Some((ChannelOrder::Bgra, ChannelDataType::UnsignedInt8)),
    }
}

/// Samples per pixel of a host layout.
pub fn channels(l: &ColorLayout) -> (n: u8)
    ensures
        n == spec_channels(*l),
{
    match l {
        ColorLayout::L8 => 1,
        ColorLayout::La8 => 2,
        ColorLayout::Rgb8 => 3,
        ColorLayout::Rgba8 => 4,
        ColorLayout::L16 => 1,
        ColorLayout::La16 => 2,
        ColorLayout::Rgb16 => 3,
        ColorLayout::Rgba16 => 4,
        ColorLayout::Bgr8 => 3,
        ColorLayout::Bgra8 => 4,
    }
}

/// Bytes per sample of a host layout.
pub fn bytes_per_sample(l: &ColorLayout) -> (n: u8)
    ensures
        n == spec_bytes_per_sample(*l),
{
    match l {
        ColorLayout::L8 => 1,
        ColorLayout::La8 => 1,
        ColorLayout::Rgb8 => 1,
        ColorLayout::Rgba8 => 1,
        ColorLayout::L16 => 2,
        ColorLayout::La16 => 2,
        ColorLayout::Rgb16 => 2,
        ColorLayout::Rgba16 => 2,
        ColorLayout::Bgr8 => 1,
        ColorLayout::Bgra8 => 1,
    }
}

/// Maps a host layout to its device format, failing on a layout the table
/// does not cover. The mapped format always has the same channel count and
/// sample width as the host layout.
pub fn device_format(l: &ColorLayout) -> (r: Result<(ChannelOrder, ChannelDataType), ExecError>)
    ensures
        r is Ok <==> spec_device_format(*l) is Some,
        r is Ok ==> r.unwrap() == spec_device_format(*l).unwrap(),
        r is Ok ==> spec_order_channels(r.unwrap().0) == spec_channels(*l)
            && spec_type_bytes(r.unwrap().1) == spec_bytes_per_sample(*l),
        r is Err ==> r == Err::<(ChannelOrder, ChannelDataType), ExecError>(
            ExecError::UnsupportedFormat,
        ),
{
    match l {
        ColorLayout::L8 => Ok((ChannelOrder::Intensity, ChannelDataType::UnsignedInt8)),
        ColorLayout::La8 => Ok((ChannelOrder::Luminance, ChannelDataType::UnsignedInt8)),
        ColorLayout::Rgb8 => Ok((ChannelOrder::Rgb, ChannelDataType::UnsignedInt8)),
        ColorLayout::Rgba8 => Ok((ChannelOrder::Rgba, ChannelDataType::UnsignedInt8)),
        ColorLayout::L16 => Ok((ChannelOrder::Intensity, ChannelDataType::UnsignedInt16)),
        ColorLayout::La16 => Ok((ChannelOrder::Luminance, ChannelDataType::UnsignedInt16)),
        ColorLayout::Rgb16 => Ok((ChannelOrder::Rgb, ChannelDataType::UnsignedInt16)),
        ColorLayout::Rgba16 => Ok((ChannelOrder::Rgba, ChannelDataType::UnsignedInt16)),
        ColorLayout::Bgr8 => Err(ExecError::UnsupportedFormat),
        ColorLayout::Bgra8 => Ok((ChannelOrder::Bgra, ChannelDataType::UnsignedInt8)),
    }
}

} // verus!
