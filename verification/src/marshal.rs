//! The image marshaler: host buffer to device-resident image and back.
//! An upload picks the device format from the table, allocates a device
//! image of identical dimensions, and copies the host samples in; a
//! read-back copies the device samples into a host buffer. Nothing is ever
//! resized or converted beyond the table's mapping.

use vstd::prelude::*;
use crate::ExecError;
use crate::format::{
    device_format, spec_device_format, spec_order_channels, spec_type_bytes, ChannelDataType,
    ChannelOrder,
};
use crate::image::HostImage;

verus! {

/// How a device image may be used by kernels and by the host.
#[derive(Clone, Copy, Debug, PartialEq, Eq, Structural)]
pub enum Access {
    /// Kernels read it, the host only writes it.
    ReadOnly,
    /// Kernels write it, the host only reads it.
    WriteOnly,
    /// Kernels read and write it.
    ReadWrite,
}

/// A device-resident 2D image: an accelerator-side mirror of one host
/// buffer, scoped to a single operation and never reused across calls.
#[derive(Debug)]
pub struct DeviceImage {
    pub order: ChannelOrder,
    pub data_type: ChannelDataType,
    pub width: u32,
    pub height: u32,
    pub access: Access,
    pub data: Vec<u8>,
}

impl DeviceImage {
    /// The device allocation holds exactly width × height pixels of its
    /// format's size.
    pub open spec fn wf(&self) -> bool {
        self.data@.len() == self.width as int * self.height as int
            * spec_order_channels(self.order) * spec_type_bytes(self.data_type)
    }
}

/// Uploads a host image: maps its layout through the format table, fails
/// exactly on an unmapped layout, and otherwise yields a device image of
/// identical dimensions and identical contents under the given access.
pub fn host_to_device(img: &HostImage, access: Access) -> (r: Result<DeviceImage, ExecError>)
    requires
        img.wf(),
    ensures
        r is Ok <==> spec_device_format(img.layout) is Some,
        r is Err ==> r == Err::<DeviceImage, ExecError>(ExecError::UnsupportedFormat),
        r is Ok ==> {
            let d = r.unwrap();
            &&& d.wf()
            &&& Some((d.order, d.data_type)) == spec_device_format(img.layout)
            &&& d.width == img.width
            &&& d.height == img.height
            &&& d.access == access
            &&& d.data@ == img.data@
        },
{
    let (order, data_type) = device_format(&img.layout)?;
    Ok(
        DeviceImage {
            order,
            data_type,
            width: img.width,
            height: img.height,
            access,
            data: crate::image::clone_bytes(&img.data),
        },
    )
}

/// A blocking read of a device image into a fresh host buffer: the exact
/// device contents, available on the host when the call returns.
pub fn device_to_host(dev: &DeviceImage) -> (out: Vec<u8>)
    ensures
        out@ == dev.data@,
{
    crate::image::clone_bytes(&dev.data)
}

/// Uploads a host image and reads it straight back without running any
/// kernel: the identity transfer. For every layout the format table
/// supports, the bytes that come back are the original buffer, unchanged;
/// an unsupported layout fails exactly as the upload does.
pub fn transfer_round_trip(img: &HostImage) -> (r: Result<Vec<u8>, ExecError>)
    requires
        img.wf(),
    ensures
        r is Ok <==> spec_device_format(img.layout) is Some,
        r is Ok ==> r.unwrap()@ == img.data@,
        r is Err ==> r == Err::<Vec<u8>, ExecError>(ExecError::UnsupportedFormat),
{
    let dev = host_to_device(img, Access::ReadWrite)?;
    Ok(device_to_host(&dev))
}

} // verus!
