use img_accel::format::{channels, bytes_per_sample, device_format, ChannelDataType, ChannelOrder, ColorLayout};
use img_accel::image::HostImage;
use img_accel::marshal::{device_to_host, host_to_device, transfer_round_trip, Access};
use img_accel::{ExecError, Executor, FeatureSet};

const SUPPORTED: [(ColorLayout, ChannelOrder, ChannelDataType, u8, u8); 9] = [
    (ColorLayout::L8, ChannelOrder::Intensity, ChannelDataType::UnsignedInt8, 1, 1),
    (ColorLayout::La8, ChannelOrder::Luminance, ChannelDataType::UnsignedInt8, 2, 1),
    (ColorLayout::Rgb8, ChannelOrder::Rgb, ChannelDataType::UnsignedInt8, 3, 1),
    (ColorLayout::Rgba8, ChannelOrder::Rgba, ChannelDataType::UnsignedInt8, 4, 1),
    (ColorLayout::L16, ChannelOrder::Intensity, ChannelDataType::UnsignedInt16, 1, 2),
    (ColorLayout::La16, ChannelOrder::Luminance, ChannelDataType::UnsignedInt16, 2, 2),
    (ColorLayout::Rgb16, ChannelOrder::Rgb, ChannelDataType::UnsignedInt16, 3, 2),
    (ColorLayout::Rgba16, ChannelOrder::Rgba, ChannelDataType::UnsignedInt16, 4, 2),
    (ColorLayout::Bgra8, ChannelOrder::Bgra, ChannelDataType::UnsignedInt8, 4, 1),
];

#[test]
fn format_table_matches_layouts() {
    for &(layout, order, data_type, ch, bps) in SUPPORTED.iter() {
        assert_eq!(channels(&layout), ch);
        assert_eq!(bytes_per_sample(&layout), bps);
        assert_eq!(device_format(&layout).unwrap(), (order, data_type));
    }
}

#[test]
fn format_table_rejects_bgr() {
    assert_eq!(device_format(&ColorLayout::Bgr8).unwrap_err(), ExecError::UnsupportedFormat);
    assert_eq!(channels(&ColorLayout::Bgr8), 3);
    assert_eq!(bytes_per_sample(&ColorLayout::Bgr8), 1);
}

#[test]
fn round_trip_preserves_every_supported_layout() {
    for &(layout, _, _, ch, bps) in SUPPORTED.iter() {
        let (w, h) = (3u32, 2u32);
        let n = (w * h) as usize * ch as usize * bps as usize;
        let data: Vec<u8> = (0..n).map(|i| (i * 7 + 3) as u8).collect();
        let img = HostImage::from_raw(w, h, layout, data.clone()).unwrap();
        let back = transfer_round_trip(&img).unwrap();
        assert_eq!(back, data);
    }
}

#[test]
fn round_trip_rejects_unsupported_layout() {
    let img = HostImage::from_raw(2, 2, ColorLayout::Bgr8, vec![0u8; 12]).unwrap();
    assert_eq!(transfer_round_trip(&img).unwrap_err(), ExecError::UnsupportedFormat);
}

#[test]
fn host_image_from_raw_checks_length() {
    assert!(HostImage::from_raw(2, 2, ColorLayout::Rgb8, vec![0u8; 12]).is_some());
    assert!(HostImage::from_raw(2, 2, ColorLayout::Rgb8, vec![0u8; 11]).is_none());
    assert!(HostImage::from_raw(2, 2, ColorLayout::L16, vec![0u8; 8]).is_some());
    assert!(HostImage::from_raw(2, 2, ColorLayout::L16, vec![0u8; 4]).is_none());
}

#[test]
fn upload_maps_format_and_copies_contents() {
    let data: Vec<u8> = vec![1, 2, 3, 4, 5, 6];
    let img = HostImage::from_raw(3, 2, ColorLayout::L8, data.clone()).unwrap();
    let dev = host_to_device(&img, Access::ReadOnly).unwrap();
    assert_eq!(dev.order, ChannelOrder::Intensity);
    assert_eq!(dev.data_type, ChannelDataType::UnsignedInt8);
    assert_eq!(dev.width, 3);
    assert_eq!(dev.height, 2);
    assert_eq!(dev.access, Access::ReadOnly);
    assert_eq!(dev.data, data);
    assert_eq!(device_to_host(&dev), data);
}

#[test]
fn alloc_img_defaults_to_read_write() {
    let executor = Executor::new(FeatureSet { contrast: true, geometric_trans: false });
    let img = HostImage::from_raw(2, 2, ColorLayout::Rgba8, (0u8..16).collect()).unwrap();

    let dev = executor.alloc_img(&img, None).unwrap();
    assert_eq!(dev.access, Access::ReadWrite);
    assert_eq!(dev.order, ChannelOrder::Rgba);
    let dev2 = executor.alloc_img(&img, Some(Access::WriteOnly)).unwrap();
    assert_eq!(dev2.access, Access::WriteOnly);

    let bgr = HostImage::from_raw(2, 2, ColorLayout::Bgr8, vec![0u8; 12]).unwrap();
    assert_eq!(executor.alloc_img(&bgr, None).unwrap_err(), ExecError::UnsupportedFormat);
}
