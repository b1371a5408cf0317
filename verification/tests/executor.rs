use img_accel::image::GrayImage;
use img_accel::kernel::{KernelEntry, KernelInvocation};
use img_accel::{ExecError, Executor, Feature, FeatureSet};

#[test]
fn registry_holds_exactly_the_enabled_features() {
    let both = Executor::new(FeatureSet { contrast: true, geometric_trans: true });
    assert!(both.get_program(&Feature::Contrast).is_ok());
    assert!(both.get_program(&Feature::GeometricTrans).is_ok());

    let neither = Executor::new(FeatureSet { contrast: false, geometric_trans: false });
    assert_eq!(
        neither.get_program(&Feature::Contrast).unwrap_err(),
        ExecError::FeatureNotEnabled
    );
    assert_eq!(
        neither.get_program(&Feature::GeometricTrans).unwrap_err(),
        ExecError::FeatureNotEnabled
    );

    let contrast_only = Executor::new(FeatureSet { contrast: true, geometric_trans: false });
    assert!(contrast_only.get_program(&Feature::Contrast).is_ok());
    assert_eq!(
        contrast_only.get_program(&Feature::GeometricTrans).unwrap_err(),
        ExecError::FeatureNotEnabled
    );
}

#[test]
fn invocation_build_checks_arity() {
    let ok = KernelInvocation::build(KernelEntry::Threshold, (4, 4), vec![7]).unwrap();
    assert_eq!(ok.width, 4);
    assert_eq!(ok.height, 4);
    assert_eq!(ok.args, vec![7]);

    assert_eq!(
        KernelInvocation::build(KernelEntry::Threshold, (4, 4), vec![]).unwrap_err(),
        ExecError::KernelBuild
    );
    assert_eq!(
        KernelInvocation::build(KernelEntry::StretchContrast, (4, 4), vec![1]).unwrap_err(),
        ExecError::KernelBuild
    );
    assert!(KernelInvocation::build(KernelEntry::StretchContrast, (4, 4), vec![1, 2]).is_ok());
}

#[test]
fn gray_image_accessors() {
    let img = GrayImage::from_raw(3, 2, vec![1, 2, 3, 4, 5, 6]).unwrap();
    assert_eq!(img.width(), 3);
    assert_eq!(img.height(), 2);
    assert_eq!(img.dimensions(), (3, 2));
    assert_eq!(img.get_pixel(0, 0), 1);
    assert_eq!(img.get_pixel(2, 0), 3);
    assert_eq!(img.get_pixel(0, 1), 4);
    assert_eq!(img.get_pixel(2, 1), 6);

    assert!(GrayImage::from_raw(3, 2, vec![1, 2, 3]).is_none());

    let mut img = img;
    img.put_pixel(1, 1, 42);
    assert_eq!(img.get_pixel(1, 1), 42);
    assert_eq!(img.get_pixel(0, 1), 4);
}
