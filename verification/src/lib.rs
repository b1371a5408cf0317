//! A small executor for pixel-wise image transforms, organised the way a
//! compute-accelerator dispatch layer is: a registry of compiled programs
//! keyed by feature, a marshaler between host pixel buffers and
//! device-resident images, and a kernel dispatcher that runs one work item
//! per pixel. The per-pixel semantics of every operation is stated and
//! proved here; the code that talks to a real accelerator lives outside
//! the library and reuses these decisions.

use vstd::prelude::*;

pub mod contrast;
pub mod format;
pub mod image;
pub mod kernel;
pub mod marshal;

verus! {

/// A capability tag. Each feature corresponds to one compiled program in
/// the registry; an operation may only dispatch kernels of a feature that
/// was enabled when the executor was built.
#[derive(Clone, Copy, Debug, PartialEq, Eq, Structural)]
pub enum Feature {
    Contrast,
    GeometricTrans,
}

/// Every failure the library reports. There is no internal recovery:
/// each error is surfaced to the direct caller unchanged.
#[derive(Clone, Copy, Debug, PartialEq, Eq, Structural)]
pub enum ExecError {
    /// An operation asked for a feature that was not enabled at construction.
    FeatureNotEnabled,
    /// A host pixel layout with no device analogue.
    UnsupportedFormat,
    /// An operation parameter outside its documented domain.
    InvalidParam,
    /// A kernel invocation whose argument list does not match its entry point.
    KernelBuild,
}

/// A compiled kernel module for one feature, owned by the registry.
#[derive(Debug)]
pub struct Program {
    feature: Feature,
}

impl Program {
    /// The feature this program was compiled for.
    pub closed spec fn spec_feature(&self) -> Feature {
        self.feature
    }
}

/// The runtime configuration: which features the executor is built with.
#[derive(Clone, Copy, Debug, PartialEq, Eq, Structural)]
pub struct FeatureSet {
    pub contrast: bool,
    pub geometric_trans: bool,
}

/// Owns the program registry: one program per enabled feature, compiled at
/// construction and immutable afterwards. Lookup of a feature that was not
/// enabled fails loudly; nothing is compiled lazily.
pub struct Executor {
    contrast: Option<Program>,
    geometric_trans: Option<Program>,
}

impl Executor {
    /// Whether a feature's program exists in the registry.
    pub closed spec fn enabled(&self, f: Feature) -> bool {
        match f {
            Feature::Contrast => self.contrast is Some,
            Feature::GeometricTrans => self.geometric_trans is Some,
        }
    }

    /// Each program in the registry was compiled for the feature it is
    /// stored under.
    pub closed spec fn wf(&self) -> bool {
        &&& self.contrast matches Some(p) ==> p.spec_feature() == Feature::Contrast
        &&& self.geometric_trans matches Some(p)
            ==> p.spec_feature() == Feature::GeometricTrans
    }

    /// Builds the registry: one program per feature named in the
    /// configuration, none for the others.
    pub fn new(features: FeatureSet) -> (e: Executor)
        ensures
            e.wf(),
            e.enabled(Feature::Contrast) == features.contrast,
            e.enabled(Feature::GeometricTrans) == features.geometric_trans,
    {
        let contrast = if features.contrast {
            Some(Program { feature: Feature::Contrast })
        } else {
            None
        };
        let geometric_trans = if features.geometric_trans {
            Some(Program { feature: Feature::GeometricTrans })
        } else {
            None
        };
        Executor { contrast, geometric_trans }
    }

    /// Looks a feature's program up; fails iff the feature was not enabled
    /// at construction.
    pub fn get_program(&self, f: &Feature) -> (r: Result<&Program, ExecError>)
        requires
            self.wf(),
        ensures
            r is Ok <==> self.enabled(*f),
            r is Ok ==> r.unwrap().spec_feature() == *f,
            r is Err ==> r == Err::<&Program, ExecError>(ExecError::FeatureNotEnabled),
    {
        match f {
            Feature::Contrast => match &self.contrast {
                Some(p) => Ok(p),
                None => Err(ExecError::FeatureNotEnabled),
            },
            Feature::GeometricTrans => match &self.geometric_trans {
                Some(p) => Ok(p),
                None => Err(ExecError::FeatureNotEnabled),
            },
        }
    }

    /// Allocates a device image mirroring a host image, copying the host
    /// contents in. Without explicit access flags the image is allocated
    /// read-write. Fails exactly on a host layout the format table does
    /// not cover.
    pub fn alloc_img(&self, img: &crate::image::HostImage, flags: Option<crate::marshal::Access>)
        -> (r: Result<crate::marshal::DeviceImage, ExecError>)
        requires
            img.wf(),
        ensures
            r is Ok <==> crate::format::spec_device_format(img.layout) is Some,
            r is Err ==> r == Err::<crate::marshal::DeviceImage, ExecError>(
                ExecError::UnsupportedFormat,
            ),
            r is Ok ==> {
                let d = r.unwrap();
                &&& d.wf()
                &&& Some((d.order, d.data_type)) == crate::format::spec_device_format(img.layout)
                &&& d.width == img.width
                &&& d.height == img.height
                &&& d.data@ == img.data@
                &&& d.access == (if flags is Some {
                    flags.unwrap()
                } else {
                    crate::marshal::Access::ReadWrite
                })
            },
    {
        let access = match flags {
            Some(a) => a,
            None => crate::marshal::Access::ReadWrite,
        };
        crate::marshal::host_to_device(img, access)
    }
}

} // verus!
