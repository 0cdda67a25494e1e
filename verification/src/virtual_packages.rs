//! Virtual packages implied by system requirements.
//!
//! A virtual package is a synthetic package entry standing for a platform
//! capability. For a target platform and a set of system requirements, the
//! minimal set of virtual packages holds one marker per platform family and
//! one versioned entry per requirement that applies to that platform. The
//! set is a deterministic function of the two inputs.

use vstd::prelude::*;

use crate::requirements::{LibCFamily, ReqView, SystemRequirements};
use crate::version::VersionNumber;

verus! {

/// A target platform family.
#[derive(Clone, Copy, Debug, PartialEq, Eq, Structural)]
pub enum Platform {
    Linux,
    MacOs,
    Windows,
}

/// A platform capability implied by the system requirements.
#[derive(Debug, PartialEq)]
pub enum VirtualPackage {
    /// The platform is a unix.
    Unix,
    /// A minimum Linux kernel version.
    Linux { version: VersionNumber },
    /// A libc of a family, with a minimum version.
    LibC { family: LibCFamily, version: VersionNumber },
    /// A minimum macOS version.
    Osx { version: VersionNumber },
    /// The platform is Windows.
    Win,
    /// A minimum CUDA driver version.
    Cuda { version: VersionNumber },
}

/// The mathematical value of a virtual package.
#[verifier::ext_equal]
pub ghost enum VirtualPackageView {
    Unix,
    Linux { version: Seq<u64> },
    LibC { family: LibCFamily, version: Seq<u64> },
    Osx { version: Seq<u64> },
    Win,
    Cuda { version: Seq<u64> },
}

impl View for VirtualPackage {
    type V = VirtualPackageView;

    open spec fn view(&self) -> VirtualPackageView {
        match self {
            VirtualPackage::Unix => VirtualPackageView::Unix,
            VirtualPackage::Linux { version } => VirtualPackageView::Linux { version: version@ },
            VirtualPackage::LibC { family, version } => VirtualPackageView::LibC {
                family: *family,
                version: version@,
            },
            VirtualPackage::Osx { version } => VirtualPackageView::Osx { version: version@ },
            VirtualPackage::Win => VirtualPackageView::Win,
            VirtualPackage::Cuda { version } => VirtualPackageView::Cuda { version: version@ },
        }
    }
}

/// The minimal set of virtual packages implied by requirement set `reqs` on
/// platform `platform`, in a fixed order: the unix marker, the Linux kernel,
/// the libc, the Windows marker, the macOS version, the CUDA version.
pub open spec fn minimal_virtual_packages_view(reqs: ReqView, platform: Platform) -> Seq<
    VirtualPackageView,
> {
    (if platform is Linux || platform is MacOs {
        seq![VirtualPackageView::Unix]
    } else {
        Seq::empty()
    }) + (if platform is Linux && reqs.linux is Some {
        seq![VirtualPackageView::Linux { version: reqs.linux->0 }]
    } else {
        Seq::empty()
    }) + (if platform is Linux && reqs.libc is Some {
        seq![
            VirtualPackageView::LibC {
                family: reqs.libc->0.family,
                version: reqs.libc->0.version,
            },
        ]
    } else {
        Seq::empty()
    }) + (if platform is Windows {
        seq![VirtualPackageView::Win]
    } else {
        Seq::empty()
    }) + (if platform is MacOs && reqs.macos is Some {
        seq![VirtualPackageView::Osx { version: reqs.macos->0 }]
    } else {
        Seq::empty()
    }) + (if reqs.cuda is Some {
        seq![VirtualPackageView::Cuda { version: reqs.cuda->0 }]
    } else {
        Seq::empty()
    })
}

/// Computes the minimal virtual packages for a platform and requirement set.
pub fn minimal_virtual_packages(reqs: &SystemRequirements, platform: Platform) -> (r: Vec<
    VirtualPackage,
>)
    ensures
        r@.map_values(|v: VirtualPackage| v@) == minimal_virtual_packages_view(reqs@, platform),
        reqs.wf() ==> forall|j: int|
            0 <= j < r@.len() ==> virtual_package_version(#[trigger] r@[j]@).len() >= 1,
{
    let mut r: Vec<VirtualPackage> = Vec::new();
    match platform {
        Platform::Linux => {
            r.push(VirtualPackage::Unix);
            if let Some(v) = &reqs.linux {
                r.push(VirtualPackage::Linux { version: v.duplicate() });
            }
            if let Some(l) = &reqs.libc {
                r.push(
                    VirtualPackage::LibC { family: l.family, version: l.version.duplicate() },
                );
            }
        },
        Platform::MacOs => {
            r.push(VirtualPackage::Unix);
            if let Some(v) = &reqs.macos {
                r.push(VirtualPackage::Osx { version: v.duplicate() });
            }
        },
        Platform::Windows => {
            r.push(VirtualPackage::Win);
        },
    }
    if let Some(v) = &reqs.cuda {
        r.push(VirtualPackage::Cuda { version: v.duplicate() });
    }
    proof {
        assert(r@.map_values(|v: VirtualPackage| v@) =~= minimal_virtual_packages_view(
            reqs@,
            platform,
        ));
    }
    r
}

/// The conda package name of a virtual package.
pub open spec fn virtual_package_name(v: VirtualPackageView) -> Seq<char> {
    match v {
        VirtualPackageView::Unix => "__unix"@,
        VirtualPackageView::Linux { .. } => "__linux"@,
        VirtualPackageView::LibC { family, .. } => match family {
            LibCFamily::Glibc => "__glibc"@,
            LibCFamily::Musl => "__musl"@,
        },
        VirtualPackageView::Osx { .. } => "__osx"@,
        VirtualPackageView::Win => "__win"@,
        VirtualPackageView::Cuda { .. } => "__cuda"@,
    }
}

/// The version a virtual package carries; the bare markers carry version 0.
pub open spec fn virtual_package_version(v: VirtualPackageView) -> Seq<u64> {
    match v {
        VirtualPackageView::Unix => seq![0u64],
        VirtualPackageView::Linux { version } => version,
        VirtualPackageView::LibC { version, .. } => version,
        VirtualPackageView::Osx { version } => version,
        VirtualPackageView::Win => seq![0u64],
        VirtualPackageView::Cuda { version } => version,
    }
}

} // verus!
