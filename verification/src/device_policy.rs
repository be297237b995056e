//! Device integrations that are refused before anything is set up.
use vstd::prelude::*;

use crate::oci::{Linux, LinuxDevice, Spec};
use crate::path::{is_under, under};
use crate::text::{
    chars_eq, chars_of, split_once, split_once_of, starts_with, sub_chars, trim, trimmed,
};

verus! {

/// The driver of virtio block devices on MMIO.
pub const DRIVER_BLK_MMIO_TYPE: &'static str = "mmioblk";

/// The driver of virtio block devices on PCI.
pub const DRIVER_BLK_PCI_TYPE: &'static str = "blk";

/// The driver of virtio block devices on CCW.
pub const DRIVER_BLK_CCW_TYPE: &'static str = "blk-ccw";

/// The driver of virtio SCSI devices.
pub const DRIVER_SCSI_TYPE: &'static str = "scsi";

/// The driver of NVDIMM devices.
pub const DRIVER_NVDIMM_TYPE: &'static str = "nvdimm";

/// The driver of VFIO devices on PCI that a driver of the guest kernel takes over.
pub const DRIVER_VFIO_PCI_GK_TYPE: &'static str = "vfio-pci-gk";

/// The driver of VFIO devices on PCI that a container gets as a VFIO node.
pub const DRIVER_VFIO_PCI_TYPE: &'static str = "vfio-pci";

/// The driver of VFIO adjunct processors that are plugged in later.
pub const DRIVER_VFIO_AP_TYPE: &'static str = "vfio-ap";

/// The driver of VFIO adjunct processors that are there from the start.
pub const DRIVER_VFIO_AP_COLD_TYPE: &'static str = "vfio-ap-cold";

/// The driver of ephemeral volumes.
pub const DRIVER_EPHEMERAL_TYPE: &'static str = "ephemeral";

/// The driver of local volumes.
pub const DRIVER_LOCAL_TYPE: &'static str = "local";

/// The driver of overlay filesystems.
pub const DRIVER_OVERLAYFS_TYPE: &'static str = "overlayfs";

/// The driver of virtio filesystems.
pub const DRIVER_VIRTIOFS_TYPE: &'static str = "virtio-fs";

/// The driver of bind mounts that are watched.
pub const DRIVER_WATCHABLE_BIND_TYPE: &'static str = "watchable-bind";

/// Why a configuration is refused for its devices.
#[derive(Debug)]
pub enum DeviceFeatureError {
    /// An annotation asks for a CDI device.
    CdiAnnotation,
    /// A variable holds a sealed secret.
    SealedSecret,
    /// A variable asks for CDI devices.
    VisibleCdiDevices,
    /// A device at this path is not supported.
    DevicePath(String),
}

/// A `DeviceFeatureError` over sequences.
pub enum DeviceFault {
    CdiAnnotation,
    SealedSecret,
    VisibleCdiDevices,
    DevicePath(Seq<char>),
}

impl View for DeviceFeatureError {
    type V = DeviceFault;

    open spec fn view(&self) -> DeviceFault {
        match *self {
            DeviceFeatureError::CdiAnnotation => DeviceFault::CdiAnnotation,
            DeviceFeatureError::SealedSecret => DeviceFault::SealedSecret,
            DeviceFeatureError::VisibleCdiDevices => DeviceFault::VisibleCdiDevices,
            DeviceFeatureError::DevicePath(p) => DeviceFault::DevicePath(p@),
        }
    }
}

impl DeviceFault {
    /// The text of the error.
    pub open spec fn text(self) -> Seq<char> {
        match self {
            DeviceFault::CdiAnnotation => "kata-fc: CDI device annotations are unsupported"@,
            DeviceFault::SealedSecret =>
                "kata-fc: sealed-secret environment values are unsupported"@,
            DeviceFault::VisibleCdiDevices =>
                "kata-fc: VISIBLE_CDI_DEVICES requests are unsupported"@,
            DeviceFault::DevicePath(p) => "kata-fc: unsupported device path: "@ + p,
        }
    }
}

impl DeviceFeatureError {
    /// The text of the error.
    pub fn message(&self) -> (r: String)
        ensures
            r@ == self@.text(),
    {
        match self {
            DeviceFeatureError::CdiAnnotation =>
                "kata-fc: CDI device annotations are unsupported".to_owned(),
            DeviceFeatureError::SealedSecret =>
                "kata-fc: sealed-secret environment values are unsupported".to_owned(),
            DeviceFeatureError::VisibleCdiDevices =>
                "kata-fc: VISIBLE_CDI_DEVICES requests are unsupported".to_owned(),
            DeviceFeatureError::DevicePath(p) => {
                let mut s = "kata-fc: unsupported device path: ".to_owned();
                s.append(p.as_str());
                s
            },
        }
    }
}

/// Whether a path belongs to an integration that is not supported.
pub open spec fn excluded_path(p: Seq<char>) -> bool {
    is_under(p, "/dev/vfio"@) || is_under(p, "/dev/dri"@) || is_under(p, "/dev/infiniband"@)
        || is_under(p, "/dev/iommu"@) || is_under(p, "/dev/trusted_store"@)
        || "/dev/nvidia"@.is_prefix_of(p)
}

/// Refuses a device path of an integration that is not supported.
pub fn validate_device_path(path: &str) -> (r: Result<(), DeviceFeatureError>)
    ensures
        match r {
            Ok(_) => !excluded_path(path@),
            Err(e) => excluded_path(path@) && e@ == DeviceFault::DevicePath(path@),
        },
{
    proof {
        reveal_strlit("/dev/vfio");
        reveal_strlit("/dev/dri");
        reveal_strlit("/dev/infiniband");
        reveal_strlit("/dev/iommu");
        reveal_strlit("/dev/trusted_store");
    }
    let text = chars_of(path);
    let nvidia = chars_of("/dev/nvidia");
    if under(path, "/dev/vfio") || under(path, "/dev/dri") || under(path, "/dev/infiniband")
        || under(path, "/dev/iommu") || under(path, "/dev/trusted_store") || starts_with(
        text.as_slice(),
        nvidia.as_slice(),
    ) {
        return Err(DeviceFeatureError::DevicePath(path.to_owned()));
    }
    Ok(())
}

/// The first device of a list that is not supported.
pub open spec fn device_fault(devices: Seq<LinuxDevice>) -> Option<DeviceFault>
    decreases devices.len(),
{
    if devices.len() == 0 {
        None
    } else if excluded_path(devices[0].path@) {
        Some(DeviceFault::DevicePath(devices[0].path@))
    } else {
        device_fault(devices.skip(1))
    }
}

/// What is wrong with the devices of a Linux section.
pub open spec fn linux_fault(linux: Linux) -> Option<DeviceFault> {
    match linux.devices {
        Some(v) => device_fault(v@),
        None => None,
    }
}

/// Refuses device nodes of integrations that are not supported.
pub fn validate_linux_device_features(linux: &Linux) -> (r: Result<(), DeviceFeatureError>)
    ensures
        match r {
            Ok(_) => linux_fault(*linux) is None,
            Err(e) => linux_fault(*linux) == Some(e@),
        },
{
    if let Some(v) = &linux.devices {
        let mut i: usize = 0;
        proof {
            assert(v@.skip(0) =~= v@);
        }
        while i < v.len()
            invariant
                i <= v.len(),
                linux.devices == Some(*v),
                device_fault(v@) == device_fault(v@.skip(i as int)),
            decreases v.len() - i,
        {
            proof {
                assert(v@.skip(i as int).skip(1) =~= v@.skip(i + 1));
                assert(v@.skip(i as int)[0] == v@[i as int]);
            }
            if let Err(e) = validate_device_path(v[i].path.as_str()) {
                return Err(e);
            }
            i += 1;
        }
    }
    Ok(())
}

/// Whether a value asks for no CDI device.
pub open spec fn asks_for_nothing(value: Seq<char>) -> bool {
    trimmed(value) == ""@ || trimmed(value) == "none"@ || trimmed(value) == "void"@
}

/// What is wrong with a variable.
pub open spec fn variable_fault(entry: Seq<char>) -> Option<DeviceFault> {
    let sealed = split_once_of(entry, '=') matches Some(kv) && "sealed."@.is_prefix_of(kv.1);
    if sealed {
        Some(DeviceFault::SealedSecret)
    } else if "VISIBLE_CDI_DEVICES="@.is_prefix_of(entry) && !asks_for_nothing(
        entry.skip("VISIBLE_CDI_DEVICES="@.len() as int),
    ) {
        Some(DeviceFault::VisibleCdiDevices)
    } else {
        None
    }
}

/// The first variable of a list that is not supported.
pub open spec fn env_fault(env: Seq<String>) -> Option<DeviceFault>
    decreases env.len(),
{
    if env.len() == 0 {
        None
    } else {
        match variable_fault(env[0]@) {
            Some(f) => Some(f),
            None => env_fault(env.skip(1)),
        }
    }
}

fn check_variable(entry: &str) -> (r: Result<(), DeviceFeatureError>)
    ensures
        match r {
            Ok(_) => variable_fault(entry@) is None,
            Err(e) => variable_fault(entry@) == Some(e@),
        },
{
    let e = chars_of(entry);
    let sealed = chars_of("sealed.");
    if let Some((_key, value)) = split_once(e.as_slice(), '=') {
        if starts_with(value.as_slice(), sealed.as_slice()) {
            return Err(DeviceFeatureError::SealedSecret);
        }
    }
    let name = chars_of("VISIBLE_CDI_DEVICES=");
    if starts_with(e.as_slice(), name.as_slice()) {
        let value = sub_chars(e.as_slice(), name.len(), e.len());
        proof {
            assert(value@ =~= entry@.skip(name@.len() as int));
        }
        let t = trim(value.as_slice());
        let empty = chars_of("");
        let none = chars_of("none");
        let void = chars_of("void");
        if !chars_eq(t.as_slice(), empty.as_slice()) && !chars_eq(t.as_slice(), none.as_slice())
            && !chars_eq(t.as_slice(), void.as_slice()) {
            return Err(DeviceFeatureError::VisibleCdiDevices);
        }
    }
    Ok(())
}

/// Whether an annotation asks for a CDI device.
pub open spec fn has_cdi_annotation(annotations: Seq<(String, String)>) -> bool {
    exists|i: int|
        0 <= i < annotations.len() && "cdi.k8s.io/"@.is_prefix_of((#[trigger] annotations[i]).0@)
}

/// What is wrong with the devices of a configuration: annotations first, then the
/// environment, then the device nodes.
pub open spec fn spec_fault(spec: Spec) -> Option<DeviceFault> {
    if spec.annotations is Some && has_cdi_annotation(spec.annotations->0@) {
        Some(DeviceFault::CdiAnnotation)
    } else {
        let env = match spec.process {
            Some(p) => match p.env {
                Some(v) => env_fault(v@),
                None => None,
            },
            None => None,
        };
        match env {
            Some(f) => Some(f),
            None => match spec.linux {
                Some(l) => linux_fault(l),
                None => None,
            },
        }
    }
}

/// Refuses device integrations that are not supported.
pub fn validate_spec_device_features(spec: &Spec) -> (r: Result<(), DeviceFeatureError>)
    ensures
        match r {
            Ok(_) => spec_fault(*spec) is None,
            Err(e) => spec_fault(*spec) == Some(e@),
        },
{
    if let Some(v) = &spec.annotations {
        let prefix = chars_of("cdi.k8s.io/");
        let mut i: usize = 0;
        while i < v.len()
            invariant
                i <= v.len(),
                spec.annotations == Some(*v),
                prefix@ == "cdi.k8s.io/"@,
                forall|k: int| 0 <= k < i ==> !"cdi.k8s.io/"@.is_prefix_of((#[trigger] v@[k]).0@),
            decreases v.len() - i,
        {
            let key = chars_of(v[i].0.as_str());
            if starts_with(key.as_slice(), prefix.as_slice()) {
                proof {
                    assert("cdi.k8s.io/"@.is_prefix_of(v@[i as int].0@));
                }
                return Err(DeviceFeatureError::CdiAnnotation);
            }
            i += 1;
        }
    }
    if let Some(p) = &spec.process {
        if let Some(v) = &p.env {
            let mut i: usize = 0;
            proof {
                assert(v@.skip(0) =~= v@);
            }
            while i < v.len()
                invariant
                    i <= v.len(),
                    spec.process == Some(*p),
                    p.env == Some(*v),
                    !(spec.annotations is Some && has_cdi_annotation(spec.annotations->0@)),
                    env_fault(v@) == env_fault(v@.skip(i as int)),
                decreases v.len() - i,
            {
                proof {
                    assert(v@.skip(i as int).skip(1) =~= v@.skip(i + 1));
                    assert(v@.skip(i as int)[0] == v@[i as int]);
                }
                if let Err(e) = check_variable(v[i].as_str()) {
                    return Err(e);
                }
                i += 1;
            }
        }
    }
    if let Some(linux) = &spec.linux {
        return validate_linux_device_features(linux);
    }
    Ok(())
}

} // verus!
