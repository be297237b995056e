//! What Kubernetes says of volumes and containers.
use vstd::prelude::*;

use crate::oci::Spec;
use crate::path::{components, components_of};
use crate::text::{chars_eq, chars_of, fields, str_eq};

verus! {

/// The directory of `empty-dir` volumes.
pub const K8S_EMPTY_DIR: &'static str = "kubernetes.io~empty-dir";

/// The directory of `configmap` volumes.
pub const K8S_CONFIGMAP: &'static str = "kubernetes.io~configmap";

/// The directory of `secret` volumes.
pub const K8S_SECRET: &'static str = "kubernetes.io~secret";

/// The directory of `projected` volumes.
pub const K8S_PROJECTED: &'static str = "kubernetes.io~projected";

/// The directory of `downward-api` volumes.
pub const K8S_DOWNWARD_API: &'static str = "kubernetes.io~downward-api";

pub const CRIO_CONTAINER_TYPE_LABEL_KEY: &'static str = "io.kubernetes.cri-o.ContainerType";

pub const CRIO_SANDBOX_ID_LABEL_KEY: &'static str = "io.kubernetes.cri-o.SandboxID";

pub const CONTAINERD_CONTAINER_TYPE_LABEL_KEY: &'static str = "io.kubernetes.cri.container-type";

pub const CONTAINERD_SANDBOX_ID_LABEL_KEY: &'static str = "io.kubernetes.cri.sandbox-id";

pub const DOCKERSHIM_CONTAINER_TYPE_LABEL_KEY: &'static str = "io.kubernetes.docker.type";

pub const DOCKERSHIM_SANDBOX_ID_LABEL_KEY: &'static str = "io.kubernetes.sandbox.id";

pub const SANDBOX: &'static str = "sandbox";

pub const POD_SANDBOX: &'static str = "pod_sandbox";

pub const PODSANDBOX: &'static str = "podsandbox";

pub const CONTAINER: &'static str = "container";

pub const POD_CONTAINER: &'static str = "pod_container";

pub const SINGLE_CONTAINER: &'static str = "single_container";

/// Whether a path lies directly in a directory of a name: the last component but one is
/// that name. `.` and `..` are no names.
pub open spec fn lies_in(path: Seq<char>, dir: Seq<char>) -> bool {
    let c = components(path);
    c.len() >= 2 && c[c.len() - 2] == dir && dir != seq!['.'] && dir != seq!['.', '.']
}

/// Tells whether a path lies directly in a directory of the given name, as a volume of a
/// kind does: `/var/lib/kubelet/pods/<id>/volumes/kubernetes.io~empty-dir/<name>`.
pub fn is_special_dir(path: &str, dir_type: &str) -> (r: bool)
    ensures
        r == lies_in(path@, dir_type@),
{
    let p = chars_of(path);
    let d = chars_of(dir_type);
    let here: Vec<char> = vec!['.'];
    let up: Vec<char> = vec!['.', '.'];
    proof {
        assert(here@ =~= seq!['.']);
        assert(up@ =~= seq!['.', '.']);
    }
    let c = components_of(p.as_slice());
    let ghost all = fields(c@);
    proof {
        assert(all.len() == c@.len());
    }
    if c.len() < 2 {
        return false;
    }
    proof {
        assert(all[all.len() - 2] == c@[c@.len() - 2]@);
    }
    chars_eq(c[c.len() - 2].as_slice(), d.as_slice()) && !chars_eq(d.as_slice(), here.as_slice())
        && !chars_eq(d.as_slice(), up.as_slice())
}

/// Tells whether a path is an `empty-dir` volume.
pub fn is_empty_dir(path: &str) -> (r: bool)
    ensures
        r == lies_in(path@, K8S_EMPTY_DIR@),
{
    is_special_dir(path, K8S_EMPTY_DIR)
}

/// Tells whether a path is a `configmap` volume.
pub fn is_configmap(path: &str) -> (r: bool)
    ensures
        r == lies_in(path@, K8S_CONFIGMAP@),
{
    is_special_dir(path, K8S_CONFIGMAP)
}

/// Tells whether a path is a `secret` volume.
pub fn is_secret(path: &str) -> (r: bool)
    ensures
        r == lies_in(path@, K8S_SECRET@),
{
    is_special_dir(path, K8S_SECRET)
}

/// Tells whether a path is a `projected` volume.
pub fn is_projected(path: &str) -> (r: bool)
    ensures
        r == lies_in(path@, K8S_PROJECTED@),
{
    is_special_dir(path, K8S_PROJECTED)
}

/// Tells whether a path is a `downward-api` volume.
pub fn is_downward_api(path: &str) -> (r: bool)
    ensures
        r == lies_in(path@, K8S_DOWNWARD_API@),
{
    is_special_dir(path, K8S_DOWNWARD_API)
}

/// A path is a volume of one kind at most.
pub proof fn law_volumes_are_of_one_kind(path: Seq<char>, a: Seq<char>, b: Seq<char>)
    requires
        lies_in(path, a),
        lies_in(path, b),
    ensures
        a == b,
{
}

/// What a container is to its pod.
#[derive(Clone, Copy, Debug, PartialEq, Eq, Structural)]
pub enum ContainerType {
    PodContainer,
    PodSandbox,
    SingleContainer,
}

/// The type that a name stands for.
pub open spec fn type_of(name: Seq<char>) -> Option<ContainerType> {
    if name == POD_CONTAINER@ || name == CONTAINER@ {
        Some(ContainerType::PodContainer)
    } else if name == POD_SANDBOX@ || name == PODSANDBOX@ || name == SANDBOX@ {
        Some(ContainerType::PodSandbox)
    } else if name == SINGLE_CONTAINER@ {
        Some(ContainerType::SingleContainer)
    } else {
        None
    }
}

fn parse_type(name: &str) -> (r: Option<ContainerType>)
    ensures
        r == type_of(name@),
{
    if str_eq(name, POD_CONTAINER) || str_eq(name, CONTAINER) {
        Some(ContainerType::PodContainer)
    } else if str_eq(name, POD_SANDBOX) || str_eq(name, PODSANDBOX) || str_eq(name, SANDBOX) {
        Some(ContainerType::PodSandbox)
    } else if str_eq(name, SINGLE_CONTAINER) {
        Some(ContainerType::SingleContainer)
    } else {
        None
    }
}

/// The type that an annotation gives.
pub open spec fn annotated_type(spec: Spec, key: Seq<char>) -> Option<ContainerType> {
    match spec.annotation_of(key) {
        Some(v) => type_of(v),
        None => None,
    }
}

/// The type that the annotations of a container give: the first of the keys under which a
/// known type stands counts, and without one a container stands for itself.
pub open spec fn type_in(spec: Spec) -> ContainerType {
    match annotated_type(spec, CRIO_CONTAINER_TYPE_LABEL_KEY@) {
        Some(t) => t,
        None => match annotated_type(spec, CONTAINERD_CONTAINER_TYPE_LABEL_KEY@) {
            Some(t) => t,
            None => match annotated_type(spec, DOCKERSHIM_CONTAINER_TYPE_LABEL_KEY@) {
                Some(t) => t,
                None => ContainerType::SingleContainer,
            },
        },
    }
}

fn type_under(spec: &Spec, key: &str) -> (r: Option<ContainerType>)
    ensures
        r == annotated_type(*spec, key@),
{
    match spec.annotation(key) {
        Some(v) => parse_type(v.as_str()),
        None => None,
    }
}

/// Tells what a container is to its pod.
pub fn container_type(spec: &Spec) -> (r: ContainerType)
    ensures
        r == type_in(*spec),
{
    if let Some(t) = type_under(spec, CRIO_CONTAINER_TYPE_LABEL_KEY) {
        return t;
    }
    if let Some(t) = type_under(spec, CONTAINERD_CONTAINER_TYPE_LABEL_KEY) {
        return t;
    }
    if let Some(t) = type_under(spec, DOCKERSHIM_CONTAINER_TYPE_LABEL_KEY) {
        return t;
    }
    ContainerType::SingleContainer
}

/// The id of the sandbox of a container in a pod.
pub open spec fn sandbox_id_in(spec: Spec) -> Option<Seq<char>> {
    if type_in(spec) != ContainerType::PodContainer {
        None
    } else {
        match spec.annotation_of(CRIO_SANDBOX_ID_LABEL_KEY@) {
            Some(v) => Some(v),
            None => match spec.annotation_of(CONTAINERD_SANDBOX_ID_LABEL_KEY@) {
                Some(v) => Some(v),
                None => spec.annotation_of(DOCKERSHIM_SANDBOX_ID_LABEL_KEY@),
            },
        }
    }
}

/// Tells what a container is to its pod, and of a container in a pod the id of its
/// sandbox.
pub fn container_type_with_id(spec: &Spec) -> (r: (ContainerType, Option<String>))
    ensures
        r.0 == type_in(*spec),
        match r.1 {
            Some(s) => sandbox_id_in(*spec) == Some(s@),
            None => sandbox_id_in(*spec) is None,
        },
{
    let t = container_type(spec);
    if t != ContainerType::PodContainer {
        return (t, None);
    }
    if let Some(v) = spec.annotation(CRIO_SANDBOX_ID_LABEL_KEY) {
        return (t, Some(v.clone()));
    }
    if let Some(v) = spec.annotation(CONTAINERD_SANDBOX_ID_LABEL_KEY) {
        return (t, Some(v.clone()));
    }
    if let Some(v) = spec.annotation(DOCKERSHIM_SANDBOX_ID_LABEL_KEY) {
        return (t, Some(v.clone()));
    }
    (t, None)
}

} // verus!
