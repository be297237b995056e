//! The cgroups of a container and of its pod.
use vstd::prelude::*;

use super::devices::{
    first_all_rule, has_allowed_all_devices_rule, spec_devices, DevicesCgroupInfo,
};
use super::resources::{
    plan_resources, resource_fault, validate_resources, CgroupError, CgroupUpdate,
};
use crate::oci::{LinuxResources, Spec};
use crate::path::{join, joined, parent, parent_of, strip_root, strip_slashes, without_root, without_trail};
use crate::text::str_eq;

verus! {

/// Where the cgroup filesystem is mounted.
pub const CGROUP_ROOT: &'static str = "/sys/fs/cgroup";

/// The cgroup below that of a container that its processes enter where it exists.
pub const INIT_SUBCGROUP: &'static str = "/init/";

/// What the freezer of a cgroup is asked for.
#[derive(Clone, Copy, Debug, PartialEq, Eq, Structural)]
pub enum FreezerState {
    Thawed,
    Freezing,
    Frozen,
}

/// Whether the processes of a cgroup are to be frozen. Freezing is a state in
/// between and cannot be asked for.
pub fn freeze_request(state: FreezerState) -> (r: Option<bool>)
    ensures
        r == match state {
            FreezerState::Thawed => Some(false),
            FreezerState::Frozen => Some(true),
            FreezerState::Freezing => None,
        },
{
    match state {
        FreezerState::Thawed => Some(false),
        FreezerState::Frozen => Some(true),
        FreezerState::Freezing => None,
    }
}

/// The directory of a cgroup below the mount point.
pub fn cgroup_path_under_root(root: &str, cpath: &str) -> (r: String)
    ensures
        r@ == joined(root@, without_root(cpath@)),
{
    let rest = strip_root(cpath);
    join(root, rest.as_str())
}

/// The directory whose presence tells that a cgroup has one for its processes.
pub fn init_subcgroup_path(cpath: &str) -> (r: String)
    ensures
        r@ == joined(joined(CGROUP_ROOT@, without_root(cpath@)), "init"@),
{
    let dir = cgroup_path_under_root(CGROUP_ROOT, cpath);
    join(dir.as_str(), "init")
}

/// One step of making the cgroups of a container.
#[derive(Clone, Copy, Debug, PartialEq, Eq, Structural)]
pub enum ManagerStep {
    /// Make the cgroup of the pod.
    CreatePod,
    /// Let the pod have what every container has.
    PodWhitelist,
    /// Let the pod have all devices.
    PodAllowAll,
    /// Note that the pod has all devices.
    MarkAllowedAll,
    /// Note that the cgroup of the pod is there.
    MarkInited,
    /// Make the cgroup of the container.
    CreateContainer,
    /// Let the container have what every container has.
    ContainerWhitelist,
}

/// What is known of the pod after a container was added that asks for all devices or
/// not. Without a cgroup of its own the pod stays as it is.
pub open spec fn info_after(pod: bool, info: DevicesCgroupInfo, all: bool) -> DevicesCgroupInfo {
    if pod {
        DevicesCgroupInfo { inited: true, allowed_all: info.allowed_all || all }
    } else {
        info
    }
}

/// The steps for the pod. Its cgroup is made with the first container, before that of
/// the container, which inherits its rules.
pub open spec fn pod_steps(pod: bool, info: DevicesCgroupInfo, all: bool) -> Seq<ManagerStep> {
    if !pod {
        Seq::empty()
    } else if info.inited {
        if !info.allowed_all && all {
            seq![ManagerStep::PodAllowAll, ManagerStep::MarkAllowedAll]
        } else {
            Seq::empty()
        }
    } else if all {
        seq![
            ManagerStep::CreatePod,
            ManagerStep::PodAllowAll,
            ManagerStep::MarkAllowedAll,
            ManagerStep::MarkInited,
        ]
    } else {
        seq![ManagerStep::CreatePod, ManagerStep::PodWhitelist, ManagerStep::MarkInited]
    }
}

/// The steps of making the cgroups of a container. Where nothing is known of the pod,
/// only the container gets a cgroup. The rules that it inherits are reset unless all
/// devices are allowed.
pub open spec fn manager_steps(pod: bool, info: Option<DevicesCgroupInfo>, all: bool) -> Seq<
    ManagerStep,
> {
    match info {
        None => seq![ManagerStep::CreateContainer],
        Some(i) => pod_steps(pod, i, all).push(ManagerStep::CreateContainer) + (if info_after(
            pod,
            i,
            all,
        ).allowed_all {
            Seq::empty()
        } else {
            seq![ManagerStep::ContainerWhitelist]
        }),
    }
}

/// What a step makes known of the pod.
pub open spec fn marked(step: ManagerStep, info: DevicesCgroupInfo) -> DevicesCgroupInfo {
    match step {
        ManagerStep::MarkAllowedAll => DevicesCgroupInfo { allowed_all: true, ..info },
        ManagerStep::MarkInited => DevicesCgroupInfo { inited: true, ..info },
        _ => info,
    }
}

/// What steps make known of the pod, one after the other.
pub open spec fn marked_all(steps: Seq<ManagerStep>, info: DevicesCgroupInfo) -> DevicesCgroupInfo
    decreases steps.len(),
{
    if steps.len() == 0 {
        info
    } else {
        marked(steps.last(), marked_all(steps.drop_last(), info))
    }
}

/// Notes what a performed step makes known of the pod.
pub fn mark(step: ManagerStep, info: &mut DevicesCgroupInfo)
    ensures
        *final(info) == marked(step, *old(info)),
{
    match step {
        ManagerStep::MarkAllowedAll => {
            info.allowed_all = true;
        },
        ManagerStep::MarkInited => {
            info.inited = true;
        },
        _ => {},
    }
}

/// The cgroup of the pod: the parent of that of the container, unless that is the
/// root.
pub open spec fn pod_path(cpath: Seq<char>) -> Option<Seq<char>> {
    match parent_of(cpath) {
        Some(p) => if p == "/"@ {
            None
        } else {
            Some(p)
        },
        None => None,
    }
}

/// The cgroups of a container.
#[derive(Debug)]
pub struct Manager {
    pub cpath: String,
    pub pod_cpath: Option<String>,
    pub devcg_allowed_all: bool,
}

/// The resource limits of a configuration.
pub open spec fn spec_fault(spec: Spec) -> Option<CgroupError> {
    match spec.linux {
        Some(linux) => match linux.resources {
            Some(r) => resource_fault(r),
            None => None,
        },
        None => None,
    }
}

impl Manager {
    /// Plans the cgroups of a container, on a machine that has version 2 of cgroups
    /// or not.
    pub fn new(
        cpath: &str,
        spec: &Spec,
        info: Option<DevicesCgroupInfo>,
        unified: bool,
    ) -> (r: Result<(Manager, Vec<ManagerStep>), CgroupError>)
        ensures
            match r {
                Err(e) => if !unified {
                    e == CgroupError::NotUnified
                } else {
                    spec_fault(*spec) == Some(e)
                },
                Ok(ms) => {
                    let all = first_all_rule(spec_devices(*spec));
                    let pod = pod_path(cpath@) is Some;
                    &&& unified
                    &&& spec_fault(*spec) is None
                    &&& ms.0.cpath@ == cpath@
                    &&& match ms.0.pod_cpath {
                        Some(p) => info is Some && pod_path(cpath@) == Some(p@),
                        None => info is None || !pod,
                    }
                    &&& ms.0.devcg_allowed_all == (info is Some && info_after(
                        pod,
                        info->0,
                        all,
                    ).allowed_all)
                    &&& ms.1@ == manager_steps(pod, info, all)
                },
            },
    {
        if !unified {
            return Err(CgroupError::NotUnified);
        }
        if let Some(linux) = &spec.linux {
            if let Some(resources) = &linux.resources {
                if let Err(e) = validate_resources(resources) {
                    return Err(e);
                }
            }
        }
        let mut steps: Vec<ManagerStep> = Vec::new();
        let known = match info {
            None => {
                steps.push(ManagerStep::CreateContainer);
                proof {
                    assert(steps@ =~= seq![ManagerStep::CreateContainer]);
                }
                let m = Manager {
                    cpath: cpath.to_owned(),
                    pod_cpath: None,
                    devcg_allowed_all: false,
                };
                return Ok((m, steps));
            },
            Some(i) => i,
        };
        let all = has_allowed_all_devices_rule(spec);
        let pod_cpath = match parent(cpath) {
            Some(p) => {
                if str_eq(p.as_str(), "/") {
                    None
                } else {
                    Some(p)
                }
            },
            None => None,
        };
        let pod = pod_cpath.is_some();
        let mut allowed_all = known.allowed_all;
        if pod {
            if known.inited {
                if !known.allowed_all && all {
                    steps.push(ManagerStep::PodAllowAll);
                    steps.push(ManagerStep::MarkAllowedAll);
                    allowed_all = true;
                }
            } else {
                steps.push(ManagerStep::CreatePod);
                if all {
                    steps.push(ManagerStep::PodAllowAll);
                    steps.push(ManagerStep::MarkAllowedAll);
                    allowed_all = true;
                } else {
                    steps.push(ManagerStep::PodWhitelist);
                }
                steps.push(ManagerStep::MarkInited);
            }
        }
        proof {
            assert(steps@ =~= pod_steps(pod, known, all));
        }
        steps.push(ManagerStep::CreateContainer);
        if !allowed_all {
            steps.push(ManagerStep::ContainerWhitelist);
        }
        proof {
            assert(steps@ =~= manager_steps(pod, info, all));
        }
        Ok((Manager { cpath: cpath.to_owned(), pod_cpath, devcg_allowed_all: allowed_all }, steps))
    }

    /// The cgroup with a given name below that of the container.
    pub fn cgroup_path_with_subcgroup(&self, subcgroup: &str) -> (r: String)
        ensures
            ({
                let name = without_trail(without_root(subcgroup@));
                r@ == if name.len() == 0 {
                    self.cpath@
                } else {
                    joined(self.cpath@, name)
                }
            }),
    {
        let name = strip_slashes(subcgroup);
        if name.as_str().is_empty() {
            self.cpath.clone()
        } else {
            join(self.cpath.as_str(), name.as_str())
        }
    }

    /// The cgroup that a process enters: the one below that of the container where
    /// there is one, else that of the container.
    pub fn apply(&self, has_init: bool) -> (r: String)
        ensures
            r@ == if has_init {
                joined(self.cpath@, "init"@)
            } else {
                self.cpath@
            },
    {
        if has_init {
            proof {
                lemma_init_name();
            }
            self.cgroup_path_with_subcgroup(INIT_SUBCGROUP)
        } else {
            self.cpath.clone()
        }
    }

    /// Plans what is written for new resource limits.
    pub fn set(&self, r: &LinuxResources, supported: &Vec<bool>) -> (res: Result<
        CgroupUpdate,
        CgroupError,
    >)
        requires
            resource_fault(*r) is None ==> super::resources::weighable(*r),
            supported@.len() == super::resources::hugepage_list(*r).len(),
        ensures
            match res {
                Err(e) => resource_fault(*r) == Some(e),
                Ok(u) => {
                    &&& resource_fault(*r) is None
                    &&& u.writes@ == super::resources::controller_writes(*r)
                    &&& match r.block_io {
                        Some(b) => u.block_io matches Some(x) && super::resources::is_block_io(x, b),
                        None => u.block_io is None,
                    }
                    &&& super::resources::huge_page_views(u.hugepages@)
                        == super::resources::huge_pages(
                        super::resources::hugepage_list(*r),
                        supported@,
                    )
                    &&& super::devices::rules(u.devices@) == if self.devcg_allowed_all {
                        Seq::<super::devices::DeviceRule>::empty()
                    } else {
                        super::devices::device_rules(super::resources::device_list(*r))
                    }
                },
            },
    {
        plan_resources(r, supported, self.devcg_allowed_all)
    }

    /// The directory of the cgroup.
    pub fn get_cgroup_path(&self) -> (r: String)
        ensures
            r@ == joined(CGROUP_ROOT@, without_root(self.cpath@)),
    {
        cgroup_path_under_root(CGROUP_ROOT, self.cpath.as_str())
    }

    /// The name of this kind of manager.
    pub fn name(&self) -> (r: &'static str)
        ensures
            r@ == "cgroupfs"@,
    {
        "cgroupfs"
    }
}

proof fn lemma_init_name()
    ensures
        without_trail(without_root(INIT_SUBCGROUP@)) == "init"@,
        "init"@.len() == 4,
{
    reveal_strlit("/init/");
    reveal_strlit("init");
    let s = INIT_SUBCGROUP@;
    assert(s == "/init/"@);
    let t = s.skip(1);
    assert(without_root(t) == t);
    assert(without_root(s) == t);
    assert(t.last() == '/');
    assert(t.drop_last() =~= "init"@);
    assert(without_trail(t.drop_last()) == t.drop_last());
}

/// The steps of making the cgroups of a container leave known of the pod what the
/// container adds to it: once made, the cgroup of the pod stays known, and once a
/// container asked for all devices, they stay allowed.
pub proof fn law_pod_knowledge_only_grows(pod: bool, info: DevicesCgroupInfo, all: bool)
    ensures
        marked_all(manager_steps(pod, Some(info), all), info) == info_after(pod, info, all),
        info.inited ==> info_after(pod, info, all).inited,
        info.allowed_all ==> info_after(pod, info, all).allowed_all,
{
    let steps = manager_steps(pod, Some(info), all);
    reveal_with_fuel(marked_all, 7);
    let head = pod_steps(pod, info, all);
    assert(head.push(ManagerStep::CreateContainer).drop_last() =~= head);
    if !info_after(pod, info, all).allowed_all {
        assert(steps.drop_last() =~= head.push(ManagerStep::CreateContainer));
    } else {
        assert(steps =~= head.push(ManagerStep::CreateContainer));
    }
    assert(marked_all(steps, info) == marked_all(head, info));
}

/// A container whose cgroup was made without a reset of its rules has all devices,
/// and so has its pod; every other container is reset to what every container has.
pub proof fn law_container_is_reset_unless_all_allowed(
    pod: bool,
    info: DevicesCgroupInfo,
    all: bool,
)
    ensures
        info_after(pod, info, all).allowed_all <==> manager_steps(
            pod,
            Some(info),
            all,
        ).last() == ManagerStep::CreateContainer,
        !info_after(pod, info, all).allowed_all <==> manager_steps(
            pod,
            Some(info),
            all,
        ).last() == ManagerStep::ContainerWhitelist,
{
}

} // verus!
