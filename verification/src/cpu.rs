//! The CPUs of a container.
use vstd::prelude::*;

use crate::oci::LinuxCpu;

verus! {

/// Why the CPUs of a container cannot be told.
#[derive(Debug)]
pub enum CpuError {
    /// The list of CPUs is no good, for this reason.
    InvalidCpuSet(String),
    /// The list of memory nodes is no good, for this reason.
    InvalidNodeSet(String),
}

impl CpuError {
    /// The text of the error.
    pub fn message(&self) -> (r: String)
        ensures
            r@ == match *self {
                CpuError::InvalidCpuSet(s) => "Invalid CPU list: "@ + s@,
                CpuError::InvalidNodeSet(s) => "Invalid NUMA memory node list: "@ + s@,
            },
    {
        match self {
            CpuError::InvalidCpuSet(s) => {
                let mut t = "Invalid CPU list: ".to_owned();
                t.append(s.as_str());
                t
            },
            CpuError::InvalidNodeSet(s) => {
                let mut t = "Invalid NUMA memory node list: ".to_owned();
                t.append(s.as_str());
                t
            },
        }
    }
}

/// A number of virtual CPUs.
#[derive(Clone, Copy, Debug, PartialEq, Eq, Structural)]
pub enum VcpuCount {
    /// A quota of run time in a period; the number is their ratio.
    Share(u64, u64),
    /// Whole CPUs.
    Whole(usize),
}

/// The CPUs of a container.
#[derive(Clone, Copy, Debug, PartialEq, Eq, Structural)]
pub struct LinuxContainerCpuResources {
    pub calculated_vcpu: Option<VcpuCount>,
}

/// The number of virtual CPUs of limits whose list holds so many CPUs: the ratio of quota
/// and period where both limit, else the CPUs of the list, and none where nothing limits.
pub open spec fn vcpus_of(cpu: LinuxCpu, listed: nat) -> Option<VcpuCount> {
    let period = match cpu.period {
        Some(p) => p as int,
        None => 0,
    };
    let quota = match cpu.quota {
        Some(q) => q as int,
        None => -1,
    };
    if quota >= 0 && period > 0 {
        Some(VcpuCount::Share(quota as u64, period as u64))
    } else if listed > 0 {
        Some(VcpuCount::Whole(listed as usize))
    } else {
        None
    }
}

impl LinuxContainerCpuResources {
    /// No limit.
    pub fn unlimited() -> (r: LinuxContainerCpuResources)
        ensures
            r.calculated_vcpu is None,
    {
        LinuxContainerCpuResources { calculated_vcpu: None }
    }

    /// The CPUs that limits give. `cpus` are the CPUs in the list of the limits, and
    /// `nodes` tells whether the list of memory nodes is good; a list that is not there is
    /// good and empty.
    pub fn try_from(cpu: &LinuxCpu, cpus: Result<usize, String>, nodes: Result<(), String>) -> (r:
        Result<LinuxContainerCpuResources, CpuError>)
        ensures
            match cpus {
                Err(text) => r matches Err(CpuError::InvalidCpuSet(s)) && s@ == text@,
                Ok(n) => match nodes {
                    Err(text) => r matches Err(CpuError::InvalidNodeSet(s)) && s@ == text@,
                    Ok(_) => r matches Ok(c) && c.calculated_vcpu == vcpus_of(*cpu, n as nat),
                },
            },
    {
        let n: usize = match cpus {
            Ok(n) => n,
            Err(text) => {
                return Err(CpuError::InvalidCpuSet(text));
            },
        };
        if let Err(text) = nodes {
            return Err(CpuError::InvalidNodeSet(text));
        }
        let period: u64 = match cpu.period {
            Some(p) => p,
            None => 0,
        };
        let quota: i64 = match cpu.quota {
            Some(q) => q,
            None => -1,
        };
        let calculated_vcpu = if quota >= 0 && period > 0 {
            Some(VcpuCount::Share(quota as u64, period))
        } else if n > 0 {
            Some(VcpuCount::Whole(n))
        } else {
            None
        };
        Ok(LinuxContainerCpuResources { calculated_vcpu })
    }

    /// The number of virtual CPUs, and none where nothing limits them.
    pub fn get_vcpus(&self) -> (r: Option<VcpuCount>)
        ensures
            r == self.calculated_vcpu,
    {
        self.calculated_vcpu
    }
}

} // verus!
