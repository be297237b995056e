//! Names that the runtime, its management server and the kernel agree on.
use vstd::prelude::*;

verus! {

/// The key of the path of a volume.
pub const DIRECT_VOLUME_PATH_KEY: &'static str = "path";

/// Where the statistics of a volume are asked for.
pub const DIRECT_VOLUME_STATS_URL: &'static str = "/direct-volume/stats";

/// Where a volume is resized.
pub const DIRECT_VOLUME_RESIZE_URL: &'static str = "/direct-volume/resize";

/// Where the socket of the agent is asked for.
pub const AGENT_URL: &'static str = "/agent-url";

/// Where the metrics of the host are asked for.
pub const METRICS_URL: &'static str = "/metrics";

/// Where the metrics of the guest are asked for, which are not to be relied on.
pub const GUEST_METRICS_URL: &'static str = "/metrics/guest";

/// Where the policy of the agent is set.
pub const AGENT_POLICY_URL: &'static str = "/policy";

pub const ERR_NO_SHIM_SERVER: &'static str = "Failed to create shim management server";

pub const SHIM_MGMT_SOCK_NAME: &'static str = "shim-monitor.sock";

/// The directory with the state of the sandboxes.
pub const KATA_PATH: &'static str = "/run/kata";

/// The directory with the state of the sandboxes.
pub fn sb_storage_path() -> (r: &'static str)
    ensures
        r@ == KATA_PATH@,
{
    KATA_PATH
}

/// The file with the configuration of a container in its bundle.
pub const OCI_SPEC_CONFIG_FILE_NAME: &'static str = "config.json";

pub const PROC_MOUNTSTATS: &'static str = "/proc/self/mountstats";

pub const U_EVENT_ACTION: &'static str = "ACTION";

pub const U_EVENT_ACTION_ADD: &'static str = "add";

pub const U_EVENT_ACTION_REMOVE: &'static str = "remove";

pub const U_EVENT_DEV_PATH: &'static str = "DEVPATH";

pub const U_EVENT_SUB_SYSTEM: &'static str = "SUBSYSTEM";

pub const U_EVENT_SEQ_NUM: &'static str = "SEQNUM";

pub const U_EVENT_DEV_NAME: &'static str = "DEVNAME";

pub const U_EVENT_INTERFACE: &'static str = "INTERFACE";

} // verus!
