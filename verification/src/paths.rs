//! Where things are kept on the host.

use vstd::prelude::*;

verus! {

/// The recorded state.
pub const STATE_PATH: &'static str = "/var/lib/shr-rs/state.toml";

/// Held by the one command that may change the state.
pub const STATE_LOCK_PATH: &'static str = "/var/lib/shr-rs/.shr-rs.lock";

/// Where the host keeps the list of its arrays.
pub const MDADM_CONF_PATH: &'static str = "/etc/mdadm.conf";

/// Where the host keeps the list of its mounts.
pub const FSTAB_PATH: &'static str = "/etc/fstab";

/// Where generated systemd units go.
pub const SYSTEMD_UNIT_DIR: &'static str = "/etc/systemd/system";

/// The policy that the operator writes.
pub const NOTIFY_POLICY_PATH: &'static str = "/etc/shr-rs/policy.toml";

} // verus!
