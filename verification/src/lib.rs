//! Falcon: a declarative network-topology harness.
//!
//! An engineer describes a graph of virtual machines (nodes) joined by
//! point-to-point links; the harness launches, interconnects and drives
//! those machines on a single host.  This crate is the verified core:
//!
//! - [`topology`] and [`runner`]: the deployment model and its builder,
//!   whose operations preserve well-formedness: distinct names, exact
//!   radix accounting, and one host-link name per endpoint;
//! - [`names`]: the naming scheme tying endpoints to host links, with
//!   its injectivity proof;
//! - [`netplan`]: the datalink plans that create and tear down the
//!   network, proved against a model of the host's link namespace;
//! - [`components`]: the per-node device plan for the hypervisor's
//!   instance spec, with its fixed PCI slot layout;
//! - [`serial`]: the serial-console commander: the login protocol,
//!   command framing against the end-of-command sentinel, and output
//!   stripping;
//! - [`portscan`]: discovery of the hypervisor's control port from its
//!   growing log;
//! - [`sidecar`] and [`workspace`]: the per-node runtime files, their
//!   exact formats, and the best-effort teardown decisions;
//! - [`ser`]: the serialized topology document with a proven
//!   write-then-read round trip;
//! - [`zfsplan`], [`digest`], [`mac`], [`ids`], [`zones`]: storage and
//!   process command plans, asset digests, MAC parsing, instance
//!   identifiers, and zone-test helpers.
//!
//! The unverified driver around this crate spawns processes, talks to
//! the hypervisor's control API and WebSocket, runs host commands, and
//! performs all file and network input/output; it only executes what
//! the plans computed here say.

use vstd::prelude::*;

pub mod digest;
pub mod errors;
pub mod mac;
pub mod names;
pub mod netplan;
pub mod ids;
pub mod topology;
pub mod components;
pub mod runner;
pub mod portscan;
pub mod ser;
pub mod serial;
pub mod sidecar;
pub mod workspace;
pub mod zfsplan;
pub mod zones;

verus! {

/// Default per-deployment working directory.
pub const DEFAULT_FALCON_DIR: &'static str = ".falcon";

/// Where the hypervisor binary lives inside the working directory.
pub const DEFAULT_PROPOLIS_RELATIVE_PATH: &'static str = "bin/propolis-server";

/// Default hypervisor binary path under the default working directory.
pub const DEFAULT_PROPOLIS_SERVER: &'static str = ".falcon/bin/propolis-server";

} // verus!
