//! Static configuration of a sidecar, constructed once at startup.

use vstd::prelude::*;
use std::path::PathBuf;
use std::time::Duration;
use crate::members::MemberConfig;

verus! {

/// Makes std's `PathBuf` usable as an opaque field type; nothing is assumed
/// of what it holds.
#[verifier::external_type_specification]
#[verifier::external_body]
pub struct ExPathBuf(PathBuf);

/// Relies on `PathBuf::clone`, used by the derived `Clone` impls: the copy
/// holds the same path.
pub assume_specification[ <PathBuf as Clone>::clone ](p: &PathBuf) -> (r: PathBuf)
    ensures
        r == *p,
;

/// Relies on `Duration::clone`, used by the derived `Clone` impls: `Duration`
/// is `Copy`, so the clone is the same span.
pub assume_specification[ <Duration as Clone>::clone ](d: &Duration) -> (r: Duration)
    ensures
        r == *d,
;

/// Sidecar operator config
#[derive(Debug, Clone)]
pub struct Config {
    /// Name of this node
    pub name: String,
    /// The cluster name
    pub cluster_name: String,
    /// Initial member config
    pub init_member: MemberConfig,
    /// Reconcile cluster interval
    pub reconcile_interval: Duration,
    /// The backend to run xline
    pub backend: BackendConfig,
    /// The sidecar monitor (operator) config, set to enable heartbeat
    pub monitor: Option<MonitorConfig>,
    /// Backup storage config
    pub backup: Option<BackupConfig>,
    /// The sidecar registry config, set to enable configuration discovery
    pub registry: Option<RegistryConfig>,
}

/// Monitor (operator) config
#[derive(Debug, Clone)]
pub struct MonitorConfig {
    /// Monitor address
    pub monitor_addr: String,
    /// heartbeat interval
    pub heartbeat_interval: Duration,
}

/// Registry config
#[derive(Debug, Clone, Eq, PartialEq)]
#[non_exhaustive]
pub enum RegistryConfig {
    /// Statefulset mode
    Sts {
        /// Statefulset name
        name: String,
        /// Statefulset namespace
        namespace: String,
    },
    /// Http mode
    Http {
        /// Http server address
        server_addr: String,
    },
}

/// Sidecar backend: how xline is set up
#[derive(Debug, Clone, PartialEq, Eq)]
#[non_exhaustive]
pub enum BackendConfig {
    /// K8s backend
    K8s {
        /// The pod name of this node
        pod_name: String,
        /// The xline container name, used to attach on it
        container_name: String,
        /// The namespace of this node
        namespace: String,
    },
    /// Local backend
    Local,
}

/// Backup storage config
#[derive(Debug, Clone, PartialEq, Eq)]
#[non_exhaustive]
pub enum BackupConfig {
    /// S3 storage
    S3 {
        /// S3 bucket name
        bucket: String,
    },
    /// PV storage
    PV {
        /// Mounted path of pv
        path: PathBuf,
    },
}

} // verus!
