use vstd::prelude::*;

verus! {

/// One instance's resource use at one sampling instant.
#[derive(Debug, Clone, Copy, PartialEq, Eq, Structural)]
pub struct MonitorReport {
    /// Seconds since the Unix epoch.
    pub timestamp: i64,
    /// CPU use in thousandths of one core.
    pub cpu_permille: u32,
    pub memory_bytes: u64,
    pub uptime_secs: u64,
}

} // verus!
