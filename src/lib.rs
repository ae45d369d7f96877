//! CPU utilisation probe: turns two readings of the cumulative CPU-time
//! counters into the time spent per category over a fixed interval.

pub mod cpu;
pub mod cpuacct;
pub mod error;
pub mod proc_stat;
pub mod text;

pub use cpu::{CpuMeasurement, CpuStat};
pub use error::ProbeError;
