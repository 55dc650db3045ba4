//! Core of a memory-transfer bandwidth benchmark for compute accelerators.
//!
//! The library holds the parts of the benchmark whose behaviour can be stated
//! and proved: the size-sweep schedules, the per-trial bookkeeping around an
//! asynchronous completion signal, the checksum used to verify downloaded
//! data, and the statistics that reduce raw trial durations into reportable
//! metrics. The accelerator API, command-line handling and table rendering
//! live outside the library and talk to it through plain values.

pub mod errors;
pub mod schedule;
pub mod stats;
pub mod sweep;
pub mod trial;
