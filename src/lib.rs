//! Minimum-of-N timing harness and throughput arithmetic for comparing
//! serialization libraries on fixed payloads.
pub mod clock;
pub mod config;
pub mod measure;
pub mod report;
pub mod throughput;
pub mod timer;
