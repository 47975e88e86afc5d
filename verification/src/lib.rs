//! Detection of out-of-memory kills: the fixed-width record that the kernel
//! probe emits, its decoding in user space, the resolution of the killed
//! process to a Kubernetes workload, and the metrics kept per workload.

pub mod cgroup;
pub mod consumer;
pub mod event;
pub mod kubernetes;
pub mod metrics;
pub mod probe;
pub mod supervisor;
pub mod wire;
