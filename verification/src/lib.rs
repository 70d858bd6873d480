//! A single-node, label-scoped container reconciler library.
//!
//! The library holds the decision logic of a convergence loop that drives the
//! set of running container replicas of one service toward a declared desired
//! state: classifying observed replicas as running or dead, tracking
//! consecutive failures to gate respawn attempts, planning per-tick scaling
//! actions, and sequencing rolling updates spawn-before-kill. All container
//! runtime calls are performed by the surrounding binary; the library computes
//! every decision from plain observed values, and each decision carries a
//! proved contract.

pub mod backoff;
pub mod naming;
pub mod observe;
pub mod plan;
pub mod rolling;
pub mod textscan;
