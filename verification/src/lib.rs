//! Reconciles a declared GPU partitioning intent against the live state of
//! NVIDIA GPUs that support Multi-Instance GPU (MIG).
//!
//! The crate identifies GPU models, classifies the MIG state of each card,
//! resolves partition layouts and decides which control commands a run has to
//! issue. Every decision is a function from plain values to plain values; the
//! caller performs the commands.

pub mod config;
pub mod error;
pub mod gpu;
pub mod mig_profile;
pub mod pattern;
pub mod reconcile;
pub mod text;
