//! Core of a user-space block-storage replication engine.
//!
//! A *nexus* is a virtual block device that fans out writes to a set of
//! replica *children*, each backed by a block device.  This crate verifies
//! the triad of subsystems at the heart of that engine: the child lifecycle
//! state machine (with its NVMe reservation fencing protocol and partial
//! rebuild I/O log), and the rebuild job backend that reconstructs an
//! out-of-sync child from a healthy one.
//!
//! Device I/O itself is performed by external collaborators; the library
//! models a block device by the plain values the logic reads from it, and
//! states every decision the engine takes as a verified function of those
//! values.

pub mod child;
pub mod child_state;
mod clock;
pub mod device;
pub mod grpc;
pub mod iolog;
pub mod rebuild_backend;
pub mod rebuild_state;
pub mod rebuild_tasks;
pub mod resv;
pub mod storage;
pub mod uri;
pub mod wipe;
