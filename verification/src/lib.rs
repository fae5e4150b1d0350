//! Collaborative Bitcoin multi-signature wallet coordinator.
//!
//! A group of cosigners jointly owns a spending policy (a miniscript
//! descriptor). This crate is the coordination engine: it maps wallet-domain
//! objects (policies, proposals, approvals, completions, signer
//! advertisements, connect sessions) onto encrypted relay events with a
//! per-policy shared-key scheme, ingests the relay event stream and resolves
//! out-of-order dependencies into a consistent local store, and runs the
//! remote-signing request channel. Relay transport, chain indexing and
//! keychain files are external collaborators consumed through plain values.

pub mod codec;
pub mod crypto;
pub mod descriptor;
pub mod domain;
pub mod engine;
pub mod event;
pub mod extern_types;
pub mod ids;
pub mod laws;
pub mod maps;
pub mod reducer;
pub mod store;
pub mod types;
