//! Reconciliation of durable object namespaces for script deployment.
//!
//! Binding a script to a namespace requires the namespace's remote
//! identifier, while fully creating a namespace requires the script that
//! implements it to exist already.  This library breaks that cycle: it
//! caches the remote directory of namespaces in a [`registry::Registry`],
//! creates placeholder namespaces for names a script both implements and
//! uses, resolves binding names to identifiers, and classifies each
//! implemented namespace as to-create, to-update or already correct once
//! the script has been uploaded.
//!
//! The library itself performs no network traffic.  Every remote call is
//! driven by the caller, which hands the parsed responses back in; the
//! decisions in between are verified.

pub mod deploy;
pub mod durable_objects;
pub mod error;
pub mod laws;
pub mod registry;
pub mod remote;
pub mod settings;
