//! Reconciliation engine for bootstrapping an API gateway into a declared
//! state: version-based compatibility detection, template resolution,
//! selector parsing, a name-to-identifier index, and the ordered
//! wipe-and-recreate synchronization plan.

pub mod dialect;
pub mod engine;
pub mod entity;
pub mod index;
pub mod kv;
pub mod selector;
pub mod template;
pub mod text;
pub mod version;
pub mod wipe;
