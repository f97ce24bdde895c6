//! Exposes the inferred types of a statically analyzed program as a flat,
//! deduplicated graph of wire records.
//!
//! The semantic oracle (the external type-inference engine) is modeled by
//! plain data: opaque type identities paired with structural shapes. On top
//! of that model this crate verifies the type registry (identity interning
//! and structural encoding), the attribution collector (a source-order walk
//! of a syntax-tree arena), the session protocol's lifecycle rules, and the
//! laws that hold across them: stable ids, exactly-once disclosure, and
//! element-wise unwrapping of binding targets.

pub mod collector;
pub mod encode;
pub mod laws;
pub mod protocol;
pub mod registry;
pub mod session;
pub mod shape;
