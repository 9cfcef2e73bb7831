//! A safe object model for COM-style components: interface identity,
//! per-interface dispatch tables, reference-counted lifetime, aggregation
//! and class factories, with every operation carrying a proved contract.

pub mod arena;
pub mod declaration;
pub mod descriptor;
pub mod factory;
pub mod iid;
pub mod laws;
pub mod layout;
pub mod model;
pub mod object;
pub mod status;
pub mod vtable;
