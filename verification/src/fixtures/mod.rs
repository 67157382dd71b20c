//! Small libraries of the kind that bindings are generated for. They show
//! what crosses the boundary: records, enums, objects and trait interfaces.

pub mod proc_macro_pure;
pub mod trait_interfaces;
