//! Interface descriptions embedded in compiled modules: extraction, merging
//! and the mapping of interface types to binding type expressions.

pub mod expr;
pub mod extract;
pub mod extract_laws;
pub mod fixtures;
pub mod ir;
pub mod mapping;
pub mod mapping_laws;
pub mod merge;
pub mod merge_laws;
pub mod names;
pub mod stubs;

pub use extract::{extract_module_interfaces, ModuleInterfaces};
pub use merge::ComponentInterfaces;
