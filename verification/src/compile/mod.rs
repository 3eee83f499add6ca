pub mod analysis;
pub mod analyze;
pub mod capitals;
pub mod classify;
pub mod collapse;
pub mod node;
pub mod scope;
pub mod script;
pub mod types;
pub mod stubs;
pub mod checks;
pub mod indices;
pub mod emit;
pub mod digest;
