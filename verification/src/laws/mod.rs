pub mod types;
pub mod names;
pub mod begin;
pub mod sound;
pub mod references;
pub mod chain;
pub mod compiled;
pub mod case;
pub mod rescoped;
pub mod alike;
pub mod insensitive;
