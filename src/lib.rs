//! Dynamic values of an embeddable scripting runtime: a tagged union with
//! three string size classes, numeric cross-type equality, a hash that agrees
//! with that equality, and the hybrid table aggregate.
pub mod ieee;
pub mod value;
pub mod table;
pub mod render;
pub mod lemmas;
