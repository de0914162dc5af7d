//! Model, resolver, account normaliser, wire codec and source emitter for
//! shank-style program interface descriptions.
pub mod codec;
pub mod error;
pub mod idl;
pub mod naming;
pub mod text;
pub mod instruction_src;
pub mod instructions;
pub mod typedefs;
