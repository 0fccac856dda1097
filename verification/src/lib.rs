//! A generic, verified intermediate-representation (IR) core for describing
//! a single hardware module as a tree of typed operations, regions and
//! blocks, with interned attributes and types, a structural verifier and a
//! deterministic printer.

pub mod builder;
pub mod catalog;
pub mod context;
pub mod ir;
pub mod printer;
pub mod schema;
pub mod text;
pub mod validate;
