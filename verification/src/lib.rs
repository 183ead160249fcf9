//! An interpreter for a small Lisp in the Clojure family.
//!
//! Text is read into forms, forms are lowered to values, and values are
//! evaluated against an interpreter that owns its namespaces, its lexical
//! scopes and the cells behind vars and atoms.
pub mod balance;
pub mod bindings;
pub mod boot;
pub mod collections;
pub mod equality;
pub mod errors;
pub mod host;
pub mod interpreter;
pub mod laws;
pub mod maps;
pub mod namespace;
pub mod params;
pub mod prelude;
pub mod prelude_spec;
pub mod printer;
pub mod quasiquote;
pub mod reader;
pub mod roundtrip;
pub mod semantics;
pub mod state;
pub mod text;
pub mod tidy;
pub mod value;
pub mod world;
