//! The front end of the Koto language and the core of its maps, with the proofs that they do what
//! their contracts say.
//!
//! - [`parser`] turns the tokens of a script into an AST and a pool of constants. What each
//!   construct is parsed to is the subject of [`parser::grammar`].
//! - [`frame`] keeps track of the ids that a function assigns and captures.
//! - [`holz`] builds the tree of a Holz script from what its grammar matched.
//! - [`map_module`] holds the functions of the `map` module, and [`value_map`] the maps that they
//!   work on.
pub mod ast;
pub mod constant_pool;
pub mod error;
pub mod frame;
pub mod holz;
pub mod lexer;
pub mod map_module;
pub mod parser;
pub mod value_map;
