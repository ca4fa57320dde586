//! A small Lisp: text is lexed into tokens, parsed into one tree and
//! evaluated under a local scope and a table of global definitions.
//!
//! The logic is verified: `lexer`, `parser` and `eval` give what the
//! mathematical definitions beside them say (`semantics` for evaluation),
//! and `laws`, `grammar`, `settled` and `replay` prove what follows from
//! those. Three things
//! are not proved and stand behind trusted functions whose contracts say
//! what is taken on trust: arithmetic on integers of any size, done by
//! `num_bigint` (`integer`); the persistent map of bindings, which is
//! `rpds::HashTrieMap` (`env`); and `String::push` (`text`). Decimals are
//! carried as bit patterns and computed by the host (`decimal`).

pub mod arith;
pub mod decimal;
pub mod driver;
pub mod env;
pub mod error;
pub mod eval;
pub mod grammar;
pub mod integer;
pub mod interpreter;
pub mod laws;
pub mod lexer;
pub mod lists;
pub mod parser;
pub mod render;
pub mod replay;
pub mod semantics;
pub mod settled;
pub mod text;
pub mod token;
pub mod tree;
