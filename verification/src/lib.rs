//! A YAML 1.2 tokenizer: turns a stream of characters into a stream of tokens,
//! resolving indentation-driven block structure and simple-key lookahead.

pub mod block_scalar;
pub mod chars;
pub mod directive;
pub mod driver;
pub mod emitter;
pub mod fetch;
pub mod flow_scalar;
pub mod fold;
pub mod keys;
pub mod laws;
pub mod model;
pub mod nesting;
pub mod plain_scalar;
pub mod scanner;
pub mod tag;
pub mod text;
pub mod token;
