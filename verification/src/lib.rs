//! Verified core of an ABI compatibility tester: the kdl-script type
//! language (parser, type checker and definition order), the value
//! generators that fill test values, the check that both sides of a call
//! saw the same values, the Rust backend's type declarations and value
//! reports, and the bookkeeping that finds, selects, names and reports
//! tests.

pub mod spanned;
pub mod text;
pub mod seqs;
pub mod kdl_doc;
pub mod kdl_text;
pub mod ast;
pub mod tydent;
pub mod stable_map;
pub mod parse;
pub mod types;
pub mod compiler;
pub mod error;
pub mod harness;
pub mod fivemat;
pub mod abis;
pub mod procgen;
pub mod graph;
pub mod rust_decls;
pub mod rust_write;
pub mod session;
