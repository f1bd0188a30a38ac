//! Errors of the harness that carry no outside value.

use vstd::prelude::*;

verus! {

/// A command line argument that could not be read.
#[derive(Debug)]
pub enum CliParseError {
    Other(String),
}

/// Something a backend cannot express.
#[derive(Debug)]
pub enum UnsupportedError {
    Other(String),
}

/// A value that the caller and callee of a test disagreed on.
#[derive(Debug)]
pub enum CheckFailure {
    /// The bytes of a value differed.
    ValMismatch {
        func_idx: usize,
        arg_idx: usize,
        val_idx: usize,
        func_name: String,
        arg_name: String,
        arg_kind: String,
        arg_ty_name: String,
        val_path: String,
        val_ty_name: String,
        expected: Vec<u8>,
        caller: Vec<u8>,
        callee: Vec<u8>,
    },
    /// The active variant of a tagged union differed.
    TagMismatch {
        func_idx: usize,
        arg_idx: usize,
        val_idx: usize,
        func_name: String,
        arg_name: String,
        arg_kind: String,
        arg_ty_name: String,
        val_path: String,
        val_ty_name: String,
        expected: String,
        caller: String,
        callee: String,
    },
}

} // verus!
