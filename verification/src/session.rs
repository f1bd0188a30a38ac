//! What a test session is asked to produce, and how it ends when tests fail.

use vstd::prelude::*;
use crate::text::{owned, push_str, str_eq};

verus! {

/// How the final report is written.
#[derive(Debug, Clone, Copy, PartialEq, Eq, Structural)]
pub enum OutputFormat {
    Human,
    Json,
    RustcJson,
}

/// The name of an output format.
pub open spec fn format_name(f: OutputFormat) -> Seq<char> {
    match f {
        OutputFormat::Human => "human"@,
        OutputFormat::Json => "json"@,
        OutputFormat::RustcJson => "rustc-json"@,
    }
}

impl OutputFormat {
    /// The name of this format.
    pub fn name(&self) -> (r: &'static str)
        ensures
            r@ == format_name(*self),
    {
        match self {
            OutputFormat::Human => "human",
            OutputFormat::Json => "json",
            OutputFormat::RustcJson => "rustc-json",
        }
    }

    /// The format named `s`.
    pub fn from_str(s: &str) -> (r: Result<OutputFormat, String>)
        ensures
            match r {
                Ok(f) => format_name(f) == s@,
                Err(m) => m@ == "unknown output format: "@ + s@
                    && forall|f: OutputFormat| format_name(f) != s@,
            },
    {
        if str_eq(s, "human") {
            Ok(OutputFormat::Human)
        } else if str_eq(s, "json") {
            Ok(OutputFormat::Json)
        } else if str_eq(s, "rustc-json") {
            Ok(OutputFormat::RustcJson)
        } else {
            let mut m = owned("unknown output format: ");
            push_str(&mut m, s);
            Err(m)
        }
    }
}

/// No two output formats share a name, so reading back the name of a
/// format gives the format.
pub proof fn lemma_format_name_roundtrip(f: OutputFormat, g: OutputFormat)
    ensures
        format_name(f) == format_name(g) <==> f == g,
{
    reveal_strlit("human");
    reveal_strlit("json");
    reveal_strlit("rustc-json");
    if format_name(f) == format_name(g) {
        assert(format_name(f).len() == format_name(g).len());
        assert(format_name(f)[0] == format_name(g)[0]);
    }
}

/// The session ended with failed tests.
#[derive(Debug)]
pub struct TestsFailed {}

} // verus!
