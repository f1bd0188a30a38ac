//! What a test run is configured with: the calling convention, the layout
//! representation, which functions/arguments/values to write, and how.

use vstd::prelude::*;
use crate::error::CliParseError;
use crate::text::{owned, str_eq, push_str};
use crate::harness::vals::ValueGeneratorKind;
use crate::types::TypedProgram;

verus! {

/// The calling convention a test's functions are declared with.
#[derive(Debug, Clone, Copy, PartialEq, Eq, Structural)]
pub enum CallingConvention {
    /// The platform's default C convention.
    C,
    /// Rust's default calling convention.
    Rust,
    Cdecl,
    /// The platform's default OS convention.
    System,
    /// x64 windows C convention.
    Win64,
    /// x64 non-windows C convention.
    Sysv64,
    /// ARM C convention.
    Aapcs,
    /// Win32 x86 system APIs.
    Stdcall,
    /// Microsoft fastcall.
    Fastcall,
    /// Microsoft vectorcall.
    Vectorcall,
}

/// The name of a calling convention.
pub open spec fn convention_name(c: CallingConvention) -> Seq<char> {
    match c {
        CallingConvention::C => "c"@,
        CallingConvention::Rust => "rust"@,
        CallingConvention::Cdecl => "cdecl"@,
        CallingConvention::System => "system"@,
        CallingConvention::Win64 => "win64"@,
        CallingConvention::Sysv64 => "sysv64"@,
        CallingConvention::Aapcs => "aapcs"@,
        CallingConvention::Stdcall => "stdcall"@,
        CallingConvention::Fastcall => "fastcall"@,
        CallingConvention::Vectorcall => "vectorcall"@,
    }
}

/// The error for a name that is no calling convention's.
pub open spec fn unknown_convention_msg(s: Seq<char>) -> Seq<char> {
    "unknown CallingConvention: "@ + s
}

impl CallingConvention {
    /// The name of this calling convention.
    pub fn name(&self) -> (r: &'static str)
        ensures
            r@ == convention_name(*self),
    {
        match self {
            CallingConvention::C => "c",
            CallingConvention::Rust => "rust",
            CallingConvention::Cdecl => "cdecl",
            CallingConvention::System => "system",
            CallingConvention::Win64 => "win64",
            CallingConvention::Sysv64 => "sysv64",
            CallingConvention::Aapcs => "aapcs",
            CallingConvention::Stdcall => "stdcall",
            CallingConvention::Fastcall => "fastcall",
            CallingConvention::Vectorcall => "vectorcall",
        }
    }

    /// The calling convention named `s`.
    pub fn from_str(s: &str) -> (r: Result<CallingConvention, String>)
        ensures
            match r {
                Ok(c) => convention_name(c) == s@,
                Err(m) => m@ == unknown_convention_msg(s@)
                    && forall|c: CallingConvention| convention_name(c) != s@,
            },
    {
        if str_eq(s, "c") {
            Ok(CallingConvention::C)
        } else if str_eq(s, "rust") {
            Ok(CallingConvention::Rust)
        } else if str_eq(s, "cdecl") {
            Ok(CallingConvention::Cdecl)
        } else if str_eq(s, "system") {
            Ok(CallingConvention::System)
        } else if str_eq(s, "win64") {
            Ok(CallingConvention::Win64)
        } else if str_eq(s, "sysv64") {
            Ok(CallingConvention::Sysv64)
        } else if str_eq(s, "aapcs") {
            Ok(CallingConvention::Aapcs)
        } else if str_eq(s, "stdcall") {
            Ok(CallingConvention::Stdcall)
        } else if str_eq(s, "fastcall") {
            Ok(CallingConvention::Fastcall)
        } else if str_eq(s, "vectorcall") {
            Ok(CallingConvention::Vectorcall)
        } else {
            let mut m = owned("unknown CallingConvention: ");
            push_str(&mut m, s);
            Err(m)
        }
    }
}

/// No two calling conventions share a name, so reading back the name of a
/// convention gives the convention.
pub proof fn lemma_convention_name_roundtrip(c: CallingConvention, d: CallingConvention)
    ensures
        convention_name(c) == convention_name(d) <==> c == d,
{
    reveal_strlit("c");
    reveal_strlit("rust");
    reveal_strlit("cdecl");
    reveal_strlit("system");
    reveal_strlit("win64");
    reveal_strlit("sysv64");
    reveal_strlit("aapcs");
    reveal_strlit("stdcall");
    reveal_strlit("fastcall");
    reveal_strlit("vectorcall");
    if convention_name(c) == convention_name(d) {
        let n = convention_name(c);
        assert(n.len() == convention_name(d).len());
        assert(n[0] == convention_name(d)[0]);
        if n.len() == 6 {
            assert(n[3] == convention_name(d)[3]);
        }
    }
}

/// How the generated code reports the values it sees.
#[derive(Debug, Clone, Copy, PartialEq, Eq, Structural)]
pub enum WriteImpl {
    /// Report every value to the harness.
    HarnessCallback,
    /// Assert that the values are the expected ones.
    Assert,
    /// Print the values.
    Print,
    /// Do nothing with them.
    Noop,
}

/// The name of a way to report values.
pub open spec fn write_impl_name(w: WriteImpl) -> Seq<char> {
    match w {
        WriteImpl::HarnessCallback => "harness"@,
        WriteImpl::Assert => "assert"@,
        WriteImpl::Print => "print"@,
        WriteImpl::Noop => "noop"@,
    }
}

/// No two ways to report values share a name, so reading back the name of
/// one gives it.
pub proof fn lemma_write_impl_name_roundtrip(w: WriteImpl, v: WriteImpl)
    ensures
        write_impl_name(w) == write_impl_name(v) <==> w == v,
{
    reveal_strlit("harness");
    reveal_strlit("assert");
    reveal_strlit("print");
    reveal_strlit("noop");
    if write_impl_name(w) == write_impl_name(v) {
        let n = write_impl_name(w);
        assert(n.len() == write_impl_name(v).len());
        assert(n[0] == write_impl_name(v)[0]);
    }
}

impl WriteImpl {
    /// The name of this way to report values.
    pub fn name(&self) -> (r: &'static str)
        ensures
            r@ == write_impl_name(*self),
    {
        match self {
            WriteImpl::HarnessCallback => "harness",
            WriteImpl::Assert => "assert",
            WriteImpl::Print => "print",
            WriteImpl::Noop => "noop",
        }
    }

    /// The way to report values named `s`.
    pub fn from_str(s: &str) -> (r: Result<WriteImpl, CliParseError>)
        ensures
            match r {
                Ok(w) => write_impl_name(w) == s@,
                Err(CliParseError::Other(m)) => m@ == s@ + " is not a write impl"@
                    && forall|w: WriteImpl| write_impl_name(w) != s@,
            },
    {
        if str_eq(s, "harness") {
            Ok(WriteImpl::HarnessCallback)
        } else if str_eq(s, "assert") {
            Ok(WriteImpl::Assert)
        } else if str_eq(s, "print") {
            Ok(WriteImpl::Print)
        } else if str_eq(s, "noop") {
            Ok(WriteImpl::Noop)
        } else {
            let mut m = owned(s);
            push_str(&mut m, " is not a write impl");
            Err(CliParseError::Other(m))
        }
    }
}

/// The layout rules that a test's types are declared with.
#[derive(Debug, Clone, Copy, PartialEq, Eq, Structural)]
pub enum LangRepr {
    Rust,
    C,
}

/// Which side of a call a piece of generated code is.
#[derive(Debug, Clone, Copy, PartialEq, Eq, Structural)]
pub enum CallSide {
    Caller,
    Callee,
}

impl CallSide {
    /// The name of this side.
    pub fn name(&self) -> (r: &'static str)
        ensures
            r@ == match *self {
                CallSide::Caller => "caller"@,
                CallSide::Callee => "callee"@,
            },
    {
        match self {
            CallSide::Caller => "caller",
            CallSide::Callee => "callee",
        }
    }
}

/// Which values of an argument to write.
#[derive(Debug, Clone, Copy, PartialEq, Eq, Structural)]
pub enum ValSelector {
    All,
    One { idx: usize },
}

/// Which arguments of a function to write.
#[derive(Debug, Clone, Copy, PartialEq, Eq, Structural)]
pub enum ArgSelector {
    All,
    One { idx: usize, vals: ValSelector },
}

/// Which functions of a test to write.
#[derive(Debug, Clone, Copy, PartialEq, Eq, Structural)]
pub enum FunctionSelector {
    All,
    One { idx: usize, args: ArgSelector },
}

/// Whether the selector picks argument `arg_idx` of function `func_idx`.
pub open spec fn selects_arg(s: FunctionSelector, func_idx: usize, arg_idx: usize) -> bool {
    match s {
        FunctionSelector::All => true,
        FunctionSelector::One { idx, args } => func_idx == idx && match args {
            ArgSelector::All => true,
            ArgSelector::One { idx: a, vals: _ } => arg_idx == a,
        },
    }
}

/// Whether the selector picks value `val_idx` of argument `arg_idx` of
/// function `func_idx`.
pub open spec fn selects_val(s: FunctionSelector, func_idx: usize, arg_idx: usize, val_idx: usize) -> bool {
    match s {
        FunctionSelector::All => true,
        FunctionSelector::One { idx, args } => func_idx == idx && match args {
            ArgSelector::All => true,
            ArgSelector::One { idx: a, vals } => arg_idx == a && match vals {
                ValSelector::All => true,
                ValSelector::One { idx: v } => val_idx == v,
            },
        },
    }
}

impl FunctionSelector {
    /// Whether argument `arg_idx` of function `func_idx` is written.
    pub fn should_write_arg(&self, func_idx: usize, arg_idx: usize) -> (r: bool)
        ensures
            r == selects_arg(*self, func_idx, arg_idx),
    {
        match self {
            FunctionSelector::All => true,
            FunctionSelector::One { idx, args } => {
                if func_idx != *idx {
                    false
                } else {
                    match args {
                        ArgSelector::All => true,
                        ArgSelector::One { idx, vals: _ } => arg_idx == *idx,
                    }
                }
            },
        }
    }

    /// Whether value `val_idx` of argument `arg_idx` of function `func_idx` is written.
    pub fn should_write_val(&self, func_idx: usize, arg_idx: usize, val_idx: usize) -> (r: bool)
        ensures
            r == selects_val(*self, func_idx, arg_idx, val_idx),
    {
        match self {
            FunctionSelector::All => true,
            FunctionSelector::One { idx, args } => {
                if func_idx != *idx {
                    false
                } else {
                    match args {
                        ArgSelector::All => true,
                        ArgSelector::One { idx, vals } => {
                            if arg_idx != *idx {
                                false
                            } else {
                                match vals {
                                    ValSelector::All => true,
                                    ValSelector::One { idx } => val_idx == *idx,
                                }
                            }
                        },
                    }
                }
            },
        }
    }
}

/// The functions a selector picks among the first `n`.
pub open spec fn spec_active_funcs(s: FunctionSelector, n: usize) -> Seq<usize> {
    match s {
        FunctionSelector::All => Seq::new(n as nat, |i: int| i as usize),
        FunctionSelector::One { idx, .. } => seq![idx],
    }
}

impl FunctionSelector {
    /// The functions of the program this selector picks, in order.
    pub fn active_funcs(&self, types: &TypedProgram) -> (r: Vec<usize>)
        ensures
            r@ == spec_active_funcs(*self, types@.builtin_funcs_start),
    {
        match self {
            FunctionSelector::All => {
                let end = types.all_funcs().end;
                let mut r: Vec<usize> = Vec::new();
                let mut i: usize = 0;
                while i < end
                    invariant
                        i <= end,
                        r@ == Seq::new(i as nat, |k: int| k as usize),
                    decreases end - i,
                {
                    r.push(i);
                    i = i + 1;
                    assert(r@ =~= Seq::new(i as nat, |k: int| k as usize));
                }
                r
            },
            FunctionSelector::One { idx, args: _ } => vec![*idx],
        }
    }
}

/// A value is written only if its argument is.
pub proof fn lemma_selected_val_has_selected_arg(s: FunctionSelector, func_idx: usize, arg_idx: usize, val_idx: usize)
    ensures
        selects_val(s, func_idx, arg_idx, val_idx) ==> selects_arg(s, func_idx, arg_idx),
{
}

/// The options of one run of a test.
#[derive(Debug, Clone, Copy, PartialEq, Eq, Structural)]
pub struct TestOptions {
    pub convention: CallingConvention,
    pub functions: FunctionSelector,
    pub val_writer: WriteImpl,
    pub val_generator: ValueGeneratorKind,
    pub repr: LangRepr,
}

} // verus!
