//! The calling conventions a test can be declared with, and what the C and
//! Rust backends write for them.

use vstd::prelude::*;
use crate::text::{str_eq, chars_of};
use crate::compiler::KdlScriptError;

verus! {

/// A calling convention.
#[derive(Debug, Clone, Copy, PartialEq, Eq, Structural)]
pub enum CallingConvention {
    /// Sugar for every convention.
    All,
    /// An opaque convention whose implementation is written by hand.
    Handwritten,
    /// The platform's default C convention.
    C,
    Cdecl,
    /// The platform's default OS convention.
    System,
    /// x64 windows C convention.
    Win64,
    /// x64 non-windows C convention.
    Sysv64,
    /// ARM C convention.
    Aapcs,
    /// Win32 x86 system APIs.
    Stdcall,
    /// Microsoft fastcall.
    Fastcall,
    /// Microsoft vectorcall.
    Vectorcall,
}

/// The name of a convention (`All` is sugar and has none of its own).
pub open spec fn spec_convention_name(c: CallingConvention) -> Seq<char> {
    match c {
        CallingConvention::All => "all"@,
        CallingConvention::Handwritten => "handwritten"@,
        CallingConvention::C => "c"@,
        CallingConvention::Cdecl => "cdecl"@,
        CallingConvention::System => "system"@,
        CallingConvention::Win64 => "win64"@,
        CallingConvention::Sysv64 => "sysv64"@,
        CallingConvention::Aapcs => "aapcs"@,
        CallingConvention::Stdcall => "stdcall"@,
        CallingConvention::Fastcall => "fastcall"@,
        CallingConvention::Vectorcall => "vectorcall"@,
    }
}

impl CallingConvention {
    /// The name of this convention; `All` is sugar that never gets here.
    pub fn name(&self) -> (r: &'static str)
        requires
            *self != CallingConvention::All,
        ensures
            r@ == spec_convention_name(*self),
    {
        match self {
            CallingConvention::All => "all",
            CallingConvention::Handwritten => "handwritten",
            CallingConvention::C => "c",
            CallingConvention::Cdecl => "cdecl",
            CallingConvention::System => "system",
            CallingConvention::Win64 => "win64",
            CallingConvention::Sysv64 => "sysv64",
            CallingConvention::Aapcs => "aapcs",
            CallingConvention::Stdcall => "stdcall",
            CallingConvention::Fastcall => "fastcall",
            CallingConvention::Vectorcall => "vectorcall",
        }
    }

    /// The convention named `input` (`"all"` for the sugar), if any.
    pub fn from_str(input: &str) -> (r: Option<CallingConvention>)
        ensures
            match r {
                Some(c) => spec_convention_name(c) == input@,
                None => forall|c: CallingConvention| spec_convention_name(c) != input@,
            },
    {
        if str_eq(input, "all") {
            Some(CallingConvention::All)
        } else if str_eq(input, "handwritten") {
            Some(CallingConvention::Handwritten)
        } else if str_eq(input, "c") {
            Some(CallingConvention::C)
        } else if str_eq(input, "cdecl") {
            Some(CallingConvention::Cdecl)
        } else if str_eq(input, "system") {
            Some(CallingConvention::System)
        } else if str_eq(input, "win64") {
            Some(CallingConvention::Win64)
        } else if str_eq(input, "sysv64") {
            Some(CallingConvention::Sysv64)
        } else if str_eq(input, "aapcs") {
            Some(CallingConvention::Aapcs)
        } else if str_eq(input, "stdcall") {
            Some(CallingConvention::Stdcall)
        } else if str_eq(input, "fastcall") {
            Some(CallingConvention::Fastcall)
        } else if str_eq(input, "vectorcall") {
            Some(CallingConvention::Vectorcall)
        } else {
            None
        }
    }
}

/// No two conventions share a name, so reading back a convention's name
/// gives the convention.
pub proof fn lemma_name_roundtrip(c: CallingConvention, d: CallingConvention)
    ensures
        spec_convention_name(c) == spec_convention_name(d) <==> c == d,
{
    reveal_strlit("all");
    reveal_strlit("handwritten");
    reveal_strlit("c");
    reveal_strlit("cdecl");
    reveal_strlit("system");
    reveal_strlit("win64");
    reveal_strlit("sysv64");
    reveal_strlit("aapcs");
    reveal_strlit("stdcall");
    reveal_strlit("fastcall");
    reveal_strlit("vectorcall");
    if spec_convention_name(c) == spec_convention_name(d) {
        let n = spec_convention_name(c);
        assert(n.len() == spec_convention_name(d).len());
        assert(n[0] == spec_convention_name(d)[0]);
        if n.len() == 6 {
            assert(n[3] == spec_convention_name(d)[3]);
        }
    }
}

/// The conventions that `All` stands for, in order.
pub fn all_conventions() -> (r: Vec<CallingConvention>)
    ensures
        r@ == seq![CallingConvention::Handwritten, CallingConvention::C, CallingConvention::Cdecl,
            CallingConvention::System, CallingConvention::Win64, CallingConvention::Sysv64,
            CallingConvention::Aapcs, CallingConvention::Stdcall, CallingConvention::Fastcall,
            CallingConvention::Vectorcall],
{
    vec![CallingConvention::Handwritten, CallingConvention::C, CallingConvention::Cdecl,
        CallingConvention::System, CallingConvention::Win64, CallingConvention::Sysv64,
        CallingConvention::Aapcs, CallingConvention::Stdcall, CallingConvention::Fastcall,
        CallingConvention::Vectorcall]
}

/// An integer value of a C integer type.
#[allow(non_camel_case_types)]
#[derive(Debug, Clone, Copy, PartialEq, Eq, Structural)]
pub enum IntVal {
    c__int128(i128),
    c_int64_t(i64),
    c_int32_t(i32),
    c_int16_t(i16),
    c_int8_t(i8),
    c__uint128(u128),
    c_uint64_t(u64),
    c_uint32_t(u32),
    c_uint16_t(u16),
    c_uint8_t(u8),
}

/// Why a backend could not write a test.
#[derive(Debug)]
pub enum GenerateError {
    /// The test's program did not compile.
    KdlScript(KdlScriptError),
    /// Two structs had the same name but different layouts.
    InconsistentStructDefinition { name: String, old_decl: String, new_decl: String },
    /// A test mixed the handwritten convention with others.
    HandwrittenMixing,
    /// No handwritten source exists for this pairing.
    NoHandwrittenSource,
    /// Rust cannot express the signature.
    RustUnsupported(String),
    /// The backend does not support something the test asks for.
    Unsupported(String),
    /// C cannot express the signature.
    CUnsupported(String),
    /// The backend does not support the calling convention.
    UnsupportedConvention,
    /// The test was skipped.
    Skipped,
    /// A walk over an argument's type asked for more values than the test
    /// holds for that argument.
    ValueTreeExhausted,
    /// A pun's blocks gave different numbers of values.
    MismatchedPunVals {
        pun: String,
        block1: String,
        block1_val_count: usize,
        block2: String,
        block2_val_count: usize,
    },
}

/// The kind of C compiler.
#[derive(Debug, Clone, Copy, PartialEq, Eq, Structural)]
pub enum CCFlavor {
    Clang,
    Gcc,
    Msvc,
}

/// The kind of platform.
#[derive(Debug, Clone, Copy, PartialEq, Eq, Structural)]
pub enum Platform {
    Windows,
    Unixy,
}

/// The C backend.
#[derive(Debug)]
pub struct CcAbiImpl {
    pub cc_flavor: CCFlavor,
    pub platform: Platform,
    pub mode: String,
}

/// What the C backend writes before a function name for a convention, if it
/// supports the convention.
pub open spec fn spec_c_convention_decl(cc: CCFlavor, platform: Platform, c: CallingConvention) -> Option<Seq<char>> {
    let msvc = cc == CCFlavor::Msvc;
    let windows = platform == Platform::Windows;
    match c {
        CallingConvention::Handwritten => Some("handwritten"@),
        CallingConvention::All => None,
        CallingConvention::System | CallingConvention::Win64 | CallingConvention::Sysv64 | CallingConvention::Aapcs => None,
        CallingConvention::C => Some(""@),
        CallingConvention::Cdecl => if !windows { None } else if msvc { Some("__cdecl "@) } else { Some("__attribute__((cdecl)) "@) },
        CallingConvention::Stdcall => if !windows { None } else if msvc { Some("__stdcall "@) } else { Some("__attribute__((stdcall)) "@) },
        CallingConvention::Fastcall => if !windows { None } else if msvc { Some("__fastcall "@) } else { Some("__attribute__((fastcall)) "@) },
        CallingConvention::Vectorcall => if !windows { None } else if msvc { Some("__vectorcall "@) } else { Some("__attribute__((vectorcall)) "@) },
    }
}

impl CcAbiImpl {
    /// The C backend for a compiler of the given flavor on the given platform.
    pub fn new(cc_flavor: CCFlavor, platform: Platform, mode: String) -> (r: CcAbiImpl)
        ensures
            r.cc_flavor == cc_flavor,
            r.platform == platform,
            r.mode@ == mode@,
    {
        CcAbiImpl { cc_flavor, platform, mode }
    }

    /// The language the backend writes.
    pub fn lang(&self) -> (r: &'static str)
        ensures
            r@ == "c"@,
    {
        "c"
    }

    /// The extension of the files the backend writes.
    pub fn src_ext(&self) -> (r: &'static str)
        ensures
            r@ == "c"@,
    {
        "c"
    }

    /// What the backend writes before a function name for `convention`.
    pub fn c_convention_decl(&self, convention: CallingConvention) -> (r: Result<&'static str, GenerateError>)
        ensures
            match spec_c_convention_decl(self.cc_flavor, self.platform, convention) {
                Some(s) => r matches Ok(x) && x@ == s,
                None => r matches Err(GenerateError::UnsupportedConvention),
            },
    {
        let msvc = self.cc_flavor == CCFlavor::Msvc;
        let windows = self.platform == Platform::Windows;
        let val = match convention {
            CallingConvention::Handwritten => "handwritten",
            CallingConvention::All => return Err(GenerateError::UnsupportedConvention),
            CallingConvention::System | CallingConvention::Win64 | CallingConvention::Sysv64
            | CallingConvention::Aapcs => return Err(GenerateError::UnsupportedConvention),
            CallingConvention::C => "",
            CallingConvention::Cdecl => if !windows {
                return Err(GenerateError::UnsupportedConvention);
            } else if msvc {
                "__cdecl "
            } else {
                "__attribute__((cdecl)) "
            },
            CallingConvention::Stdcall => if !windows {
                return Err(GenerateError::UnsupportedConvention);
            } else if msvc {
                "__stdcall "
            } else {
                "__attribute__((stdcall)) "
            },
            CallingConvention::Fastcall => if !windows {
                return Err(GenerateError::UnsupportedConvention);
            } else if msvc {
                "__fastcall "
            } else {
                "__attribute__((fastcall)) "
            },
            CallingConvention::Vectorcall => if !windows {
                return Err(GenerateError::UnsupportedConvention);
            } else if msvc {
                "__vectorcall "
            } else {
                "__attribute__((vectorcall)) "
            },
        };
        Ok(val)
    }

    /// Whether the backend supports `convention`.
    pub fn supports_convention(&self, convention: CallingConvention) -> (r: bool)
        ensures
            r == spec_c_convention_decl(self.cc_flavor, self.platform, convention) is Some,
    {
        self.c_convention_decl(convention).is_ok()
    }
}

/// Whether `t` occurs in `s`.
pub open spec fn contains_sub(s: Seq<char>, t: Seq<char>) -> bool {
    exists|i: int| 0 <= i && i + t.len() <= s.len() && #[trigger] s.subrange(i, i + t.len()) == t
}

/// Whether `b` occurs in `a` at position `i`.
fn matches_at(a: &Vec<char>, b: &Vec<char>, i: usize) -> (r: bool)
    requires
        i + b@.len() <= a@.len(),
    ensures
        r == (a@.subrange(i as int, i + b@.len()) == b@),
{
    let _n = a.len();
    let mut j: usize = 0;
    while j < b.len()
        invariant
            i + b@.len() <= a@.len(),
            a@.len() <= usize::MAX,
            j <= b@.len(),
            forall|k: int| 0 <= k < j ==> a@[i + k] == b@[k],
        decreases b@.len() - j,
    {
        if a[i + j] != b[j] {
            assert(a@.subrange(i as int, i + b@.len())[j as int] != b@[j as int]);
            return false;
        }
        j = j + 1;
    }
    assert(a@.subrange(i as int, i + b@.len()) =~= b@);
    true
}

/// Whether `t` occurs in `s`.
fn str_contains(s: &str, t: &str) -> (r: bool)
    ensures
        r == contains_sub(s@, t@),
{
    let a = chars_of(s);
    let b = chars_of(t);
    if b.len() > a.len() {
        return false;
    }
    let last = a.len() - b.len();
    let mut i: usize = 0;
    while i <= last
        invariant
            a@ == s@,
            b@ == t@,
            last == a@.len() - b@.len(),
            i <= last + 1,
            forall|k: int| 0 <= k < i ==> #[trigger] s@.subrange(k, k + t@.len()) != t@,
        decreases last + 1 - i,
    {
        if matches_at(&a, &b, i) {
            return true;
        }
        if i == last {
            proof {
                assert forall|k: int| 0 <= k && k + t@.len() <= s@.len()
                    implies #[trigger] s@.subrange(k, k + t@.len()) != t@ by {
                    if k == i {
                        assert(a@.subrange(i as int, i + b@.len()) != b@);
                    }
                }
            }
            return false;
        }
        i = i + 1;
    }
    proof {
        assert forall|k: int| 0 <= k && k + t@.len() <= s@.len() implies #[trigger] s@.subrange(k, k + t@.len()) != t@ by {
            assert(k <= last);
        }
    }
    false
}

/// The Rust backend.
#[derive(Debug)]
pub struct RustcAbiImpl {
    is_nightly: bool,
    platform: Platform,
    codegen_backend: Option<String>,
}

/// What the Rust backend writes in `extern "..."` for a convention, on a
/// platform and with a compiler that is or is not a nightly one, where it
/// supports the convention: the Windows conventions only on Windows, and
/// vectorcall only with a nightly compiler there.
pub open spec fn spec_rust_convention_decl(c: CallingConvention, platform: Platform, nightly: bool) -> Option<Seq<char>> {
    let windows = platform == Platform::Windows;
    match c {
        CallingConvention::C => Some("C"@),
        CallingConvention::System => Some("system"@),
        CallingConvention::Win64 => Some("win64"@),
        CallingConvention::Sysv64 => Some("sysv64"@),
        CallingConvention::Aapcs => Some("aapcs"@),
        CallingConvention::Cdecl => if windows { Some("cdecl"@) } else { None },
        CallingConvention::Stdcall => if windows { Some("stdcall"@) } else { None },
        CallingConvention::Fastcall => if windows { Some("fastcall"@) } else { None },
        CallingConvention::Vectorcall => if windows && nightly { Some("vectorcall"@) } else { None },
        _ => None,
    }
}

/// The message the Rust backend refuses a convention with: vectorcall on
/// Windows needs a nightly compiler; any other is not supported.
pub open spec fn rust_convention_refusal(c: CallingConvention, platform: Platform) -> Seq<char> {
    if c == CallingConvention::Vectorcall && platform == Platform::Windows {
        "vectorcall is an unstable rust feature, requires nightly"@
    } else {
        "unsupported convention "@ + spec_convention_name(c)
    }
}

impl RustcAbiImpl {
    /// The Rust backend for the compiler of version `rustc_version`, which is
    /// a nightly one if its version says so, building for `platform`.
    pub fn new(rustc_version: &str, platform: Platform, codegen_backend: Option<String>) -> (r: RustcAbiImpl)
        ensures
            r.is_nightly() == contains_sub(rustc_version@, "nightly"@),
            r.platform() == platform,
            r.codegen_backend() == match codegen_backend { Some(b) => Some(b@), None => None },
    {
        RustcAbiImpl { is_nightly: str_contains(rustc_version, "nightly"), platform, codegen_backend }
    }

    /// Whether the compiler is a nightly one.
    pub closed spec fn is_nightly(&self) -> bool {
        self.is_nightly
    }

    /// The platform built for.
    pub closed spec fn platform(&self) -> Platform {
        self.platform
    }

    /// The codegen backend asked for, if any.
    pub closed spec fn codegen_backend(&self) -> Option<Seq<char>> {
        match self.codegen_backend { Some(b) => Some(b@), None => None }
    }

    /// The name of the backend.
    pub fn name(&self) -> (r: &'static str)
        ensures
            r@ == "rustc"@,
    {
        "rustc"
    }

    /// The language the backend writes.
    pub fn lang(&self) -> (r: &'static str)
        ensures
            r@ == "rust"@,
    {
        "rust"
    }

    /// The extension of the files the backend writes.
    pub fn src_ext(&self) -> (r: &'static str)
        ensures
            r@ == "rs"@,
    {
        "rs"
    }

    /// Whether the backend supports `convention` on its platform.
    pub fn supports_convention(&self, convention: CallingConvention) -> (r: bool)
        ensures
            r == spec_rust_convention_decl(convention, self.platform(), self.is_nightly()) is Some,
    {
        self.convention_decl(convention).is_ok()
    }

    /// What the backend writes in `extern "..."` for `convention`, or the
    /// reason it does not support it.
    pub fn convention_decl(&self, convention: CallingConvention) -> (r: Result<&'static str, GenerateError>)
        ensures
            match spec_rust_convention_decl(convention, self.platform(), self.is_nightly()) {
                Some(s) => r matches Ok(x) && x@ == s,
                None => r matches Err(GenerateError::Unsupported(m))
                    && m@ == rust_convention_refusal(convention, self.platform()),
            },
    {
        let windows = self.platform == Platform::Windows;
        let conv = match convention {
            CallingConvention::C => "C",
            CallingConvention::System => "system",
            CallingConvention::Win64 => "win64",
            CallingConvention::Sysv64 => "sysv64",
            CallingConvention::Aapcs => "aapcs",
            CallingConvention::Cdecl => if windows { "cdecl" } else { return Err(unsupported_convention(convention)) },
            CallingConvention::Stdcall => if windows { "stdcall" } else { return Err(unsupported_convention(convention)) },
            CallingConvention::Fastcall => if windows { "fastcall" } else { return Err(unsupported_convention(convention)) },
            CallingConvention::Vectorcall => if !windows {
                return Err(unsupported_convention(convention));
            } else if self.is_nightly {
                "vectorcall"
            } else {
                let mut m = String::new();
                m.append("vectorcall is an unstable rust feature, requires nightly");
                return Err(GenerateError::Unsupported(m));
            },
            _ => return Err(unsupported_convention(convention)),
        };
        Ok(conv)
    }
}

/// The error refusing a convention a backend does not support.
fn unsupported_convention(convention: CallingConvention) -> (r: GenerateError)
    ensures
        r matches GenerateError::Unsupported(m) && m@ == "unsupported convention "@ + spec_convention_name(convention),
{
    let mut m = String::new();
    m.append("unsupported convention ");
    m.append(convention.name_or_all());
    GenerateError::Unsupported(m)
}

impl CallingConvention {
    /// The name of this convention, `"all"` for the sugar.
    pub fn name_or_all(&self) -> (r: &'static str)
        ensures
            r@ == spec_convention_name(*self),
    {
        match self {
            CallingConvention::All => "all",
            _ => self.name(),
        }
    }
}

} // verus!
