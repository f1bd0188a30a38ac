//! Finding tests: which files are tests, under which name, and the
//! kdl-script source each one stands for.

use vstd::prelude::*;
use crate::procgen::{procgen_test_for_ty_string, spec_procgen};
use crate::text::chars_of;
use crate::text::string_of_range;

verus! {

/// Where a test's file is: on disk, or among the files built into the
/// program.
#[derive(Debug)]
pub enum Pathish {
    Runtime(String),
    Static(String),
}

/// A test's file: a kdl-script program, or the definition of a type that
/// a generated program exercises.
#[derive(Debug)]
pub enum TestFile {
    Kdl(Pathish),
    KdlProcgen(Pathish),
}

/// Whether `s` ends with `p`.
pub open spec fn ends_with(s: Seq<char>, p: Seq<char>) -> bool {
    p.len() <= s.len() && s.subrange(s.len() - p.len(), s.len() as int) == p
}

/// `s` without its last `n` characters.
pub open spec fn drop_end(s: Seq<char>, n: nat) -> Seq<char> {
    s.subrange(0, s.len() - n)
}

/// The name a test file gives its test, and how it is read: a name ending
/// in `.procgen.kdl` is a type definition, one ending in `.kdl` a program;
/// other files are no tests.
pub open spec fn spec_classify(file_name: Seq<char>) -> Option<(Seq<char>, bool)> {
    if ends_with(file_name, ".procgen.kdl"@) {
        Some((drop_end(file_name, ".procgen.kdl"@.len()), true))
    } else if ends_with(file_name, ".kdl"@) {
        Some((drop_end(file_name, ".kdl"@.len()), false))
    } else {
        None
    }
}

/// `s` without the suffix `p`, if it ends with it.
fn strip_suffix(s: &str, p: &str) -> (r: Option<String>)
    ensures
        match r {
            Some(t) => ends_with(s@, p@) && t@ == drop_end(s@, p@.len()),
            None => !ends_with(s@, p@),
        },
{
    let cs = chars_of(s);
    let ps = chars_of(p);
    let n = cs.len();
    let m = ps.len();
    if m > n {
        return None;
    }
    let base = n - m;
    let mut k: usize = 0;
    while k < m && cs[base + k] == ps[k]
        invariant
            k <= m,
            m == ps@.len(),
            n == cs@.len(),
            base + m == n,
            cs@ == s@,
            ps@ == p@,
            forall|j: int| 0 <= j < k ==> cs@[base + j] == ps@[j],
        decreases m - k,
    {
        k = k + 1;
    }
    if k < m {
        assert(s@.subrange(base as int, n as int)[k as int] != p@[k as int]);
        return None;
    }
    assert(s@.subrange(base as int, n as int) =~= p@);
    let t = string_of_range(cs.as_slice(), 0, base);
    Some(t)
}

/// The test that the file `test_file` (whose name is `file_name`) holds,
/// if it holds one: its name, and the file as read from disk when
/// `is_runtime`, else from the files built into the program.
pub fn classify_test(test_file: &str, file_name: &str, is_runtime: bool) -> (r: Option<(String, TestFile)>)
    ensures
        match spec_classify(file_name@) {
            Some((name, procgen)) => r matches Some((n, f)) && n@ == name && match f {
                TestFile::KdlProcgen(p) => procgen && match p {
                    Pathish::Runtime(path) => is_runtime && path@ == test_file@,
                    Pathish::Static(path) => !is_runtime && path@ == test_file@,
                },
                TestFile::Kdl(p) => !procgen && match p {
                    Pathish::Runtime(path) => is_runtime && path@ == test_file@,
                    Pathish::Static(path) => !is_runtime && path@ == test_file@,
                },
            },
            None => r is None,
        },
{
    let pathish = if is_runtime {
        Pathish::Runtime(crate::text::owned(test_file))
    } else {
        Pathish::Static(crate::text::owned(test_file))
    };
    if let Some(name) = strip_suffix(file_name, ".procgen.kdl") {
        Some((name, TestFile::KdlProcgen(pathish)))
    } else if let Some(name) = strip_suffix(file_name, ".kdl") {
        Some((name, TestFile::Kdl(pathish)))
    } else {
        None
    }
}

/// The kdl-script program of test `test`, whose file holds `text`: the
/// text itself for a program, the generated program exercising the type
/// for a type definition.
pub fn test_source(test: &str, file: &TestFile, text: String) -> (r: String)
    ensures
        r@ == match file {
            TestFile::Kdl(_) => text@,
            TestFile::KdlProcgen(_) => spec_procgen(test@, Some(text@)),
        },
{
    match file {
        TestFile::KdlProcgen(_) => procgen_test_for_ty_string(test, Some(text.as_str())),
        TestFile::Kdl(_) => text,
    }
}

} // verus!
