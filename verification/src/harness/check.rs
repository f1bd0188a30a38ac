//! Checking a run: both sides of each call must have seen the same values.
//!
//! For every function the options select, the values they select are
//! compared in order, between what the caller recorded and what the callee
//! recorded; the first disagreement fails the function. A tagged union's
//! value is its variant, which both sides must report as the expected one.

use vstd::prelude::*;
use crate::error::CheckFailure;
use crate::harness::run::TestBuffer;
use crate::harness::run::TestBufferV;
use crate::harness::test::{TestOptions, FunctionSelector, selects_val, spec_active_funcs};
use crate::harness::report::{RunOutput, TestKey, full_subtest_name, spec_base_id};
use crate::harness::vals::{vals_before, lemma_vals_before_mono, ValueTree, ValueGenerator, ArgValues, FuncValues, Value, gen_bytes, tys_below, tree_tys_below};
use crate::types::{TypedProgram, TyV, Ty, TaggedVariantTy, spec_format_ty};
use crate::text::owned;

verus! {

/// The bytes a side recorded for value `i` of function `f` (none if it
/// recorded nothing there).
pub open spec fn recorded(b: TestBufferV, f: int, i: int) -> Seq<u8> {
    if 0 <= f < b.funcs.len() && 0 <= i < b.funcs[f].len() { b.funcs[f][i] } else { Seq::empty() }
}

/// The four bytes read as a little-endian number.
pub open spec fn le4(b: Seq<u8>) -> int {
    b[0] + b[1] * 0x100 + b[2] * 0x1_0000 + b[3] * 0x100_0000
}

/// The four bytes read as a big-endian number.
pub open spec fn be4(b: Seq<u8>) -> int {
    b[3] + b[2] * 0x100 + b[1] * 0x1_0000 + b[0] * 0x100_0000
}

/// Whether the value stands for the variant of a tagged union.
pub open spec fn is_tag(tys: Seq<TyV>, v: Value) -> bool {
    tys[v.ty as int] is Tagged
}

/// The number of variants of a tagged union type.
pub open spec fn variant_count(tys: Seq<TyV>, t: int) -> int {
    tys[t]->Tagged_variants.len() as int
}

/// The variant a side recorded for a tag: the four bytes of its index.
pub open spec fn tag_bytes(b: Seq<u8>) -> Seq<u8> {
    b.subrange(0, 4)
}

/// Whether, if value `v` of argument `a` is selected, both sides recorded
/// the same for it: the same bytes, or for a tag the same variant.
pub open spec fn agrees(tys: Seq<TyV>, sel: FunctionSelector, f: int, args: Seq<ArgValues>, a: int, v: int,
    caller: TestBufferV, callee: TestBufferV) -> bool {
    &&& selects_val(sel, f as usize, a as usize, v as usize) && !is_tag(tys, args[a].vals@[v])
        ==> recorded(caller, f, vals_before(args, a) + v) == recorded(callee, f, vals_before(args, a) + v)
    &&& selects_val(sel, f as usize, a as usize, v as usize) && is_tag(tys, args[a].vals@[v])
        ==> tag_bytes(recorded(caller, f, vals_before(args, a) + v)) == tag_bytes(recorded(callee, f, vals_before(args, a) + v))
}

/// The selected values of function `f` before value `v` of argument `a`
/// (in argument order) agree.
pub open spec fn agree_before(tys: Seq<TyV>, sel: FunctionSelector, f: int, args: Seq<ArgValues>, a: int, v: int,
    caller: TestBufferV, callee: TestBufferV) -> bool {
    &&& forall|a2: int, v2: int| 0 <= a2 < a && 0 <= v2 < args[a2].vals@.len()
        ==> #[trigger] agrees(tys, sel, f, args, a2, v2, caller, callee)
    &&& forall|v2: int| 0 <= v2 < v ==> #[trigger] agrees(tys, sel, f, args, a, v2, caller, callee)
}

/// Every selected value of function `f` agrees.
pub open spec fn all_agree(tys: Seq<TyV>, sel: FunctionSelector, f: int, args: Seq<ArgValues>,
    caller: TestBufferV, callee: TestBufferV) -> bool {
    forall|a: int, v: int| 0 <= a < args.len() && 0 <= v < args[a].vals@.len()
        ==> #[trigger] agrees(tys, sel, f, args, a, v, caller, callee)
}

/// What the check needs of a selected tag value: both sides recorded at
/// least four bytes for it, and all zero where the tagged union has no
/// variants (so the variant both report is the only one it can expect).
pub open spec fn tag_recorded(tys: Seq<TyV>, sel: FunctionSelector, f: int, args: Seq<ArgValues>, caller: TestBufferV,
    callee: TestBufferV) -> bool {
    forall|a: int, v: int| 0 <= a < args.len() && 0 <= v < args[a].vals@.len()
        && selects_val(sel, f as usize, a as usize, v as usize) && #[trigger] is_tag(tys, args[a].vals@[v]) ==> {
        let i = vals_before(args, a) + v;
        &&& recorded(caller, f, i).len() >= 4
        &&& recorded(callee, f, i).len() >= 4
        &&& variant_count(tys, args[a].vals@[v].ty as int) == 0 ==> le4(recorded(caller, f, i)) == 0
            && le4(recorded(callee, f, i)) == 0 && be4(recorded(caller, f, i)) == 0 && be4(recorded(callee, f, i)) == 0
    }
}

/// The larger of two lengths.
pub open spec fn max_len(a: nat, b: nat) -> nat {
    if a >= b { a } else { b }
}

/// What a failure says of value `v` of argument `a` of function `f`: where
/// it is and the names of its function, argument and types.
pub open spec fn failure_at(tys: Seq<TyV>, func: FuncValues, f: int, a: int, v: int, e: CheckFailure) -> bool {
    let arg = func.args@[a];
    let val = arg.vals@[v];
    match e {
        CheckFailure::ValMismatch { func_idx, arg_idx, val_idx, func_name, arg_name, arg_kind, arg_ty_name, val_path,
            val_ty_name, .. } =>
            func_idx == f && arg_idx == a && val_idx == v && func_name@ == func.func_name@ && arg_name@ == arg.arg_name@
            && arg_kind@ == "argument"@ && arg_ty_name@ == spec_format_ty(tys, arg.ty as int) && val_path@ == val.path@
            && val_ty_name@ == spec_format_ty(tys, val.ty as int),
        CheckFailure::TagMismatch { func_idx, arg_idx, val_idx, func_name, arg_name, arg_kind, arg_ty_name, val_path,
            val_ty_name, .. } =>
            func_idx == f && arg_idx == a && val_idx == v && func_name@ == func.func_name@ && arg_name@ == arg.arg_name@
            && arg_kind@ == "argument"@ && arg_ty_name@ == spec_format_ty(tys, arg.ty as int) && val_path@ == val.path@
            && val_ty_name@ == spec_format_ty(tys, val.ty as int),
    }
}

/// What checking function `f` gives: success only if every selected value
/// agrees; a failure for the first selected value that does not, at which
/// the values before it all agree (a byte mismatch for a value that is not
/// a tag, a variant mismatch for a tag).
pub open spec fn func_checked(tys: Seq<TyV>, func: FuncValues, sel: FunctionSelector, f: int, caller: TestBufferV,
    callee: TestBufferV, r: Result<(), CheckFailure>) -> bool {
    match r {
        Ok(()) => all_agree(tys, sel, f, func.args@, caller, callee),
        Err(e) => exists|a: int, v: int| 0 <= a < func.args@.len() && 0 <= v < func.args@[a].vals@.len()
            && selects_val(sel, f as usize, a as usize, v as usize)
            && agree_before(tys, sel, f, func.args@, a, v, caller, callee)
            && #[trigger] failure_at(tys, func, f, a, v, e)
            && (e is ValMismatch ==> !agrees(tys, sel, f, func.args@, a, v, caller, callee))
            && (e is TagMismatch ==> is_tag(tys, func.args@[a].vals@[v])),
    }
}

/// The `u32` whose bytes in memory are the first four of `b`.
///
/// Trusted: calls `u32::from_ne_bytes`, which reads the bytes in the
/// machine's byte order; every target Rust supports is little- or
/// big-endian, so the result is one of the two readings. Which one is not
/// stated: it depends on the machine.
#[verifier::external_body]
fn u32_from_native(b: &[u8]) -> (r: u32)
    requires
        b@.len() >= 4,
    ensures
        r == le4(b@) || r == be4(b@),
{
    u32::from_ne_bytes([b[0], b[1], b[2], b[3]])
}

/// The bytes a side recorded for value `i` of function `f`.
fn recorded_bytes(b: &TestBuffer, f: usize, i: usize) -> (r: &[u8])
    ensures
        r@ == recorded(b@, f as int, i as int),
{
    if f < b.funcs.len() && i < b.funcs[f].vals.len() {
        assert(b@.funcs[f as int] == crate::harness::run::func_buffer_view(b.funcs@[f as int]));
        b.funcs[f].vals[i].bytes.as_slice()
    } else {
        &[]
    }
}

/// Whether two byte strings are equal.
fn bytes_eq(x: &[u8], y: &[u8]) -> (r: bool)
    ensures
        r == (x@ == y@),
{
    if x.len() != y.len() {
        return false;
    }
    let mut i: usize = 0;
    while i < x.len()
        invariant
            i <= x@.len(),
            x@.len() == y@.len(),
            forall|j: int| 0 <= j < i ==> x@[j] == y@[j],
        decreases x@.len() - i,
    {
        if x[i] != y[i] {
            return false;
        }
        i = i + 1;
    }
    assert(x@ =~= y@);
    true
}

/// A fresh copy of the bytes.
fn copy_bytes(b: &[u8]) -> (r: Vec<u8>)
    ensures
        r@ == b@,
{
    let mut r: Vec<u8> = Vec::new();
    let mut i: usize = 0;
    while i < b.len()
        invariant
            i <= b@.len(),
            r@ == b@.subrange(0, i as int),
        decreases b@.len() - i,
    {
        r.push(b[i]);
        i = i + 1;
        assert(r@ =~= b@.subrange(0, i as int));
    }
    assert(r@ =~= b@);
    r
}

/// The name of the variant `tag` of the tagged union, or `<other variant>`.
fn variant_name(vs: &Vec<TaggedVariantTy>, tag: usize) -> (r: String)
    ensures
        tag < vs@.len() ==> r@ == vs@[tag as int].name@.text(),
        tag >= vs@.len() ==> r@ == "<other variant>"@,
{
    if tag < vs.len() {
        vs[tag].name.val.value.clone()
    } else {
        owned("<other variant>")
    }
}

/// Checks one value: a tag must be the expected variant on both sides;
/// any other value must have the same bytes on both sides.
fn check_val(types: &TypedProgram, tree: &ValueTree, f: usize, a: usize, v: usize, caller: &[u8], callee: &[u8])
    -> (r: Result<(), CheckFailure>)
    requires
        f < tree.funcs@.len(),
        a < tree.funcs@[f as int].args@.len(),
        v < tree.funcs@[f as int].args@[a as int].vals@.len(),
        tree_tys_below(tree.funcs@, types@.tcx.tys.len() as int),
        is_tag(types@.tcx.tys, tree.funcs@[f as int].args@[a as int].vals@[v as int]) ==> {
            &&& caller@.len() >= 4
            &&& callee@.len() >= 4
            &&& variant_count(types@.tcx.tys, tree.funcs@[f as int].args@[a as int].vals@[v as int].ty as int) == 0
                ==> le4(caller@) == 0 && le4(callee@) == 0 && be4(caller@) == 0 && be4(callee@) == 0
        },
    ensures
        !is_tag(types@.tcx.tys, tree.funcs@[f as int].args@[a as int].vals@[v as int]) ==> (r is Ok <==> caller@ == callee@),
        is_tag(types@.tcx.tys, tree.funcs@[f as int].args@[a as int].vals@[v as int]) && r is Ok
            ==> tag_bytes(caller@) == tag_bytes(callee@),
        r matches Err(e) ==> failure_at(types@.tcx.tys, tree.funcs@[f as int], f as int, a as int, v as int, e),
        r matches Err(CheckFailure::ValMismatch { expected, caller: c, callee: d, .. }) ==> {
            &&& !is_tag(types@.tcx.tys, tree.funcs@[f as int].args@[a as int].vals@[v as int])
            &&& c@ == caller@
            &&& d@ == callee@
            &&& expected@.len() == max_len(caller@.len(), callee@.len())
            &&& expected@ == gen_bytes(tree.funcs@[f as int].args@[a as int].vals@[v as int].val, expected@.len())
        },
        r matches Err(CheckFailure::TagMismatch { .. }) ==> is_tag(types@.tcx.tys, tree.funcs@[f as int].args@[a as int].vals@[v as int]),
{
    let ghost tys = types@.tcx.tys;
    let func = &tree.funcs[f];
    let arg = &func.args[a];
    let val = &arg.vals[v];
    assert(tys_below(arg.vals@, tys.len() as int));
    assert(val.ty < tys.len());
    match types.realize_ty(val.ty) {
        Ty::Tagged(tt) => {
            let n = tt.variants.len();
            let expected_tag = val.val.generate_idx(n);
            let caller_tag = u32_from_native(caller) as usize;
            let callee_tag = u32_from_native(callee) as usize;
            let same_variant = caller[0] == callee[0] && caller[1] == callee[1] && caller[2] == callee[2] && caller[3] == callee[3];
            if !same_variant || caller_tag != expected_tag || callee_tag != expected_tag {
                let expected = tt.variants[expected_tag].name.val.value.clone();
                let caller_name = variant_name(&tt.variants, caller_tag);
                let callee_name = variant_name(&tt.variants, callee_tag);
                return Err(CheckFailure::TagMismatch {
                    func_idx: f,
                    arg_idx: a,
                    val_idx: v,
                    func_name: func.func_name.clone(),
                    arg_name: arg.arg_name.clone(),
                    arg_kind: owned("argument"),
                    arg_ty_name: types.format_ty(arg.ty),
                    val_path: val.path.clone(),
                    val_ty_name: types.format_ty(val.ty),
                    expected,
                    caller: caller_name,
                    callee: callee_name,
                });
            }
            assert(tag_bytes(caller@) =~= tag_bytes(callee@));
            Ok(())
        },
        _ => {
            if bytes_eq(caller, callee) {
                Ok(())
            } else {
                let len = if caller.len() >= callee.len() { caller.len() } else { callee.len() };
                let mut expected: Vec<u8> = vec![0u8; len];
                val.val.fill_bytes(expected.as_mut_slice());
                Err(CheckFailure::ValMismatch {
                    func_idx: f,
                    arg_idx: a,
                    val_idx: v,
                    func_name: func.func_name.clone(),
                    arg_name: arg.arg_name.clone(),
                    arg_kind: owned("argument"),
                    arg_ty_name: types.format_ty(arg.ty),
                    val_path: val.path.clone(),
                    val_ty_name: types.format_ty(val.ty),
                    expected,
                    caller: copy_bytes(caller),
                    callee: copy_bytes(callee),
                })
            }
        },
    }
}

/// Checks function `f`: its selected values, in argument order, until the
/// first that fails.
pub fn check_func(types: &TypedProgram, tree: &ValueTree, options: &TestOptions, f: usize, caller: &TestBuffer,
    callee: &TestBuffer) -> (r: Result<(), CheckFailure>)
    requires
        f < tree.funcs@.len(),
        tree_tys_below(tree.funcs@, types@.tcx.tys.len() as int),
        vals_before(tree.funcs@[f as int].args@, tree.funcs@[f as int].args@.len() as int) <= usize::MAX,
        tag_recorded(types@.tcx.tys, options.functions, f as int, tree.funcs@[f as int].args@, caller@, callee@),
    ensures
        func_checked(types@.tcx.tys, tree.funcs@[f as int], options.functions, f as int, caller@, callee@, r),
{
    let ghost tys = types@.tcx.tys;
    let ghost sel = options.functions;
    let ghost args = tree.funcs@[f as int].args@;
    let func = &tree.funcs[f];
    let mut base: usize = 0;
    let mut a: usize = 0;
    while a < func.args.len()
        invariant
            a <= args.len(),
            args == func.args@,
            func == tree.funcs@[f as int],
            f < tree.funcs@.len(),
            sel == options.functions,
            tys == types@.tcx.tys,
            tree_tys_below(tree.funcs@, tys.len() as int),
            vals_before(args, args.len() as int) <= usize::MAX,
            tag_recorded(tys, sel, f as int, args, caller@, callee@),
            base == vals_before(args, a as int),
            agree_before(tys, sel, f as int, args, a as int, 0, caller@, callee@),
        decreases args.len() - a,
    {
        proof { lemma_vals_before_mono(args, a as int + 1, args.len() as int); }
        let vals = &func.args[a].vals;
        let mut v: usize = 0;
        while v < vals.len()
            invariant
                a < args.len(),
                v <= vals@.len(),
                vals@ == args[a as int].vals@,
                args == func.args@,
                func == tree.funcs@[f as int],
                f < tree.funcs@.len(),
                sel == options.functions,
                tys == types@.tcx.tys,
                tree_tys_below(tree.funcs@, tys.len() as int),
                vals_before(args, a as int + 1) <= usize::MAX,
                tag_recorded(tys, sel, f as int, args, caller@, callee@),
                base == vals_before(args, a as int),
                agree_before(tys, sel, f as int, args, a as int, v as int, caller@, callee@),
            decreases vals@.len() - v,
        {
            let idx = base + v;
            if options.functions.should_write_val(f, a, v) {
                let cb = recorded_bytes(caller, f, idx);
                let db = recorded_bytes(callee, f, idx);
                let res = check_val(types, tree, f, a, v, cb, db);
                if let Err(e) = res {
                    proof {
                        assert(failure_at(tys, tree.funcs@[f as int], f as int, a as int, v as int, e));
                    }
                    return Err(e);
                }
                assert(agrees(tys, sel, f as int, args, a as int, v as int, caller@, callee@));
            } else {
                assert(agrees(tys, sel, f as int, args, a as int, v as int, caller@, callee@));
            }
            v = v + 1;
        }
        base = base + vals.len();
        a = a + 1;
        proof {
            assert forall|a2: int, v2: int| 0 <= a2 < a && 0 <= v2 < args[a2].vals@.len()
                implies #[trigger] agrees(tys, sel, f as int, args, a2, v2, caller@, callee@) by {
                if a2 == a - 1 {
                    assert(agrees(tys, sel, f as int, args, a2, v2, caller@, callee@));
                }
            }
        }
    }
    Ok(())
}


/// The outcome of checking a run.
#[derive(Debug)]
pub struct CheckOutput {
    /// Whether every checked function passed.
    pub all_passed: bool,
    /// The names of the functions checked, in order.
    pub subtest_names: Vec<String>,
    /// The result of each function checked, in order.
    pub subtest_checks: Vec<Result<(), CheckFailure>>,
}

/// What the check needs of function `f`: it has values in the tree, the
/// number of its values fits in a machine word, and both sides recorded
/// its selected tags in full.
pub open spec fn check_ready(tys: Seq<TyV>, tree: ValueTree, sel: FunctionSelector, f: int, caller: TestBufferV,
    callee: TestBufferV) -> bool {
    &&& 0 <= f < tree.funcs@.len()
    &&& vals_before(tree.funcs@[f].args@, tree.funcs@[f].args@.len() as int) <= usize::MAX
    &&& tag_recorded(tys, sel, f, tree.funcs@[f].args@, caller, callee)
}

/// The full name of each of the program's own functions in the run `key`.
pub fn subtest_names(key: &TestKey, types: &TypedProgram) -> (r: Vec<String>)
    requires
        types@.builtin_funcs_start <= types@.funcs.len(),
        key.options.functions matches FunctionSelector::One { idx, .. } ==> idx < types@.funcs.len(),
    ensures
        r@.len() == types@.builtin_funcs_start,
        forall|i: int| 0 <= i < types@.builtin_funcs_start ==> (#[trigger] r@[i])@
            == spec_base_id(key, types@.funcs, None, "::"@) + "::"@ + types@.funcs[i].name.text(),
{
    let mut names: Vec<String> = Vec::new();
    let range = types.all_funcs();
    let n = range.end;
    let mut i: usize = 0;
    while i < n
        invariant
            i <= n,
            n == types@.builtin_funcs_start,
            n <= types@.funcs.len(),
            key.options.functions matches FunctionSelector::One { idx, .. } ==> idx < types@.funcs.len(),
            names@.len() == i,
            forall|k: int| 0 <= k < i ==> (#[trigger] names@[k])@
                == spec_base_id(key, types@.funcs, None, "::"@) + "::"@ + types@.funcs[k].name.text(),
        decreases n - i,
    {
        let func = types.realize_func(i);
        let name = full_subtest_name(key, types, func.name.val.value.as_str());
        names.push(name);
        i = i + 1;
    }
    names
}

/// Checks a run: each function the options select, in order, comparing
/// what the caller and the callee recorded; the run's functions are named
/// for people to read.
pub fn check_test(types: &TypedProgram, tree: &ValueTree, key: &TestKey, run: &RunOutput) -> (r: CheckOutput)
    requires
        types@.builtin_funcs_start <= types@.funcs.len(),
        key.options.functions matches FunctionSelector::One { idx, .. } ==> idx < types@.funcs.len(),
        tree_tys_below(tree.funcs@, types@.tcx.tys.len() as int),
        forall|i: int| 0 <= i < spec_active_funcs(key.options.functions, types@.builtin_funcs_start).len() ==>
            check_ready(types@.tcx.tys, *tree, key.options.functions,
                #[trigger] spec_active_funcs(key.options.functions, types@.builtin_funcs_start)[i] as int,
                run.caller_funcs@, run.callee_funcs@),
    ensures
        ({
            let active = spec_active_funcs(key.options.functions, types@.builtin_funcs_start);
            &&& r.subtest_checks@.len() == active.len()
            &&& r.subtest_names@.len() == types@.builtin_funcs_start
            &&& forall|i: int| 0 <= i < active.len() ==> func_checked(types@.tcx.tys, tree.funcs@[active[i] as int],
                key.options.functions, active[i] as int, run.caller_funcs@, run.callee_funcs@, #[trigger] r.subtest_checks@[i])
            &&& forall|i: int| 0 <= i < types@.builtin_funcs_start ==> (#[trigger] r.subtest_names@[i])@
                == spec_base_id(key, types@.funcs, None, "::"@) + "::"@ + types@.funcs[i].name.text()
            &&& r.all_passed == forall|i: int| 0 <= i < active.len() ==> (#[trigger] r.subtest_checks@[i]) is Ok
        }),
{
    let ghost active = spec_active_funcs(key.options.functions, types@.builtin_funcs_start);
    let funcs = key.options.functions.active_funcs(types);
    let mut results: Vec<Result<(), CheckFailure>> = Vec::new();
    let mut all_passed = true;
    let mut i: usize = 0;
    while i < funcs.len()
        invariant
            i <= funcs@.len(),
            funcs@ == active,
            active == spec_active_funcs(key.options.functions, types@.builtin_funcs_start),
            tree_tys_below(tree.funcs@, types@.tcx.tys.len() as int),
            forall|k: int| 0 <= k < active.len() ==> check_ready(types@.tcx.tys, *tree, key.options.functions,
                #[trigger] active[k] as int, run.caller_funcs@, run.callee_funcs@),
            results@.len() == i,
            forall|k: int| 0 <= k < i ==> func_checked(types@.tcx.tys, tree.funcs@[active[k] as int],
                key.options.functions, active[k] as int, run.caller_funcs@, run.callee_funcs@, #[trigger] results@[k]),
            all_passed == forall|k: int| 0 <= k < i ==> (#[trigger] results@[k]) is Ok,
        decreases funcs@.len() - i,
    {
        let f = funcs[i];
        assert(check_ready(types@.tcx.tys, *tree, key.options.functions, active[i as int] as int, run.caller_funcs@, run.callee_funcs@));
        let res = check_func(types, tree, &key.options, f, &run.caller_funcs, &run.callee_funcs);
        if res.is_err() {
            all_passed = false;
        }
        let ghost prev = results@;
        results.push(res);
        proof {
            assert forall|k: int| 0 <= k < i + 1 implies func_checked(types@.tcx.tys, tree.funcs@[active[k] as int],
                key.options.functions, active[k] as int, run.caller_funcs@, run.callee_funcs@, #[trigger] results@[k]) by {
                if k < i {
                    assert(results@[k] == prev[k]);
                }
            }
            if all_passed {
                assert forall|k: int| 0 <= k < i + 1 implies (#[trigger] results@[k]) is Ok by {
                    if k < i {
                        assert(results@[k] == prev[k]);
                    }
                }
            } else {
                if res.is_ok() {
                    let k = choose|k: int| 0 <= k < i && !(prev[k] is Ok);
                    assert(results@[k] == prev[k]);
                } else {
                    assert(!(results@[i as int] is Ok));
                }
            }
        }
        i = i + 1;
    }
    let names = subtest_names(key, types);
    CheckOutput { all_passed, subtest_names: names, subtest_checks: results }
}

/// The caller and the callee recorded the same bytes for value `v` of
/// argument `a` of function `f`.
pub open spec fn same_at(func: FuncValues, f: int, a: int, v: int, caller: TestBufferV, callee: TestBufferV) -> bool {
    recorded(caller, f, vals_before(func.args@, a) + v) == recorded(callee, f, vals_before(func.args@, a) + v)
}

/// The caller and the callee recorded the same bytes for every selected
/// value of function `f`.
pub open spec fn sides_agree(func: FuncValues, sel: FunctionSelector, f: int, caller: TestBufferV, callee: TestBufferV) -> bool {
    forall|a: int, v: int| 0 <= a < func.args@.len() && 0 <= v < func.args@[a].vals@.len()
        && selects_val(sel, f as usize, a as usize, v as usize) ==> #[trigger] same_at(func, f, a, v, caller, callee)
}

/// A function none of whose selected values is a tag passes its check
/// exactly when the caller and the callee recorded the same bytes for
/// every selected value.
pub proof fn lemma_check_passes_iff_sides_agree(tys: Seq<TyV>, func: FuncValues, sel: FunctionSelector, f: int,
    caller: TestBufferV, callee: TestBufferV, r: Result<(), CheckFailure>)
    requires
        func_checked(tys, func, sel, f, caller, callee, r),
        forall|a: int, v: int| 0 <= a < func.args@.len() && 0 <= v < func.args@[a].vals@.len()
            && selects_val(sel, f as usize, a as usize, v as usize) ==> !#[trigger] is_tag(tys, func.args@[a].vals@[v]),
    ensures
        r is Ok <==> sides_agree(func, sel, f, caller, callee),
{
    match r {
        Ok(()) => {
            assert forall|a: int, v: int| 0 <= a < func.args@.len() && 0 <= v < func.args@[a].vals@.len()
                && selects_val(sel, f as usize, a as usize, v as usize)
                implies #[trigger] same_at(func, f, a, v, caller, callee) by {
                assert(agrees(tys, sel, f, func.args@, a, v, caller, callee));
                assert(!is_tag(tys, func.args@[a].vals@[v]));
            }
        },
        Err(e) => {
            let (a, v) = choose|a: int, v: int| 0 <= a < func.args@.len() && 0 <= v < func.args@[a].vals@.len()
                && selects_val(sel, f as usize, a as usize, v as usize)
                && agree_before(tys, sel, f, func.args@, a, v, caller, callee)
                && #[trigger] failure_at(tys, func, f, a, v, e)
                && (e is ValMismatch ==> !agrees(tys, sel, f, func.args@, a, v, caller, callee))
                && (e is TagMismatch ==> is_tag(tys, func.args@[a].vals@[v]));
            assert(!is_tag(tys, func.args@[a].vals@[v]));
            assert(!agrees(tys, sel, f, func.args@, a, v, caller, callee));
            assert(!same_at(func, f, a, v, caller, callee));
        },
    }
}

} // verus!

verus! {

/// A function passes its check only if, for every value the options
/// select, the caller and the callee recorded the same thing: the same
/// bytes, or, for the tag of a tagged union, the same variant.
pub proof fn lemma_passing_check_means_sides_agree(tys: Seq<TyV>, func: FuncValues, sel: FunctionSelector, f: int,
    caller: TestBufferV, callee: TestBufferV, a: int, v: int)
    requires
        func_checked(tys, func, sel, f, caller, callee, Ok(())),
        0 <= a < func.args@.len(),
        0 <= v < func.args@[a].vals@.len(),
        selects_val(sel, f as usize, a as usize, v as usize),
    ensures
        !is_tag(tys, func.args@[a].vals@[v]) ==> same_at(func, f, a, v, caller, callee),
        is_tag(tys, func.args@[a].vals@[v]) ==> recorded(caller, f, vals_before(func.args@, a) + v).subrange(0, 4)
            == recorded(callee, f, vals_before(func.args@, a) + v).subrange(0, 4),
{
    assert(agrees(tys, sel, f, func.args@, a, v, caller, callee));
}

} // verus!
