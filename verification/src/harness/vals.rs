//! The values a test passes: for each function, each argument, each leaf of
//! the argument's type, a generator that fills its bytes.
//!
//! A graffiti generator writes a recognisable pattern (the value's index in
//! the high nibble, the byte's index in the low nibble); a random generator
//! fills the bytes from a PCG stream seeded with its seed.

use vstd::prelude::*;
use vstd::bytes::{u16_from_le_bytes, u32_from_le_bytes, u64_from_le_bytes, u128_from_le_bytes,
    spec_u16_from_le_bytes, spec_u32_from_le_bytes, spec_u64_from_le_bytes, spec_u128_from_le_bytes};
use crate::harness::test::{TestOptions, selects_arg, selects_val};
use crate::types::{TypedProgram, TypedProgramV, Ty, TyV, FieldTy, FieldTyV, TaggedVariantTy, TaggedVariantTyV, PunBlockTy, PunBlockTyV,
    UnionTy, TaggedTy, PunTy,
    fields_view, spec_format_ty, ArgV, FuncV, Arg, Func, func_below};
use crate::abis::GenerateError;
use crate::text::{push_str, push_decimal, decimal};

verus! {

#[verifier::external_type_specification]
#[verifier::external_body]
pub struct ExLcg128Xsl64(rand_pcg::Lcg128Xsl64);

/// Seeds a PCG generator (`rand_pcg::Pcg64`).
///
/// Trusted: calls `SeedableRng::seed_from_u64`. Nothing is stated of the
/// generator, whose state the library does not see.
#[verifier::external_body]
fn rng_from_seed(seed: u64) -> rand_pcg::Lcg128Xsl64 {
    <rand_pcg::Lcg128Xsl64 as rand_core::SeedableRng>::seed_from_u64(seed)
}

/// The first `len` bytes of the stream of a PCG generator
/// (`rand_pcg::Pcg64`) seeded with `seed` through `SeedableRng::seed_from_u64`.
pub uninterp spec fn pcg_bytes(seed: u64, len: nat) -> Seq<u8>;

/// Fills `out` with the bytes of a PCG generator seeded with `seed`.
///
/// Trusted: calls `SeedableRng::seed_from_u64` and `RngCore::fill_bytes`,
/// which writes every byte of `out` and no other. Both are fixed functions
/// of their inputs (the seed is expanded with PCG32 and the bytes are read
/// little-endian from the stream), so the bytes are a function of the seed
/// and the length alone.
#[verifier::external_body]
fn seeded_fill_bytes(seed: u64, out: &mut [u8])
    ensures
        final(out)@.len() == old(out)@.len(),
        final(out)@ == pcg_bytes(seed, old(out)@.len()),
{
    let mut rng = <rand_pcg::Lcg128Xsl64 as rand_core::SeedableRng>::seed_from_u64(seed);
    rand_core::RngCore::fill_bytes(&mut rng, out)
}

/// The next 64 bits of the generator's stream.
///
/// Trusted: calls `RngCore::next_u64`; the result depends on the generator's
/// state, and nothing is stated of it.
#[verifier::external_body]
fn rng_next_u64(rng: &mut rand_pcg::Lcg128Xsl64) -> u64 {
    rand_core::RngCore::next_u64(rng)
}

/// An index in `0..len` drawn from the generator.
///
/// Trusted: calls `Rng::gen_range(0..len)`, which panics on an empty range
/// (left out by `requires`) and otherwise returns a value of the range.
#[verifier::external_body]
fn rng_index(rng: &mut rand_pcg::Lcg128Xsl64, len: usize) -> (r: usize)
    requires
        len > 0,
    ensures
        r < len,
{
    rand::Rng::gen_range(rng, 0..len)
}

/// The option at `idx`, none if there is none there.
pub fn select_at<'a, T>(options: &'a [T], idx: usize) -> (r: Option<&'a T>)
    ensures
        idx < options@.len() ==> r == Some(&options@[idx as int]),
        idx >= options@.len() ==> r is None,
{
    if idx < options.len() {
        Some(&options[idx])
    } else {
        None
    }
}

/// How a value's bytes are made.
#[derive(Debug, Clone, Copy, PartialEq, Eq, Structural)]
pub enum ValueGenerator {
    /// The pattern of the value with this index.
    Graffiti { idx: u64 },
    /// Random bytes from a generator seeded with `seed`.
    Random { seed: u64 },
}

/// How the values of a test are made.
#[derive(Debug, Clone, Copy, PartialEq, Eq, Structural)]
pub enum ValueGeneratorKind {
    Graffiti,
    /// Each value's seed is drawn from a generator seeded with `seed`.
    Random { seed: u64 },
}

/// Byte `i` of the graffiti pattern of the value with index `idx`: the
/// index (wrapping) in the high nibble, the byte's position (wrapping) in
/// the low nibble.
pub open spec fn graffiti_byte(idx: u64, i: int) -> u8 {
    ((idx as u8) << 4u8) | ((i as u8) & 15u8)
}

/// The first `n` bytes of the graffiti pattern of the value with index `idx`.
pub open spec fn graffiti(idx: u64, n: nat) -> Seq<u8> {
    Seq::new(n, |i: int| graffiti_byte(idx, i))
}

/// The first `n` bytes of a value: its graffiti pattern, or the stream of a
/// generator seeded with its seed.
pub open spec fn gen_bytes(g: ValueGenerator, n: nat) -> Seq<u8> {
    match g {
        ValueGenerator::Graffiti { idx } => graffiti(idx, n),
        ValueGenerator::Random { seed } => pcg_bytes(seed, n),
    }
}

impl ValueGenerator {
    /// Fills `output` with this value's bytes.
    pub fn fill_bytes(&self, output: &mut [u8])
        ensures
            final(output)@.len() == old(output)@.len(),
            final(output)@ == gen_bytes(*self, old(output)@.len()),
    {
        match self {
            ValueGenerator::Graffiti { idx } => {
                let n = output.len();
                let mut i: usize = 0;
                while i < n
                    invariant
                        n == output@.len(),
                        n == old(output)@.len(),
                        i <= n,
                        forall|j: int| 0 <= j < i ==> output@[j] == graffiti_byte(*idx, j),
                    decreases n - i,
                {
                    output[i] = ((*idx as u8) << 4u8) | ((i as u8) & 15u8);
                    i = i + 1;
                }
                assert(output@ =~= graffiti(*idx, n as nat));
            },
            ValueGenerator::Random { seed } => {
                seeded_fill_bytes(*seed, output);
            },
        }
    }

    /// An index in `0..len` (zero when `len` is zero).
    ///
    /// The index is drawn with `Rng::gen_range` from a PCG generator seeded
    /// with the value's seed (for graffiti, its first eight bytes read as a
    /// `u64`). Which index comes out is not stated: it is the generator's
    /// draw, and for one seed it differs between 32-bit and 64-bit targets.
    pub fn generate_idx(&self, len: usize) -> (r: usize)
        ensures
            len == 0 ==> r == 0,
            len > 0 ==> r < len,
    {
        if len == 0 {
            return 0;
        }
        let mut rng = match self {
            ValueGenerator::Graffiti { .. } => {
                let seed = self.generate_u64();
                rng_from_seed(seed)
            },
            ValueGenerator::Random { seed } => rng_from_seed(*seed),
        };
        rng_index(&mut rng, len)
    }

    /// One of `options`, none if there are none: the one at the index the
    /// value draws (see [`ValueGenerator::generate_idx`] and [`select_at`]).
    pub fn select_val<'a, T>(&self, options: &'a [T]) -> (r: Option<&'a T>)
        ensures
            options@.len() == 0 <==> r is None,
            r matches Some(x) ==> exists|i: int| 0 <= i < options@.len() && options@[i] == *x,
    {
        let idx = self.generate_idx(options.len());
        select_at(options, idx)
    }

    /// A `u8` made of this value's bytes.
    pub fn generate_u8(&self) -> (r: u8)
        ensures
            r == gen_bytes(*self, 1)[0],
    {
        let mut buf = [0u8; 1];
        self.fill_bytes(&mut buf);
        buf[0]
    }

    /// A `u16` made of this value's bytes, little-endian.
    pub fn generate_u16(&self) -> (r: u16)
        ensures
            r == spec_u16_from_le_bytes(gen_bytes(*self, 2)),
    {
        let mut buf = [0u8; 2];
        self.fill_bytes(&mut buf);
        u16_from_le_bytes(&buf)
    }

    /// A `u32` made of this value's bytes, little-endian.
    pub fn generate_u32(&self) -> (r: u32)
        ensures
            r == spec_u32_from_le_bytes(gen_bytes(*self, 4)),
    {
        let mut buf = [0u8; 4];
        self.fill_bytes(&mut buf);
        u32_from_le_bytes(&buf)
    }

    /// A `u64` made of this value's bytes, little-endian.
    pub fn generate_u64(&self) -> (r: u64)
        ensures
            r == spec_u64_from_le_bytes(gen_bytes(*self, 8)),
    {
        let mut buf = [0u8; 8];
        self.fill_bytes(&mut buf);
        u64_from_le_bytes(&buf)
    }

    /// A `u128` made of this value's bytes, little-endian.
    pub fn generate_u128(&self) -> (r: u128)
        ensures
            r == spec_u128_from_le_bytes(gen_bytes(*self, 16)),
    {
        let mut buf = [0u8; 16];
        self.fill_bytes(&mut buf);
        u128_from_le_bytes(&buf)
    }

    /// An `i8` with the bits of [`ValueGenerator::generate_u8`].
    pub fn generate_i8(&self) -> (r: i8)
        ensures
            r == gen_bytes(*self, 1)[0] as i8,
    {
        self.generate_u8() as i8
    }

    /// An `i16` with the bits of [`ValueGenerator::generate_u16`].
    pub fn generate_i16(&self) -> (r: i16)
        ensures
            r == spec_u16_from_le_bytes(gen_bytes(*self, 2)) as i16,
    {
        self.generate_u16() as i16
    }

    /// An `i32` with the bits of [`ValueGenerator::generate_u32`].
    pub fn generate_i32(&self) -> (r: i32)
        ensures
            r == spec_u32_from_le_bytes(gen_bytes(*self, 4)) as i32,
    {
        self.generate_u32() as i32
    }

    /// An `i64` with the bits of [`ValueGenerator::generate_u64`].
    pub fn generate_i64(&self) -> (r: i64)
        ensures
            r == spec_u64_from_le_bytes(gen_bytes(*self, 8)) as i64,
    {
        self.generate_u64() as i64
    }

    /// An `i128` with the bits of [`ValueGenerator::generate_u128`].
    pub fn generate_i128(&self) -> (r: i128)
        ensures
            r == spec_u128_from_le_bytes(gen_bytes(*self, 16)) as i128,
    {
        self.generate_u128() as i128
    }
}

/// One leaf value of an argument.
#[derive(Debug)]
pub struct Value {
    pub val: ValueGenerator,
    /// The type of the leaf.
    pub ty: usize,
    /// Where the leaf is in the argument, like `arg.field[2].*`.
    pub path: String,
}

/// The values of one argument.
#[derive(Debug)]
pub struct ArgValues {
    pub arg_name: String,
    pub ty: usize,
    pub is_input: bool,
    pub vals: Vec<Value>,
    /// The variants drawn when the values were made.
    pub picks: VariantPicks,
}

/// The values of one function.
#[derive(Debug)]
pub struct FuncValues {
    pub func_name: String,
    pub args: Vec<ArgValues>,
}

/// The values of every function of a test.
#[derive(Debug)]
pub struct ValueTree {
    pub generator_kind: ValueGeneratorKind,
    pub funcs: Vec<FuncValues>,
}

/// The number of values of the first `a` arguments: the index, among the
/// function's values, of the first value of argument `a`.
pub open spec fn vals_before(args: Seq<ArgValues>, a: int) -> int
    decreases a,
{
    if a <= 0 || a > args.len() { 0 } else { vals_before(args, a - 1) + args[a - 1].vals@.len() }
}

pub proof fn lemma_vals_before_mono(args: Seq<ArgValues>, a: int, b: int)
    requires
        0 <= a <= b <= args.len(),
    ensures
        vals_before(args, a) <= vals_before(args, b),
    decreases b - a,
{
    if a < b {
        lemma_vals_before_mono(args, a, b - 1);
    }
}

/// Walks the arguments of one function of a [`ValueTree`].
#[derive(Debug)]
pub struct FuncValuesIter<'a> {
    tree: &'a ValueTree,
    func_idx: usize,
    arg_idx: usize,
    /// The number of values of the arguments walked so far.
    val_base: usize,
}

/// Walks the values of one argument of a [`ValueTree`].
#[derive(Debug)]
pub struct ArgValuesIter<'a> {
    tree: &'a ValueTree,
    func_idx: usize,
    pub arg_idx: usize,
    val_idx: usize,
    /// The index, among the function's values, of the argument's first value.
    val_base: usize,
}

/// One value of a [`ValueTree`].
#[derive(Debug)]
pub struct ValueRef<'a> {
    tree: &'a ValueTree,
    func_idx: usize,
    arg_idx: usize,
    val_idx: usize,
    /// The index of the value among all the values of its function.
    absolute_val_idx: usize,
}

impl ValueTree {
    /// Walks the arguments of function `func_idx`.
    pub fn at_func(&self, func_idx: usize) -> (r: FuncValuesIter<'_>)
        requires
            func_idx < self.funcs@.len(),
        ensures
            *r.tree() == *self,
            r.func_idx() == func_idx,
            r.arg_idx() == 0,
            r.val_base() == 0,
    {
        FuncValuesIter { tree: self, func_idx, arg_idx: 0, val_base: 0 }
    }
}

impl<'a> FuncValuesIter<'a> {
    /// The tree walked.
    pub closed spec fn tree(&self) -> &'a ValueTree {
        self.tree
    }

    /// The function walked.
    pub closed spec fn func_idx(&self) -> usize {
        self.func_idx
    }

    /// The position of the next argument.
    pub closed spec fn arg_idx(&self) -> usize {
        self.arg_idx
    }

    /// The number of values of the arguments walked so far.
    pub closed spec fn val_base(&self) -> usize {
        self.val_base
    }

    /// The arguments of the function walked.
    pub open spec fn args(&self) -> Seq<ArgValues> {
        self.tree().funcs@[self.func_idx() as int].args@
    }

    /// Walks the values of the next argument.
    pub fn next_arg(&mut self) -> (r: ArgValuesIter<'a>)
        requires
            old(self).func_idx() < old(self).tree().funcs@.len(),
            old(self).arg_idx() < old(self).args().len(),
            old(self).val_base() == vals_before(old(self).args(), old(self).arg_idx() as int),
            vals_before(old(self).args(), old(self).arg_idx() + 1) <= usize::MAX,
        ensures
            final(self).tree() == old(self).tree(),
            final(self).func_idx() == old(self).func_idx(),
            final(self).arg_idx() == old(self).arg_idx() + 1,
            final(self).val_base() == vals_before(old(self).args(), old(self).arg_idx() + 1),
            r.tree() == old(self).tree(),
            r.func_idx() == old(self).func_idx(),
            r.arg_pos() == old(self).arg_idx(),
            r.val_idx() == 0,
            r.val_base() == old(self).val_base(),
            r.counts_fit(),
    {
        let tree = self.tree;
        let func_idx = self.func_idx;
        let arg_idx = self.arg_idx;
        let val_base = self.val_base;
        let _m = self.tree.funcs[func_idx].args.len();
        let n = self.tree.funcs[func_idx].args[arg_idx].vals.len();
        assert(vals_before(self.args(), arg_idx + 1) == vals_before(self.args(), arg_idx as int) + n);
        self.arg_idx = self.arg_idx + 1;
        self.val_base = self.val_base + n;
        ArgValuesIter { tree, func_idx, arg_idx, val_idx: 0, val_base }
    }
}

impl<'a> ArgValuesIter<'a> {
    /// The tree walked.
    pub closed spec fn tree(&self) -> &'a ValueTree {
        self.tree
    }

    /// The function walked.
    pub closed spec fn func_idx(&self) -> usize {
        self.func_idx
    }

    /// The position of the next value.
    pub closed spec fn val_idx(&self) -> usize {
        self.val_idx
    }

    /// The argument walked.
    pub closed spec fn arg_pos(&self) -> usize {
        self.arg_idx
    }

    /// The index, among the function's values, of the argument's first value.
    pub closed spec fn val_base(&self) -> usize {
        self.val_base
    }

    /// Whether the walk is at an argument of the tree.
    pub open spec fn at_arg(&self) -> bool {
        &&& self.func_idx() < self.tree().funcs@.len()
        &&& self.arg_pos() < self.tree().funcs@[self.func_idx() as int].args@.len()
    }

    /// The values of the argument walked.
    pub open spec fn arg_vals(&self) -> Seq<Value> {
        self.tree().funcs@[self.func_idx() as int].args@[self.arg_pos() as int].vals@
    }

    /// The walk is at an argument, no further than its end, and the
    /// function's values up to the end of the argument can be counted.
    pub open spec fn counts_fit(&self) -> bool {
        &&& self.at_arg()
        &&& self.val_idx() <= self.arg_vals().len()
        &&& self.val_base() == vals_before(self.tree().funcs@[self.func_idx() as int].args@, self.arg_pos() as int)
        &&& self.val_base() + self.arg_vals().len() <= usize::MAX
    }

    /// The number of values of the argument not walked yet.
    pub fn remaining(&self) -> (r: usize)
        requires
            self.counts_fit(),
        ensures
            r == self.arg_vals().len() - self.val_idx(),
    {
        self.tree.funcs[self.func_idx].args[self.arg_idx].vals.len() - self.val_idx
    }

    /// The next value of the argument.
    pub fn next_val(&mut self) -> (r: ValueRef<'a>)
        requires
            old(self).counts_fit(),
            old(self).val_idx() < old(self).arg_vals().len(),
        ensures
            final(self).tree() == old(self).tree(),
            final(self).func_idx() == old(self).func_idx(),
            final(self).arg_pos() == old(self).arg_pos(),
            final(self).val_base() == old(self).val_base(),
            final(self).val_idx() == old(self).val_idx() + 1,
            final(self).counts_fit(),
            r.tree() == old(self).tree(),
            r.func_idx() == old(self).func_idx(),
            r.arg_idx() == old(self).arg_pos(),
            r.val_idx() == old(self).val_idx(),
            r.absolute_idx() == old(self).val_base() + old(self).val_idx(),
    {
        let tree = self.tree;
        let func_idx = self.func_idx;
        let arg_idx = self.arg_idx;
        let val_idx = self.val_idx;
        let _n = self.tree.funcs[func_idx].args[arg_idx].vals.len();
        self.val_idx = self.val_idx + 1;
        ValueRef { tree, func_idx, arg_idx, val_idx, absolute_val_idx: self.val_base + val_idx }
    }

    /// Whether the options have this argument written.
    pub fn should_write_arg(&self, options: &TestOptions) -> (r: bool)
        ensures
            r == selects_arg(options.functions, self.func_idx(), self.arg_pos()),
    {
        options.functions.should_write_arg(self.func_idx, self.arg_idx)
    }

    /// The argument walked.
    pub fn arg(&self) -> (r: &'a ArgValues)
        requires
            self.at_arg(),
        ensures
            *r == self.tree().funcs@[self.func_idx() as int].args@[self.arg_pos() as int],
    {
        &self.tree.funcs[self.func_idx].args[self.arg_idx]
    }
}

impl<'a> ValueRef<'a> {
    /// The tree the value is in.
    pub closed spec fn tree(&self) -> &'a ValueTree {
        self.tree
    }

    /// The function the value is in.
    pub closed spec fn func_idx(&self) -> usize {
        self.func_idx
    }

    /// The argument the value is in.
    pub closed spec fn arg_idx(&self) -> usize {
        self.arg_idx
    }

    /// The position of the value in its argument.
    pub closed spec fn val_idx(&self) -> usize {
        self.val_idx
    }

    /// The index of the value among all the values of its function.
    pub closed spec fn absolute_idx(&self) -> usize {
        self.absolute_val_idx
    }

    /// The index of the value among all the values of its function.
    pub fn absolute_val_idx(&self) -> (r: usize)
        ensures
            r == self.absolute_idx(),
    {
        self.absolute_val_idx
    }

    /// Whether the options have this value written.
    pub fn should_write_val(&self, options: &TestOptions) -> (r: bool)
        ensures
            r == selects_val(options.functions, self.func_idx(), self.arg_idx(), self.val_idx()),
    {
        options.functions.should_write_val(self.func_idx, self.arg_idx, self.val_idx)
    }

    /// The value.
    pub fn value(&self) -> (r: &'a Value)
        requires
            self.func_idx() < self.tree().funcs@.len(),
            self.arg_idx() < self.tree().funcs@[self.func_idx() as int].args@.len(),
            self.val_idx() < self.tree().funcs@[self.func_idx() as int].args@[self.arg_idx() as int].vals@.len(),
        ensures
            *r == self.tree().funcs@[self.func_idx() as int].args@[self.arg_idx() as int].vals@[self.val_idx() as int],
    {
        &self.tree.funcs[self.func_idx].args[self.arg_idx].vals[self.val_idx]
    }
}

} // verus!

verus! {

/// A leaf of a value: the type it is made for and where it sits in its
/// argument.
pub struct LeafV {
    pub ty: usize,
    pub path: Seq<char>,
}

/// The choices of a walk over a type: `pick` is what the generator drew
/// for a union's or a tagged union's active variant, `kids` the choices of
/// the walk's parts, in order.
pub struct Picks {
    pub pick: usize,
    pub kids: Seq<Picks>,
}

/// The variants a value's generator drew when its values were made, kept
/// with the values so that a walk over them takes the same ones.
#[derive(Debug)]
pub struct VariantPicks {
    pub pick: usize,
    pub kids: Vec<VariantPicks>,
}

impl VariantPicks {
    /// The picks, as a value of the specification.
    pub open spec fn picks(&self) -> Picks
        decreases self,
    {
        Picks {
            pick: self.pick,
            kids: Seq::new(self.kids@.len(), |i: int|
                if 0 <= i < self.kids@.len() { self.kids@[i].picks() } else { Picks { pick: 0, kids: Seq::empty() } }),
        }
    }
}

impl View for VariantPicks {
    type V = Picks;

    open spec fn view(&self) -> Picks {
        self.picks()
    }
}

/// The picks of each of `v`.
pub open spec fn picks_views(v: Seq<VariantPicks>) -> Seq<Picks> {
    Seq::new(v.len(), |i: int| v[i]@)
}

/// The picks `pick` with those of its parts, `kids`.
fn picks_node(pick: usize, kids: Vec<VariantPicks>) -> (r: VariantPicks)
    ensures
        r@ == (Picks { pick, kids: picks_views(kids@) }),
{
    let r = VariantPicks { pick, kids };
    assert(r@.kids.len() == r.kids@.len());
    assert forall|i: int| 0 <= i < r.kids@.len() implies r@.kids[i] == picks_views(r.kids@)[i] by {
        assert(r@.kids[i] == r.kids@[i].picks());
    }
    assert(r@.kids =~= picks_views(r.kids@));
    r
}

/// The picks `pick` of a value without parts.
pub fn picks_leaf(pick: usize) -> (r: VariantPicks)
    ensures
        r@ == (Picks { pick, kids: Seq::empty() }),
{
    let r = VariantPicks { pick, kids: Vec::new() };
    assert(r@.kids =~= Seq::<Picks>::empty());
    r
}

/// The picks of a value are its pick and the picks of its parts.
pub proof fn lemma_picks_view(pb: VariantPicks)
    ensures
        pb@ == (Picks { pick: pb.pick, kids: picks_views(pb.kids@) }),
{
    assert forall|i: int| 0 <= i < pb.kids@.len() implies pb@.kids[i] == picks_views(pb.kids@)[i] by {
        assert(pb@.kids[i] == pb.kids@[i].picks());
    }
    assert(pb@.kids =~= picks_views(pb.kids@));
}

/// The picks of part `i` of `kids`, or `none` where there are none.
pub fn kid_at<'a>(kids: &'a Vec<VariantPicks>, i: usize, none: &'a VariantPicks) -> (r: &'a VariantPicks)
    requires
        none@ == (Picks { pick: 0, kids: Seq::empty() }),
    ensures
        r@ == kid(picks_views(kids@), i as int),
{
    if i < kids.len() {
        &kids[i]
    } else {
        none
    }
}

/// `kv` with `x` appended.
proof fn lemma_picks_push(kv: Seq<VariantPicks>, x: VariantPicks)
    ensures
        picks_views(kv.push(x)) == picks_views(kv).push(x@),
{
    assert(picks_views(kv.push(x)) =~= picks_views(kv).push(x@));
}

/// A pun whose blocks gave different numbers of values: its name, the two
/// blocks' types and their counts.
pub struct PunMismatchV {
    pub pun: Seq<char>,
    pub block1: Seq<char>,
    pub block1_val_count: nat,
    pub block2: Seq<char>,
    pub block2_val_count: nat,
}

/// The picks of part `i`, none where they were not recorded.
pub open spec fn kid(kids: Seq<Picks>, i: int) -> Picks {
    if 0 <= i < kids.len() { kids[i] } else { Picks { pick: 0, kids: Seq::empty() } }
}

/// The fields of a tagged variant (none for a variant without fields).
pub open spec fn variant_fields(v: TaggedVariantTyV) -> Seq<FieldTyV> {
    match v.fields {
        Some(fs) => fs,
        None => Seq::empty(),
    }
}

/// Type `t` exists, and every walk down its parts (fields, elements,
/// pointees, aliased types, pun blocks) reaches a leaf in fewer than `d`
/// steps.
pub open spec fn finite_within(tys: Seq<TyV>, t: int, d: nat) -> bool
    decreases d,
{
    if d == 0 || t < 0 || t >= tys.len() {
        false
    } else {
        let d1 = (d - 1) as nat;
        match tys[t] {
            TyV::Struct { fields, .. } => forall|i: int| 0 <= i < fields.len() ==> finite_within(tys, (#[trigger] fields[i]).ty as int, d1),
            TyV::Union { fields, .. } => forall|i: int| 0 <= i < fields.len() ==> finite_within(tys, (#[trigger] fields[i]).ty as int, d1),
            TyV::Tagged { variants, .. } => forall|v: int, i: int| 0 <= v < variants.len() && 0 <= i < variant_fields(variants[v]).len()
                ==> finite_within(tys, (#[trigger] variant_fields(variants[v])[i]).ty as int, d1),
            TyV::Alias { real: target, .. } => finite_within(tys, target as int, d1),
            TyV::Pun { blocks, .. } => forall|b: int| 0 <= b < blocks.len() ==> finite_within(tys, (#[trigger] blocks[b]).real as int, d1),
            TyV::Array(a) => finite_within(tys, a.elem_ty as int, d1),
            TyV::Ref(r) => finite_within(tys, r.pointee_ty as int, d1),
            _ => true,
        }
    }
}

/// Type `t` exists and has finitely many leaves.
pub open spec fn value_finite(tys: Seq<TyV>, t: int) -> bool {
    exists|d: nat| finite_within(tys, t, d)
}

/// The leaves of a value of type `t` at `path`, the active variants
/// drawn as `pk` records; or the first pun whose blocks disagree on their
/// number of leaves.
pub open spec fn spec_leaves(tys: Seq<TyV>, t: int, path: Seq<char>, pk: Picks, d: nat) -> Result<Seq<LeafV>, PunMismatchV>
    decreases d, 0int,
{
    if d == 0 || t < 0 || t >= tys.len() {
        Ok(Seq::empty())
    } else {
        let d1 = (d - 1) as nat;
        let tag = seq![LeafV { ty: t as usize, path }];
        match tys[t] {
            TyV::Primitive(_) => Ok(tag),
            TyV::Enum { .. } => Ok(tag),
            TyV::Empty => Ok(Seq::empty()),
            TyV::Alias { real: target, .. } => spec_leaves(tys, target as int, path, pk, d1),
            TyV::Ref(r) => spec_leaves(tys, r.pointee_ty as int, path + ".*"@, pk, d1),
            TyV::Struct { fields, .. } => spec_fields_leaves(tys, fields, fields.len() as int, path, pk.kids, d1),
            TyV::Array(a) => spec_array_leaves(tys, a.elem_ty as int, a.len as int, path, pk.kids, d1),
            TyV::Union { fields, .. } => if fields.len() == 0 {
                Ok(tag)
            } else {
                let f = fields[pk.pick as int % fields.len() as int];
                match spec_leaves(tys, f.ty as int, path + "."@ + f.ident.text(), kid(pk.kids, 0), d1) {
                    Ok(l) => Ok(tag + l),
                    Err(e) => Err(e),
                }
            },
            TyV::Tagged { variants, .. } => if variants.len() == 0 {
                Ok(tag)
            } else {
                let v = variants[pk.pick as int % variants.len() as int];
                let fs = variant_fields(v);
                match spec_fields_leaves(tys, fs, fs.len() as int, path + "."@ + v.name.text(), pk.kids, d1) {
                    Ok(l) => Ok(tag + l),
                    Err(e) => Err(e),
                }
            },
            TyV::Pun { name, blocks, .. } => match spec_pun_leaves(tys, name.text(), blocks, blocks.len() as int, path, pk.kids, d1) {
                Ok(Some(l)) => Ok(l),
                Ok(None) => Ok(Seq::empty()),
                Err(e) => Err(e),
            },
        }
    }
}

/// The leaves of the first `k` fields of `fs`, at `prefix.name`.
pub open spec fn spec_fields_leaves(tys: Seq<TyV>, fs: Seq<FieldTyV>, k: int, prefix: Seq<char>, kids: Seq<Picks>, d: nat)
    -> Result<Seq<LeafV>, PunMismatchV>
    decreases d, k,
{
    if k <= 0 || k > fs.len() {
        Ok(Seq::empty())
    } else {
        match spec_fields_leaves(tys, fs, k - 1, prefix, kids, d) {
            Err(e) => Err(e),
            Ok(a) => match spec_leaves(tys, fs[k - 1].ty as int, prefix + "."@ + fs[k - 1].ident.text(), kid(kids, k - 1), d) {
                Err(e) => Err(e),
                Ok(b) => Ok(a + b),
            },
        }
    }
}

/// The leaves of the first `k` elements of an array, at `path[i]`.
pub open spec fn spec_array_leaves(tys: Seq<TyV>, elem: int, k: int, path: Seq<char>, kids: Seq<Picks>, d: nat)
    -> Result<Seq<LeafV>, PunMismatchV>
    decreases d, k,
{
    if k <= 0 {
        Ok(Seq::empty())
    } else {
        match spec_array_leaves(tys, elem, k - 1, path, kids, d) {
            Err(e) => Err(e),
            Ok(a) => match spec_leaves(tys, elem, path + "["@ + decimal((k - 1) as nat) + "]"@, kid(kids, k - 1), d) {
                Err(e) => Err(e),
                Ok(b) => Ok(a + b),
            },
        }
    }
}

/// The leaves of the last of the first `k` blocks of a pun (none if `k`
/// is zero), each block walked from the same state; or the first pair of
/// consecutive blocks that disagree on their number of leaves.
pub open spec fn spec_pun_leaves(tys: Seq<TyV>, name: Seq<char>, blocks: Seq<PunBlockTyV>, k: int, path: Seq<char>,
    kids: Seq<Picks>, d: nat) -> Result<Option<Seq<LeafV>>, PunMismatchV>
    decreases d, k,
{
    if k <= 0 || k > blocks.len() {
        Ok(None)
    } else {
        match spec_pun_leaves(tys, name, blocks, k - 1, path, kids, d) {
            Err(e) => Err(e),
            Ok(prev) => match spec_leaves(tys, blocks[k - 1].real as int, path, kid(kids, k - 1), d) {
                Err(e) => Err(e),
                Ok(l) => match prev {
                    Some(pl) => if pl.len() != l.len() {
                        Err(PunMismatchV {
                            pun: name,
                            block1: spec_format_ty(tys, blocks[k - 2].real as int),
                            block1_val_count: pl.len(),
                            block2: spec_format_ty(tys, blocks[k - 1].real as int),
                            block2_val_count: l.len(),
                        })
                    } else {
                        Ok(Some(l))
                    },
                    None => Ok(Some(l)),
                },
            },
        }
    }
}

} // verus!

verus! {

/// With fuel enough to reach every leaf, more fuel gives the same leaves.
pub proof fn lemma_leaves_fuel(tys: Seq<TyV>, t: int, path: Seq<char>, pk: Picks, d1: nat, d2: nat)
    requires
        finite_within(tys, t, d1),
        d1 <= d2,
    ensures
        spec_leaves(tys, t, path, pk, d1) == spec_leaves(tys, t, path, pk, d2),
    decreases d1, 0int,
{
    let e1 = (d1 - 1) as nat;
    let e2 = (d2 - 1) as nat;
    match tys[t] {
        TyV::Alias { real: target, .. } => lemma_leaves_fuel(tys, target as int, path, pk, e1, e2),
        TyV::Ref(r) => lemma_leaves_fuel(tys, r.pointee_ty as int, path + ".*"@, pk, e1, e2),
        TyV::Struct { fields, .. } => lemma_fields_leaves_fuel(tys, fields, fields.len() as int, path, pk.kids, e1, e2),
        TyV::Array(a) => lemma_array_leaves_fuel(tys, a.elem_ty as int, a.len as int, path, pk.kids, e1, e2),
        TyV::Union { fields, .. } => {
            if fields.len() > 0 {
                let f = fields[pk.pick as int % fields.len() as int];
                assert(finite_within(tys, f.ty as int, e1));
                lemma_leaves_fuel(tys, f.ty as int, path + "."@ + f.ident.text(), kid(pk.kids, 0), e1, e2);
            }
        },
        TyV::Tagged { variants, .. } => {
            if variants.len() > 0 {
                let vi = pk.pick as int % variants.len() as int;
                let fs = variant_fields(variants[vi]);
                assert forall|i: int| 0 <= i < fs.len() implies finite_within(tys, (#[trigger] fs[i]).ty as int, e1) by {
                    assert(finite_within(tys, variant_fields(variants[vi])[i].ty as int, e1));
                }
                lemma_fields_leaves_fuel(tys, fs, fs.len() as int, path + "."@ + variants[vi].name.text(), pk.kids, e1, e2);
            }
        },
        TyV::Pun { name, blocks, .. } => {
            lemma_pun_leaves_fuel(tys, name.text(), blocks, blocks.len() as int, path, pk.kids, e1, e2);
        },
        _ => {},
    }
}

proof fn lemma_fields_leaves_fuel(tys: Seq<TyV>, fs: Seq<FieldTyV>, k: int, prefix: Seq<char>, kids: Seq<Picks>, d1: nat, d2: nat)
    requires
        forall|i: int| 0 <= i < fs.len() ==> finite_within(tys, (#[trigger] fs[i]).ty as int, d1),
        d1 <= d2,
    ensures
        spec_fields_leaves(tys, fs, k, prefix, kids, d1) == spec_fields_leaves(tys, fs, k, prefix, kids, d2),
    decreases d1, k,
{
    if 0 < k <= fs.len() {
        lemma_fields_leaves_fuel(tys, fs, k - 1, prefix, kids, d1, d2);
        lemma_leaves_fuel(tys, fs[k - 1].ty as int, prefix + "."@ + fs[k - 1].ident.text(), kid(kids, k - 1), d1, d2);
    }
}

proof fn lemma_array_leaves_fuel(tys: Seq<TyV>, elem: int, k: int, path: Seq<char>, kids: Seq<Picks>, d1: nat, d2: nat)
    requires
        finite_within(tys, elem, d1),
        d1 <= d2,
    ensures
        spec_array_leaves(tys, elem, k, path, kids, d1) == spec_array_leaves(tys, elem, k, path, kids, d2),
    decreases d1, k,
{
    if k > 0 {
        lemma_array_leaves_fuel(tys, elem, k - 1, path, kids, d1, d2);
        lemma_leaves_fuel(tys, elem, path + "["@ + decimal((k - 1) as nat) + "]"@, kid(kids, k - 1), d1, d2);
    }
}

proof fn lemma_pun_leaves_fuel(tys: Seq<TyV>, name: Seq<char>, blocks: Seq<PunBlockTyV>, k: int, path: Seq<char>,
    kids: Seq<Picks>, d1: nat, d2: nat)
    requires
        forall|b: int| 0 <= b < blocks.len() ==> finite_within(tys, (#[trigger] blocks[b]).real as int, d1),
        d1 <= d2,
    ensures
        spec_pun_leaves(tys, name, blocks, k, path, kids, d1) == spec_pun_leaves(tys, name, blocks, k, path, kids, d2),
    decreases d1, k,
{
    if 0 < k <= blocks.len() {
        lemma_pun_leaves_fuel(tys, name, blocks, k - 1, path, kids, d1, d2);
        lemma_leaves_fuel(tys, blocks[k - 1].real as int, path, kid(kids, k - 1), d1, d2);
    }
}

/// The number of `u64` values.
pub open spec fn u64_count() -> int {
    0x1_0000_0000_0000_0000
}

/// Graffiti values numbered from `start`: value `i` has the pattern index
/// `start + i`, wrapping.
pub open spec fn numbered(vals: Seq<Value>, start: int) -> bool {
    forall|i: int| 0 <= i < vals.len() ==> (#[trigger] vals[i]).val == ValueGenerator::Graffiti { idx: ((start + i) % u64_count()) as u64 }
}

/// Every value draws random bytes.
pub open spec fn all_random(vals: Seq<Value>) -> bool {
    forall|i: int| 0 <= i < vals.len() ==> (#[trigger] vals[i]).val is Random
}

/// The values have the types and paths of the leaves, in order.
pub open spec fn values_match(vals: Seq<Value>, leaves: Seq<LeafV>) -> bool {
    &&& vals.len() == leaves.len()
    &&& forall|i: int| 0 <= i < vals.len() ==> (#[trigger] vals[i]).ty == leaves[i].ty && vals[i].path@ == leaves[i].path
}

/// Every value is for a type below `n`.
pub open spec fn tys_below(vals: Seq<Value>, n: int) -> bool {
    forall|i: int| 0 <= i < vals.len() ==> (#[trigger] vals[i]).ty < n
}

/// `e` reports the pun mismatch `m`.
pub open spec fn is_mismatch(e: GenerateError, m: PunMismatchV) -> bool {
    e matches GenerateError::MismatchedPunVals { pun, block1, block1_val_count, block2, block2_val_count }
        && pun@ == m.pun && block1@ == m.block1 && block1_val_count == m.block1_val_count
        && block2@ == m.block2 && block2_val_count == m.block2_val_count
}

/// A copy of the generator, which goes on from the same state.
///
/// Trusted: calls `Clone::clone` on the generator; nothing is stated of the
/// copy, whose state the library does not see.
#[verifier::external_body]
fn rng_clone(rng: &rand_pcg::Lcg128Xsl64) -> rand_pcg::Lcg128Xsl64 {
    rng.clone()
}

/// The state that makes values one after another: graffiti numbers them,
/// random seeds each from its own generator.
enum ValueGeneratorBuilder {
    Graffiti { idx: u64 },
    Random { rng: rand_pcg::Lcg128Xsl64 },
}

/// `b1` is `b0` after making the values `added`.
spec fn made(b0: ValueGeneratorBuilder, b1: ValueGeneratorBuilder, added: Seq<Value>) -> bool {
    match b0 {
        ValueGeneratorBuilder::Graffiti { idx } => b1 == ValueGeneratorBuilder::Graffiti { idx: ((idx + added.len()) % u64_count()) as u64 }
            && numbered(added, idx as int),
        ValueGeneratorBuilder::Random { .. } => b1 is Random && all_random(added),
    }
}

spec fn same_kind(b0: ValueGeneratorBuilder, b1: ValueGeneratorBuilder) -> bool {
    (b0 is Graffiti) == (b1 is Graffiti)
}

/// What a walk did, given what it should give: on success `v1` is `v0`
/// with a value for each leaf appended, the builder moved past them; on a
/// refused pun, the error.
spec fn built(spec: Result<Seq<LeafV>, PunMismatchV>, b0: ValueGeneratorBuilder, b1: ValueGeneratorBuilder,
    v0: Seq<Value>, v1: Seq<Value>, res: Result<(), GenerateError>) -> bool {
    match spec {
        Ok(lv) => res is Ok && v0.len() <= v1.len() && v1.subrange(0, v0.len() as int) == v0
            && values_match(v1.subrange(v0.len() as int, v1.len() as int), lv)
            && made(b0, b1, v1.subrange(v0.len() as int, v1.len() as int)),
        Err(m) => res matches Err(e) && is_mismatch(e, m) && same_kind(b0, b1),
    }
}

proof fn lemma_made_kind(b0: ValueGeneratorBuilder, b1: ValueGeneratorBuilder, a: Seq<Value>)
    requires
        made(b0, b1, a),
    ensures
        same_kind(b0, b1),
{
}

proof fn lemma_made_empty(b0: ValueGeneratorBuilder)
    ensures
        made(b0, b0, Seq::empty()),
{
    match b0 {
        ValueGeneratorBuilder::Graffiti { idx } => {
            assert((idx + 0) % u64_count() == idx);
        },
        _ => {},
    }
}

proof fn lemma_made_concat(b0: ValueGeneratorBuilder, b1: ValueGeneratorBuilder, b2: ValueGeneratorBuilder, a: Seq<Value>, b: Seq<Value>)
    requires
        made(b0, b1, a),
        made(b1, b2, b),
    ensures
        made(b0, b2, a + b),
{
    let m = u64_count();
    match b0 {
        ValueGeneratorBuilder::Graffiti { idx } => {
            let s = idx as int;
            let s1 = (s + a.len()) % m;
            assert(b1 == ValueGeneratorBuilder::Graffiti { idx: s1 as u64 });
            vstd::arithmetic::div_mod::lemma_add_mod_noop_right(b.len() as int, s + a.len(), m);
            assert((s1 + b.len()) % m == (s + (a + b).len()) % m);
            assert forall|i: int| 0 <= i < (a + b).len() implies (#[trigger] (a + b)[i]).val == ValueGenerator::Graffiti { idx: ((s + i) % m) as u64 } by {
                if i >= a.len() {
                    let j = i - a.len();
                    assert((a + b)[i] == b[j]);
                    vstd::arithmetic::div_mod::lemma_add_mod_noop_right(j, s + a.len(), m);
                } else {
                    assert((a + b)[i] == a[i]);
                }
            }
        },
        ValueGeneratorBuilder::Random { .. } => {
            assert forall|i: int| 0 <= i < (a + b).len() implies (#[trigger] (a + b)[i]).val is Random by {
                if i >= a.len() {
                    assert((a + b)[i] == b[i - a.len()]);
                } else {
                    assert((a + b)[i] == a[i]);
                }
            }
        },
    }
}

/// Appending a walk's values to those of the walks before it.
proof fn lemma_built_step(spec_a: Seq<LeafV>, spec_b: Result<Seq<LeafV>, PunMismatchV>, b0: ValueGeneratorBuilder,
    b1: ValueGeneratorBuilder, b2: ValueGeneratorBuilder, v0: Seq<Value>, v1: Seq<Value>, v2: Seq<Value>, res: Result<(), GenerateError>)
    requires
        built(Ok(spec_a), b0, b1, v0, v1, Ok(())),
        built(spec_b, b1, b2, v1, v2, res),
    ensures
        built(match spec_b { Ok(lb) => Ok(spec_a + lb), Err(e) => Err(e) }, b0, b2, v0, v2, res),
{
    let a = v1.subrange(v0.len() as int, v1.len() as int);
    lemma_made_kind(b0, b1, a);
    match spec_b {
        Ok(lb) => {
            let b = v2.subrange(v1.len() as int, v2.len() as int);
            assert(v2.subrange(v0.len() as int, v2.len() as int) =~= a + b);
            assert(v2.subrange(0, v0.len() as int) =~= v1.subrange(0, v0.len() as int));
            lemma_made_concat(b0, b1, b2, a, b);
            assert forall|i: int| 0 <= i < (a + b).len() implies (#[trigger] (a + b)[i]).ty == (spec_a + lb)[i].ty
                && (a + b)[i].path@ == (spec_a + lb)[i].path by {
                if i >= a.len() {
                    assert((a + b)[i] == b[i - a.len()]);
                } else {
                    assert((a + b)[i] == a[i]);
                }
            }
        },
        Err(_) => {},
    }
}

proof fn lemma_fields_frame(tys: Seq<TyV>, fs: Seq<FieldTyV>, k: int, prefix: Seq<char>, kids: Seq<Picks>, x: Picks, d: nat)
    requires
        0 <= k <= kids.len(),
    ensures
        spec_fields_leaves(tys, fs, k, prefix, kids.push(x), d) == spec_fields_leaves(tys, fs, k, prefix, kids, d),
    decreases k,
{
    if k > 0 {
        lemma_fields_frame(tys, fs, k - 1, prefix, kids, x, d);
        assert(kid(kids.push(x), k - 1) == kid(kids, k - 1));
    }
}

proof fn lemma_array_frame(tys: Seq<TyV>, elem: int, k: int, path: Seq<char>, kids: Seq<Picks>, x: Picks, d: nat)
    requires
        0 <= k <= kids.len(),
    ensures
        spec_array_leaves(tys, elem, k, path, kids.push(x), d) == spec_array_leaves(tys, elem, k, path, kids, d),
    decreases k,
{
    if k > 0 {
        lemma_array_frame(tys, elem, k - 1, path, kids, x, d);
        assert(kid(kids.push(x), k - 1) == kid(kids, k - 1));
    }
}

proof fn lemma_pun_frame(tys: Seq<TyV>, name: Seq<char>, blocks: Seq<PunBlockTyV>, k: int, path: Seq<char>, kids: Seq<Picks>, x: Picks, d: nat)
    requires
        0 <= k <= kids.len(),
    ensures
        spec_pun_leaves(tys, name, blocks, k, path, kids.push(x), d) == spec_pun_leaves(tys, name, blocks, k, path, kids, d),
    decreases k,
{
    if k > 0 {
        lemma_pun_frame(tys, name, blocks, k - 1, path, kids, x, d);
        assert(kid(kids.push(x), k - 1) == kid(kids, k - 1));
    }
}

impl ValueGeneratorBuilder {
    /// A fresh builder for the kind of values.
    fn new(kind: ValueGeneratorKind) -> (b: Self)
        ensures
            (kind matches ValueGeneratorKind::Graffiti) ==> (b == (ValueGeneratorBuilder::Graffiti { idx: 0 })),
            (kind is Random) ==> (b is Random),
    {
        match kind {
            ValueGeneratorKind::Graffiti => ValueGeneratorBuilder::Graffiti { idx: 0 },
            ValueGeneratorKind::Random { seed } => ValueGeneratorBuilder::Random { rng: rng_from_seed(seed) },
        }
    }

    /// A builder that goes on from the same state.
    fn fork(&self) -> (r: Self)
        ensures
            same_kind(*self, r),
            (*self is Graffiti) ==> r == *self,
    {
        match self {
            ValueGeneratorBuilder::Graffiti { idx } => ValueGeneratorBuilder::Graffiti { idx: *idx },
            ValueGeneratorBuilder::Random { rng } => ValueGeneratorBuilder::Random { rng: rng_clone(rng) },
        }
    }

    /// The next value, for a leaf of type `ty` at `path`.
    fn next(&mut self, ty: usize, path: String) -> (v: Value)
        ensures
            v.ty == ty,
            v.path == path,
            made(*old(self), *final(self), seq![v]),
    {
        let val = match self {
            ValueGeneratorBuilder::Graffiti { idx } => {
                let res = ValueGenerator::Graffiti { idx: *idx };
                *idx = idx.wrapping_add(1);
                res
            },
            ValueGeneratorBuilder::Random { rng } => ValueGenerator::Random { seed: rng_next_u64(rng) },
        };
        let v = Value { val, ty, path };
        proof {
            if let ValueGeneratorBuilder::Graffiti { idx } = *old(self) {
                assert(seq![v][0] == v);
                assert((idx + 0) % u64_count() == idx);
            }
        }
        v
    }
}


proof fn lemma_fields_err(tys: Seq<TyV>, fs: Seq<FieldTyV>, k: int, n: int, prefix: Seq<char>, kids: Seq<Picks>, d: nat)
    requires
        0 < k <= n <= fs.len(),
        spec_fields_leaves(tys, fs, k, prefix, kids, d) is Err,
    ensures
        spec_fields_leaves(tys, fs, n, prefix, kids, d) == spec_fields_leaves(tys, fs, k, prefix, kids, d),
    decreases n - k,
{
    if k < n {
        lemma_fields_err(tys, fs, k, n - 1, prefix, kids, d);
    }
}

proof fn lemma_array_err(tys: Seq<TyV>, elem: int, k: int, n: int, path: Seq<char>, kids: Seq<Picks>, d: nat)
    requires
        0 < k <= n,
        spec_array_leaves(tys, elem, k, path, kids, d) is Err,
    ensures
        spec_array_leaves(tys, elem, n, path, kids, d) == spec_array_leaves(tys, elem, k, path, kids, d),
    decreases n - k,
{
    if k < n {
        lemma_array_err(tys, elem, k, n - 1, path, kids, d);
    }
}

proof fn lemma_pun_err(tys: Seq<TyV>, name: Seq<char>, blocks: Seq<PunBlockTyV>, k: int, n: int, path: Seq<char>, kids: Seq<Picks>, d: nat)
    requires
        0 < k <= n <= blocks.len(),
        spec_pun_leaves(tys, name, blocks, k, path, kids, d) is Err,
    ensures
        spec_pun_leaves(tys, name, blocks, n, path, kids, d) == spec_pun_leaves(tys, name, blocks, k, path, kids, d),
    decreases n - k,
{
    if k < n {
        lemma_pun_err(tys, name, blocks, k, n - 1, path, kids, d);
    }
}

impl ValueGeneratorBuilder {
    /// Appends to `vals` a value for each leaf of a value of type `ty_idx`
    /// at `path`, in order; a union or tagged union gets a tag value first,
    /// whose generator picks the active variant. A pun's blocks are each
    /// walked from the same state, and must agree on their number of values.
    fn build_values(&mut self, types: &TypedProgram, ty_idx: usize, vals: &mut Vec<Value>, path: String, Ghost(d): Ghost<nat>)
        -> (r: (Result<(), GenerateError>, VariantPicks))
        requires
            tys_below(old(vals)@, types@.tcx.tys.len() as int),
            finite_within(types@.tcx.tys, ty_idx as int, d),
        ensures
            tys_below(final(vals)@, types@.tcx.tys.len() as int),
            built(spec_leaves(types@.tcx.tys, ty_idx as int, path@, r.1@, d), *old(self), *final(self), old(vals)@, final(vals)@, r.0),
        decreases d, 2int,
    {
        let ghost tys = types@.tcx.tys;
        let ghost b0 = *self;
        let ghost v0 = vals@;
        let ghost d1 = (d - 1) as nat;
        match types.realize_ty(ty_idx) {
            Ty::Primitive(_) => {
                let v = self.next(ty_idx, path);
                vals.push(v);
                proof {
                    assert(vals@.subrange(v0.len() as int, vals@.len() as int) =~= seq![v]);
                    assert(vals@.subrange(0, v0.len() as int) =~= v0);
                }
                (Ok(()), picks_leaf(0))
            },
            Ty::Enum(et) => {
                let v = self.next(ty_idx, path);
                let pick = v.val.generate_idx(et.variants.len());
                vals.push(v);
                proof {
                    assert(vals@.subrange(v0.len() as int, vals@.len() as int) =~= seq![v]);
                    assert(vals@.subrange(0, v0.len() as int) =~= v0);
                }
                (Ok(()), picks_leaf(pick))
            },
            Ty::Empty => {
                proof {
                    lemma_made_empty(b0);
                    assert(vals@.subrange(v0.len() as int, vals@.len() as int) =~= Seq::<Value>::empty());
                    assert(vals@.subrange(0, v0.len() as int) =~= v0);
                }
                (Ok(()), picks_leaf(0))
            },
            Ty::Alias(at) => self.build_values(types, at.real, vals, path, Ghost(d1)),
            Ty::Ref(rt) => {
                let mut np = path;
                push_str(&mut np, ".*");
                self.build_values(types, rt.pointee_ty, vals, np, Ghost(d1))
            },
            Ty::Struct(st) => {
                assert(fields_view(st.fields@) == tys[ty_idx as int]->Struct_fields);
                assert forall|i: int| 0 <= i < st.fields@.len() implies finite_within(tys, (#[trigger] st.fields@[i]).ty as int, d1) by {
                    assert(fields_view(st.fields@)[i] == st.fields@[i]@);
                }
                let (res, kids) = self.build_fields(types, &st.fields, vals, &path, Ghost(d1));
                (res, picks_node(0, kids))
            },
            Ty::Array(at) => {
                let (res, kids) = self.build_array(types, at.elem_ty, at.len, vals, &path, Ghost(d1));
                (res, picks_node(0, kids))
            },
            Ty::Union(ut) => {
                let tag = self.next(ty_idx, path.clone());
                let active = tag.val.generate_idx(ut.fields.len());
                self.build_union(types, ty_idx, ut, tag, active, vals, path, Ghost(b0), Ghost(d))
            },
            Ty::Tagged(tt) => {
                let tag = self.next(ty_idx, path.clone());
                let active = tag.val.generate_idx(tt.variants.len());
                self.build_tagged(types, ty_idx, tt, tag, active, vals, path, Ghost(b0), Ghost(d))
            },
            Ty::Pun(pt) => {
                let ghost bv = pt.blocks@.map_values(|b: PunBlockTy| b@);
                assert forall|b: int| 0 <= b < pt.blocks@.len() implies finite_within(tys, (#[trigger] pt.blocks@[b]).real as int, d1) by {
                    assert(bv[b] == pt.blocks@[b]@);
                }
                let (res, kids) = self.build_pun(types, pt, vals, path, Ghost(d1));
                (res, picks_node(0, kids))
            },
        }
    }

    /// The values of each field in turn, at `prefix.name`.
    fn build_fields(&mut self, types: &TypedProgram, fs: &Vec<FieldTy>, vals: &mut Vec<Value>, prefix: &String, Ghost(d): Ghost<nat>)
        -> (r: (Result<(), GenerateError>, Vec<VariantPicks>))
        requires
            tys_below(old(vals)@, types@.tcx.tys.len() as int),
            forall|i: int| 0 <= i < fs@.len() ==> finite_within(types@.tcx.tys, (#[trigger] fs@[i]).ty as int, d),
        ensures
            tys_below(final(vals)@, types@.tcx.tys.len() as int),
            built(spec_fields_leaves(types@.tcx.tys, fields_view(fs@), fs@.len() as int, prefix@, picks_views(r.1@), d),
                *old(self), *final(self), old(vals)@, final(vals)@, r.0),
        decreases d, 3int,
    {
        let ghost tys = types@.tcx.tys;
        let ghost fv = fields_view(fs@);
        let ghost b0 = *self;
        let ghost v0 = vals@;
        let ghost mut kids: Seq<Picks> = Seq::empty();
        let mut kv: Vec<VariantPicks> = Vec::new();
        proof {
            assert(picks_views(kv@) =~= kids);
            lemma_made_empty(b0);
            assert(vals@.subrange(v0.len() as int, vals@.len() as int) =~= Seq::<Value>::empty());
            assert(vals@.subrange(0, v0.len() as int) =~= v0);
        }
        let mut i: usize = 0;
        while i < fs.len()
            invariant
                i <= fs@.len(),
                fv == fields_view(fs@),
                tys == types@.tcx.tys,
                kids.len() == i,
                picks_views(kv@) == kids,
                b0 == *old(self),
                v0 == old(vals)@,
                tys_below(vals@, tys.len() as int),
                forall|j: int| 0 <= j < fs@.len() ==> finite_within(tys, (#[trigger] fs@[j]).ty as int, d),
                built(spec_fields_leaves(tys, fv, i as int, prefix@, kids, d), b0, *self, v0, vals@, Ok(())),
            decreases fs@.len() - i,
        {
            let mut np = prefix.clone();
            push_str(&mut np, ".");
            push_str(&mut np, fs[i].ident.val.value.as_str());
            assert(fv[i as int] == fs@[i as int]@);
            let ghost b1 = *self;
            let ghost v1 = vals@;
            let ghost prev = spec_fields_leaves(tys, fv, i as int, prefix@, kids, d);
            let (res, vp) = self.build_values(types, fs[i].ty, vals, np, Ghost(d));
            let ghost pk = vp@;
            proof { lemma_picks_push(kv@, vp); }
            kv.push(vp);
            proof {
                lemma_fields_frame(tys, fv, i as int, prefix@, kids, pk, d);
                kids = kids.push(pk);
                assert(kids[i as int] == pk);
                lemma_built_step(prev->Ok_0, spec_leaves(tys, fv[i as int].ty as int, prefix@ + "."@ + fv[i as int].ident.text(), pk, d),
                    b0, b1, *self, v0, v1, vals@, res);
            }
            if res.is_err() {
                proof {
                    lemma_made_kind(b0, b1, v1.subrange(v0.len() as int, v1.len() as int));
                    assert(same_kind(b1, *self));
                    assert(spec_fields_leaves(tys, fv, i + 1, prefix@, kids, d) is Err);
                    lemma_fields_err(tys, fv, i + 1, fs@.len() as int, prefix@, kids, d);
                }
                return (res, kv);
            }
            i = i + 1;
        }
        (Ok(()), kv)
    }

    /// The values of each element in turn, at `path[i]`.
    fn build_array(&mut self, types: &TypedProgram, elem: usize, len: u64, vals: &mut Vec<Value>, path: &String, Ghost(d): Ghost<nat>)
        -> (r: (Result<(), GenerateError>, Vec<VariantPicks>))
        requires
            tys_below(old(vals)@, types@.tcx.tys.len() as int),
            finite_within(types@.tcx.tys, elem as int, d),
        ensures
            tys_below(final(vals)@, types@.tcx.tys.len() as int),
            built(spec_array_leaves(types@.tcx.tys, elem as int, len as int, path@, picks_views(r.1@), d),
                *old(self), *final(self), old(vals)@, final(vals)@, r.0),
        decreases d, 3int,
    {
        let ghost tys = types@.tcx.tys;
        let ghost b0 = *self;
        let ghost v0 = vals@;
        let ghost mut kids: Seq<Picks> = Seq::empty();
        let mut kv: Vec<VariantPicks> = Vec::new();
        proof {
            assert(picks_views(kv@) =~= kids);
            lemma_made_empty(b0);
            assert(vals@.subrange(v0.len() as int, vals@.len() as int) =~= Seq::<Value>::empty());
            assert(vals@.subrange(0, v0.len() as int) =~= v0);
        }
        let mut i: u64 = 0;
        while i < len
            invariant
                i <= len,
                tys == types@.tcx.tys,
                kids.len() == i,
                picks_views(kv@) == kids,
                b0 == *old(self),
                v0 == old(vals)@,
                tys_below(vals@, tys.len() as int),
                finite_within(tys, elem as int, d),
                built(spec_array_leaves(tys, elem as int, i as int, path@, kids, d), b0, *self, v0, vals@, Ok(())),
            decreases len - i,
        {
            let mut np = path.clone();
            push_str(&mut np, "[");
            push_decimal(&mut np, i);
            push_str(&mut np, "]");
            let ghost b1 = *self;
            let ghost v1 = vals@;
            let ghost prev = spec_array_leaves(tys, elem as int, i as int, path@, kids, d);
            let (res, vp) = self.build_values(types, elem, vals, np, Ghost(d));
            let ghost pk = vp@;
            proof { lemma_picks_push(kv@, vp); }
            kv.push(vp);
            proof {
                lemma_array_frame(tys, elem as int, i as int, path@, kids, pk, d);
                kids = kids.push(pk);
                assert(kids[i as int] == pk);
                lemma_built_step(prev->Ok_0, spec_leaves(tys, elem as int, path@ + "["@ + decimal(i as nat) + "]"@, pk, d),
                    b0, b1, *self, v0, v1, vals@, res);
            }
            if res.is_err() {
                proof {
                    lemma_made_kind(b0, b1, v1.subrange(v0.len() as int, v1.len() as int));
                    assert(same_kind(b1, *self));
                    assert(spec_array_leaves(tys, elem as int, i + 1, path@, kids, d) is Err);
                    lemma_array_err(tys, elem as int, i + 1, len as int, path@, kids, d);
                }
                return (res, kv);
            }
            i = i + 1;
        }
        (Ok(()), kv)
    }
}

impl ValueGeneratorBuilder {
    /// A union: its tag value `tag`, made from the state `b0`, then the
    /// values of field `active`, the one the tag's generator drew.
    fn build_union(&mut self, types: &TypedProgram, ty_idx: usize, ut: &UnionTy, tag: Value, active: usize, vals: &mut Vec<Value>,
        path: String, Ghost(b0): Ghost<ValueGeneratorBuilder>, Ghost(d): Ghost<nat>)
        -> (r: (Result<(), GenerateError>, VariantPicks))
        requires
            tys_below(old(vals)@, types@.tcx.tys.len() as int),
            finite_within(types@.tcx.tys, ty_idx as int, d),
            types@.tcx.tys[ty_idx as int] is Union,
            types@.tcx.tys[ty_idx as int]->Union_fields == fields_view(ut.fields@),
            made(b0, *old(self), seq![tag]),
            tag.ty == ty_idx,
            tag.path@ == path@,
            ut.fields@.len() > 0 ==> active < ut.fields@.len(),
        ensures
            tys_below(final(vals)@, types@.tcx.tys.len() as int),
            built(spec_leaves(types@.tcx.tys, ty_idx as int, path@, r.1@, d), b0, *final(self), old(vals)@, final(vals)@, r.0),
            r.1@.pick == if ut.fields@.len() > 0 { active } else { 0 },
        decreases d, 1int,
    {
        let ghost tys = types@.tcx.tys;
        let ghost fv = fields_view(ut.fields@);
        let ghost v0 = vals@;
        let ghost tag_leaf = seq![LeafV { ty: ty_idx, path: path@ }];
        vals.push(tag);
        let ghost b1 = *self;
        let ghost v1 = vals@;
        proof {
            assert(vals@.subrange(v0.len() as int, vals@.len() as int) =~= seq![tag]);
            assert(vals@.subrange(0, v0.len() as int) =~= v0);
            assert(built(Ok(tag_leaf), b0, b1, v0, v1, Ok(())));
        }
        if active < ut.fields.len() {
            assert(fv[active as int] == ut.fields@[active as int]@);
            let mut np = path;
            push_str(&mut np, ".");
            push_str(&mut np, ut.fields[active].ident.val.value.as_str());
            let (res, vp) = self.build_values(types, ut.fields[active].ty, vals, np, Ghost((d - 1) as nat));
            let ghost pk = vp@;
            let ghost picks = Picks { pick: active, kids: seq![pk] };
            let mut kv: Vec<VariantPicks> = Vec::new();
            kv.push(vp);
            assert(picks_views(kv@) =~= seq![pk]);
            let node = picks_node(active, kv);
            proof {
                vstd::arithmetic::div_mod::lemma_small_mod(active as nat, fv.len() as nat);
                lemma_built_step(tag_leaf, spec_leaves(tys, fv[active as int].ty as int, path@ + "."@ + fv[active as int].ident.text(), pk, (d - 1) as nat),
                    b0, b1, *self, v0, v1, vals@, res);
            }
            (res, node)
        } else {
            (Ok(()), picks_leaf(0))
        }
    }

    /// A tagged union: its tag value `tag`, made from the state `b0`, then
    /// the values of the fields of variant `active`, the one the tag's
    /// generator drew, at `path.variant.field`.
    fn build_tagged(&mut self, types: &TypedProgram, ty_idx: usize, tt: &TaggedTy, tag: Value, active: usize, vals: &mut Vec<Value>,
        path: String, Ghost(b0): Ghost<ValueGeneratorBuilder>, Ghost(d): Ghost<nat>)
        -> (r: (Result<(), GenerateError>, VariantPicks))
        requires
            tys_below(old(vals)@, types@.tcx.tys.len() as int),
            finite_within(types@.tcx.tys, ty_idx as int, d),
            types@.tcx.tys[ty_idx as int] is Tagged,
            types@.tcx.tys[ty_idx as int]->Tagged_variants == tt.variants@.map_values(|v: TaggedVariantTy| v@),
            made(b0, *old(self), seq![tag]),
            tag.ty == ty_idx,
            tag.path@ == path@,
            tt.variants@.len() > 0 ==> active < tt.variants@.len(),
        ensures
            tys_below(final(vals)@, types@.tcx.tys.len() as int),
            built(spec_leaves(types@.tcx.tys, ty_idx as int, path@, r.1@, d), b0, *final(self), old(vals)@, final(vals)@, r.0),
            r.1@.pick == if tt.variants@.len() > 0 { active } else { 0 },
        decreases d, 1int,
    {
        let ghost tys = types@.tcx.tys;
        let ghost vv = tt.variants@.map_values(|v: TaggedVariantTy| v@);
        let ghost v0 = vals@;
        let ghost tag_leaf = seq![LeafV { ty: ty_idx, path: path@ }];
        let ghost p0 = path@;
        vals.push(tag);
        let ghost b1 = *self;
        let ghost v1 = vals@;
        proof {
            assert(vals@.subrange(v0.len() as int, vals@.len() as int) =~= seq![tag]);
            assert(vals@.subrange(0, v0.len() as int) =~= v0);
            assert(built(Ok(tag_leaf), b0, b1, v0, v1, Ok(())));
        }
        if active < tt.variants.len() {
            let variant = &tt.variants[active];
            assert(vv[active as int] == variant@);
            let mut prefix = path;
            push_str(&mut prefix, ".");
            push_str(&mut prefix, variant.name.val.value.as_str());
            match &variant.fields {
                Some(fs) => {
                    assert(variant_fields(vv[active as int]) == fields_view(fs@));
                    assert forall|i: int| 0 <= i < fs@.len() implies finite_within(tys, (#[trigger] fs@[i]).ty as int, (d - 1) as nat) by {
                        assert(variant_fields(vv[active as int])[i] == fs@[i]@);
                    }
                    let (res, kv) = self.build_fields(types, fs, vals, &prefix, Ghost((d - 1) as nat));
                    let ghost kids = picks_views(kv@);
                    let ghost picks = Picks { pick: active, kids };
                    let node = picks_node(active, kv);
                    proof {
                        vstd::arithmetic::div_mod::lemma_small_mod(active as nat, vv.len() as nat);
                        lemma_built_step(tag_leaf, spec_fields_leaves(tys, fields_view(fs@), fs@.len() as int, prefix@, kids, (d - 1) as nat),
                            b0, b1, *self, v0, v1, vals@, res);
                        assert(built(spec_leaves(tys, ty_idx as int, p0, picks, d), b0, *self, v0, vals@, res));
                    }
                    (res, node)
                },
                None => {
                    let ghost picks = Picks { pick: active, kids: Seq::empty() };
                    proof {
                        vstd::arithmetic::div_mod::lemma_small_mod(active as nat, vv.len() as nat);
                        assert(variant_fields(vv[active as int]) =~= Seq::<FieldTyV>::empty());
                        assert(tag_leaf + Seq::<LeafV>::empty() =~= tag_leaf);
                        assert(spec_fields_leaves(tys, Seq::<FieldTyV>::empty(), 0, p0 + "."@ + vv[active as int].name.text(), Seq::empty(), (d - 1) as nat)
                            == Ok::<Seq<LeafV>, PunMismatchV>(Seq::empty()));
                        assert(spec_leaves(tys, ty_idx as int, p0, picks, d) == Ok::<Seq<LeafV>, PunMismatchV>(tag_leaf));
                    }
                    (Ok(()), picks_leaf(active))
                },
            }
        } else {
            assert(spec_leaves(tys, ty_idx as int, p0, Picks { pick: 0, kids: Seq::empty() }, d) == Ok::<Seq<LeafV>, PunMismatchV>(tag_leaf));
            (Ok(()), picks_leaf(0))
        }
    }

    /// A pun: each block walked from the same state; the values of the
    /// last, once all blocks agree on their number.
    fn build_pun(&mut self, types: &TypedProgram, pt: &PunTy, vals: &mut Vec<Value>, path: String, Ghost(d): Ghost<nat>)
        -> (r: (Result<(), GenerateError>, Vec<VariantPicks>))
        requires
            tys_below(old(vals)@, types@.tcx.tys.len() as int),
            forall|b: int| 0 <= b < pt.blocks@.len() ==> finite_within(types@.tcx.tys, (#[trigger] pt.blocks@[b]).real as int, d),
        ensures
            tys_below(final(vals)@, types@.tcx.tys.len() as int),
            built(match spec_pun_leaves(types@.tcx.tys, pt.name@.text(), pt.blocks@.map_values(|b: PunBlockTy| b@),
                    pt.blocks@.len() as int, path@, picks_views(r.1@), d) {
                    Ok(Some(l)) => Ok(l),
                    Ok(None) => Ok(Seq::empty()),
                    Err(e) => Err(e),
                }, *old(self), *final(self), old(vals)@, final(vals)@, r.0),
        decreases d, 3int,
    {
        let ghost tys = types@.tcx.tys;
        let ghost bv = pt.blocks@.map_values(|b: PunBlockTy| b@);
        let ghost name = pt.name@.text();
        let ghost b0 = *self;
        let ghost v0 = vals@;
        let saved = self.fork();
        let mut out: Option<Vec<Value>> = None;
        let mut prev_real: usize = 0;
        let ghost mut kids: Seq<Picks> = Seq::empty();
        let mut kv: Vec<VariantPicks> = Vec::new();
        assert(picks_views(kv@) =~= kids);
        let mut b: usize = 0;
        while b < pt.blocks.len()
            invariant
                b <= pt.blocks@.len(),
                tys == types@.tcx.tys,
                bv == pt.blocks@.map_values(|b: PunBlockTy| b@),
                name == pt.name@.text(),
                kids.len() == b,
                picks_views(kv@) == kids,
                vals@ == v0,
                b0 == *old(self),
                v0 == old(vals)@,
                tys_below(v0, tys.len() as int),
                out matches Some(o) ==> tys_below(o@, tys.len() as int),
                same_kind(b0, saved),
                (b0 is Graffiti) ==> saved == b0,
                same_kind(b0, *self),
                b == 0 ==> *self == b0,
                forall|k: int| 0 <= k < pt.blocks@.len() ==> finite_within(tys, (#[trigger] pt.blocks@[k]).real as int, d),
                b > 0 ==> prev_real == bv[b - 1].real,
                match spec_pun_leaves(tys, name, bv, b as int, path@, kids, d) {
                    Ok(None) => out is None,
                    Ok(Some(l)) => out matches Some(o) && values_match(o@, l) && made(saved, *self, o@),
                    Err(_) => false,
                },
            decreases pt.blocks@.len() - b,
        {
            *self = saved.fork();
            let ghost s1 = *self;
            let mut new_vals: Vec<Value> = Vec::new();
            assert(bv[b as int] == pt.blocks@[b as int]@);
            let ghost prev = spec_pun_leaves(tys, name, bv, b as int, path@, kids, d);
            let (res, vp) = self.build_values(types, pt.blocks[b].real, &mut new_vals, path.clone(), Ghost(d));
            let ghost pk = vp@;
            proof { lemma_picks_push(kv@, vp); }
            kv.push(vp);
            proof {
                lemma_pun_frame(tys, name, bv, b as int, path@, kids, pk, d);
                kids = kids.push(pk);
                assert(kids[b as int] == pk);
                assert(new_vals@.subrange(0, 0) =~= Seq::<Value>::empty());
                assert(new_vals@.subrange(0, new_vals@.len() as int) =~= new_vals@);
            }
            if res.is_err() {
                proof {
                    assert(same_kind(s1, *self));
                    assert(same_kind(saved, s1));
                    assert(same_kind(b0, *self));
                    assert(spec_pun_leaves(tys, name, bv, b + 1, path@, kids, d) is Err);
                    lemma_pun_err(tys, name, bv, b + 1, bv.len() as int, path@, kids, d);
                }
                return (res, kv);
            }
            if let Some(o) = &out {
                if o.len() != new_vals.len() {
                    proof {
                        lemma_made_kind(s1, *self, new_vals@);
                        assert(spec_pun_leaves(tys, name, bv, b + 1, path@, kids, d) is Err);
                        lemma_pun_err(tys, name, bv, b + 1, bv.len() as int, path@, kids, d);
                    }
                    let pun = pt.name.val.value.clone();
                    let block1 = types.format_ty(prev_real);
                    let block2 = types.format_ty(pt.blocks[b].real);
                    let err = GenerateError::MismatchedPunVals {
                        pun,
                        block1,
                        block1_val_count: o.len(),
                        block2,
                        block2_val_count: new_vals.len(),
                    };
                    return (Err(err), kv);
                }
            }
            proof {
                if !(b0 is Graffiti) {
                    assert(made(saved, *self, new_vals@));
                }
            }
            out = Some(new_vals);
            prev_real = pt.blocks[b].real;
            b = b + 1;
        }
        match out {
            Some(mut o) => {
                let ghost ov = o@;
                vals.append(&mut o);
                proof {
                    assert(vals@.subrange(v0.len() as int, vals@.len() as int) =~= ov);
                    assert(vals@.subrange(0, v0.len() as int) =~= v0);
                }
            },
            None => {
                proof {
                    lemma_made_empty(b0);
                    assert(vals@.subrange(v0.len() as int, vals@.len() as int) =~= Seq::<Value>::empty());
                    assert(vals@.subrange(0, v0.len() as int) =~= v0);
                }
            },
        }
        (Ok(()), kv)
    }
}

/// The arguments of a function: its inputs, then its outputs.
pub open spec fn arg_list(f: FuncV) -> Seq<ArgV> {
    f.inputs + f.outputs
}

/// Every argument of the program's own functions has finitely many leaves.
pub open spec fn args_finite(p: TypedProgramV) -> bool {
    forall|f: int, a: int| 0 <= f < p.builtin_funcs_start && 0 <= a < arg_list(p.funcs[f]).len()
        ==> value_finite(p.tcx.tys, (#[trigger] arg_list(p.funcs[f])[a]).ty as int)
}

/// A bound on the walk of type `t`, where it has one.
pub open spec fn depth_of(tys: Seq<TyV>, t: int) -> nat {
    choose|d: nat| finite_within(tys, t, d)
}

/// The argument's values are those of the leaves of its type, at its
/// name, with the active variants it records.
pub open spec fn arg_ok(tys: Seq<TyV>, av: ArgValues) -> bool {
    spec_leaves(tys, av.ty as int, av.arg_name@, av.picks@, depth_of(tys, av.ty as int)) matches Ok(lv)
        && values_match(av.vals@, lv)
}

/// For some draws of active variants, walking type `t` at `path` meets a
/// pun whose blocks disagree, and `e` reports it.
pub open spec fn refused(tys: Seq<TyV>, t: int, path: Seq<char>, e: GenerateError) -> bool {
    exists|pk: Picks| #[trigger] spec_leaves(tys, t, path, pk, depth_of(tys, t)) matches Err(m) && is_mismatch(e, m)
}

/// The values of the first `k` arguments, in order.
pub open spec fn arg_values(args: Seq<ArgValues>, k: int) -> Seq<Value>
    decreases k,
{
    if k <= 0 || k > args.len() {
        Seq::empty()
    } else {
        arg_values(args, k - 1) + args[k - 1].vals@
    }
}

/// The values of the first `k` functions, in order.
pub open spec fn tree_values(funcs: Seq<FuncValues>, k: int) -> Seq<Value>
    decreases k,
{
    if k <= 0 || k > funcs.len() {
        Seq::empty()
    } else {
        tree_values(funcs, k - 1) + arg_values(funcs[k - 1].args@, funcs[k - 1].args@.len() as int)
    }
}

/// Every argument and value of the functions is for a type below `n`.
pub open spec fn tree_tys_below(funcs: Seq<FuncValues>, n: int) -> bool {
    forall|f: int, a: int| 0 <= f < funcs.len() && 0 <= a < funcs[f].args@.len()
        ==> (#[trigger] funcs[f].args@[a]).ty < n && tys_below(funcs[f].args@[a].vals@, n)
}

/// The function's values are for its arguments in order, each with its
/// name, type and direction.
pub open spec fn func_ok(tys: Seq<TyV>, f: FuncV, fv: FuncValues) -> bool {
    &&& fv.func_name@ == f.name.text()
    &&& fv.args@.len() == arg_list(f).len()
    &&& forall|a: int| 0 <= a < fv.args@.len() ==> {
        &&& (#[trigger] fv.args@[a]).arg_name@ == arg_list(f)[a].name.text()
        &&& fv.args@[a].ty == arg_list(f)[a].ty
        &&& fv.args@[a].is_input == (a < f.inputs.len())
        &&& arg_ok(tys, fv.args@[a])
    }
}

impl ValueGeneratorBuilder {
    /// The values of one argument.
    fn build_arg(&mut self, types: &TypedProgram, arg: &Arg, is_input: bool) -> (r: Result<ArgValues, GenerateError>)
        requires
            value_finite(types@.tcx.tys, arg.ty as int),
        ensures
            match r {
                Ok(av) => av.arg_name@ == arg@.name.text() && av.ty == arg.ty && av.is_input == is_input
                    && arg_ok(types@.tcx.tys, av) && made(*old(self), *final(self), av.vals@)
                    && tys_below(av.vals@, types@.tcx.tys.len() as int),
                Err(e) => refused(types@.tcx.tys, arg.ty as int, arg@.name.text(), e) && same_kind(*old(self), *final(self)),
            },
    {
        let ghost tys = types@.tcx.tys;
        let ghost d = depth_of(tys, arg.ty as int);
        let arg_name = arg.name.val.value.clone();
        let mut vals: Vec<Value> = Vec::new();
        let ghost b0 = *self;
        let (res, picks) = self.build_values(types, arg.ty, &mut vals, arg_name.clone(), Ghost(d));
        let ghost pk = picks@;
        proof {
            assert(vals@.subrange(0, vals@.len() as int) =~= vals@);
        }
        match res {
            Ok(()) => {
                let av = ArgValues { arg_name, ty: arg.ty, is_input, vals, picks };
                proof {
                    assert(spec_leaves(tys, av.ty as int, av.arg_name@, pk, depth_of(tys, av.ty as int)) matches Ok(lv)
                        && values_match(av.vals@, lv));
                }
                Ok(av)
            },
            Err(e) => {
                proof {
                    assert(spec_leaves(tys, arg.ty as int, arg@.name.text(), pk, d) matches Err(m) && is_mismatch(e, m));
                }
                Err(e)
            },
        }
    }
}

impl ValueTree {
    /// The values of every argument of every function of the program
    /// (not the builtins), made by generators of the given kind in order.
    /// Graffiti values are numbered in the order they appear; a tagged or
    /// untagged union's active variant is drawn from its tag value. It
    /// fails where a pun's blocks disagree on their number of values.
    pub fn new(types: &TypedProgram, generator_kind: ValueGeneratorKind) -> (r: Result<ValueTree, GenerateError>)
        requires
            types@.builtin_funcs_start <= types@.funcs.len(),
            args_finite(types@),
        ensures
            match r {
                Ok(t) => {
                    &&& t.generator_kind == generator_kind
                    &&& t.funcs@.len() == types@.builtin_funcs_start
                    &&& tree_tys_below(t.funcs@, types@.tcx.tys.len() as int)
                    &&& forall|f: int| 0 <= f < t.funcs@.len() ==> func_ok(types@.tcx.tys, types@.funcs[f], #[trigger] t.funcs@[f])
                    &&& (generator_kind matches ValueGeneratorKind::Graffiti) ==> numbered(tree_values(t.funcs@, t.funcs@.len() as int), 0)
                    &&& (generator_kind is Random) ==> all_random(tree_values(t.funcs@, t.funcs@.len() as int))
                },
                Err(e) => exists|f: int, a: int| 0 <= f < types@.builtin_funcs_start && 0 <= a < arg_list(types@.funcs[f]).len()
                    && refused(types@.tcx.tys, (#[trigger] arg_list(types@.funcs[f])[a]).ty as int, arg_list(types@.funcs[f])[a].name.text(), e),
            },
    {
        let ghost tys = types@.tcx.tys;
        let mut gens = ValueGeneratorBuilder::new(generator_kind);
        let ghost g0 = gens;
        let end = types.all_funcs().end;
        let mut funcs: Vec<FuncValues> = Vec::new();
        proof { lemma_made_empty(g0); }
        let mut f: usize = 0;
        while f < end
            invariant
                f <= end,
                end == types@.builtin_funcs_start,
                end <= types@.funcs.len(),
                tys == types@.tcx.tys,
                args_finite(types@),
                (generator_kind matches ValueGeneratorKind::Graffiti) ==> g0 == (ValueGeneratorBuilder::Graffiti { idx: 0 }),
                (generator_kind is Random) ==> (g0 is Random),
                funcs@.len() == f,
                forall|k: int| 0 <= k < f ==> func_ok(tys, types@.funcs[k], #[trigger] funcs@[k]),
                tree_tys_below(funcs@, tys.len() as int),
                made(g0, gens, tree_values(funcs@, f as int)),
            decreases end - f,
        {
            let func = types.realize_func(f);
            let ghost fview = func@;
            let ghost g1 = gens;
            let mut args: Vec<ArgValues> = Vec::new();
            proof { lemma_made_empty(g1); }
            let mut a: usize = 0;
            while a < func.inputs.len()
                invariant
                    a <= func.inputs@.len(),
                    fview == func@,
                    fview == types@.funcs[f as int],
                    f < end,
                    end == types@.builtin_funcs_start,
                    tys == types@.tcx.tys,
                    args_finite(types@),
                    args@.len() == a,
                    func_below(fview, tys.len() as int),
                    forall|k: int| 0 <= k < args@.len() ==> (#[trigger] args@[k]).ty < tys.len() && tys_below(args@[k].vals@, tys.len() as int),
                    forall|k: int| 0 <= k < a ==> {
                        &&& (#[trigger] args@[k]).arg_name@ == arg_list(fview)[k].name.text()
                        &&& args@[k].ty == arg_list(fview)[k].ty
                        &&& args@[k].is_input
                        &&& arg_ok(tys, args@[k])
                    },
                    made(g1, gens, arg_values(args@, a as int)),
                decreases func.inputs@.len() - a,
            {
                assert(arg_list(fview)[a as int] == func.inputs@[a as int]@);
                let ghost g2 = gens;
                let ghost before = arg_values(args@, a as int);
                let av = match gens.build_arg(types, &func.inputs[a], true) {
                    Ok(av) => av,
                    Err(e) => {
                        proof {
                            assert(refused(tys, arg_list(fview)[a as int].ty as int, arg_list(fview)[a as int].name.text(), e));
                        }
                        return Err(e);
                    },
                };
                let ghost prev = args@;
                args.push(av);
                proof {
                    assert(args@[a as int] == av);
                    assert forall|k: int| 0 <= k < a implies #[trigger] args@[k] == prev[k] by {}
                    lemma_arg_values_push(prev, av);
                    lemma_made_concat(g1, g2, gens, before, av.vals@);
                }
                a = a + 1;
            }
            let mut a: usize = 0;
            while a < func.outputs.len()
                invariant
                    a <= func.outputs@.len(),
                    fview == func@,
                    fview == types@.funcs[f as int],
                    f < end,
                    end == types@.builtin_funcs_start,
                    tys == types@.tcx.tys,
                    args_finite(types@),
                    args@.len() == func.inputs@.len() + a,
                    func_below(fview, tys.len() as int),
                    forall|k: int| 0 <= k < args@.len() ==> (#[trigger] args@[k]).ty < tys.len() && tys_below(args@[k].vals@, tys.len() as int),
                    forall|k: int| 0 <= k < args@.len() ==> {
                        &&& (#[trigger] args@[k]).arg_name@ == arg_list(fview)[k].name.text()
                        &&& args@[k].ty == arg_list(fview)[k].ty
                        &&& args@[k].is_input == (k < fview.inputs.len())
                        &&& arg_ok(tys, args@[k])
                    },
                    made(g1, gens, arg_values(args@, args@.len() as int)),
                decreases func.outputs@.len() - a,
            {
                let ghost k0 = func.inputs@.len() + a;
                assert(arg_list(fview)[k0] == func.outputs@[a as int]@);
                let ghost g2 = gens;
                let ghost before = arg_values(args@, args@.len() as int);
                let av = match gens.build_arg(types, &func.outputs[a], false) {
                    Ok(av) => av,
                    Err(e) => {
                        proof {
                            assert(refused(tys, arg_list(fview)[k0].ty as int, arg_list(fview)[k0].name.text(), e));
                        }
                        return Err(e);
                    },
                };
                let ghost prev = args@;
                args.push(av);
                proof {
                    assert(args@[k0] == av);
                    assert forall|k: int| 0 <= k < prev.len() implies #[trigger] args@[k] == prev[k] by {}
                    lemma_arg_values_push(prev, av);
                    lemma_made_concat(g1, g2, gens, before, av.vals@);
                }
                a = a + 1;
            }
            let func_name = func.name.val.value.clone();
            let fvals = FuncValues { func_name, args };
            let ghost prevf = funcs@;
            funcs.push(fvals);
            proof {
                assert(funcs@[f as int] == fvals);
                assert forall|k: int| 0 <= k < f implies #[trigger] funcs@[k] == prevf[k] by {}
                lemma_tree_values_push(prevf, fvals);
                lemma_made_concat(g0, g1, gens, tree_values(prevf, f as int), arg_values(fvals.args@, fvals.args@.len() as int));
                assert(func_ok(tys, types@.funcs[f as int], fvals));
            }
            f = f + 1;
        }
        Ok(ValueTree { generator_kind, funcs })
    }
}

proof fn lemma_arg_values_push(args: Seq<ArgValues>, x: ArgValues)
    ensures
        arg_values(args.push(x), args.len() + 1int) == arg_values(args, args.len() as int) + x.vals@,
{
    lemma_arg_values_frame(args, x, args.len() as int);
    assert(args.push(x)[args.len() as int] == x);
}

proof fn lemma_arg_values_frame(args: Seq<ArgValues>, x: ArgValues, k: int)
    requires
        0 <= k <= args.len(),
    ensures
        arg_values(args.push(x), k) == arg_values(args, k),
    decreases k,
{
    if k > 0 {
        lemma_arg_values_frame(args, x, k - 1);
        assert(args.push(x)[k - 1] == args[k - 1]);
    }
}

proof fn lemma_tree_values_push(funcs: Seq<FuncValues>, x: FuncValues)
    ensures
        tree_values(funcs.push(x), funcs.len() + 1int) == tree_values(funcs, funcs.len() as int) + arg_values(x.args@, x.args@.len() as int),
{
    lemma_tree_values_frame(funcs, x, funcs.len() as int);
    assert(funcs.push(x)[funcs.len() as int] == x);
}

proof fn lemma_tree_values_frame(funcs: Seq<FuncValues>, x: FuncValues, k: int)
    requires
        0 <= k <= funcs.len(),
    ensures
        tree_values(funcs.push(x), k) == tree_values(funcs, k),
    decreases k,
{
    if k > 0 {
        lemma_tree_values_frame(funcs, x, k - 1);
        assert(funcs.push(x)[k - 1] == funcs[k - 1]);
    }
}
} // verus!
