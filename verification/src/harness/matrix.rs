//! What a test session runs and how it sums up: the runs of every selected
//! test under every combination of the configured conventions, toolchain
//! pairs, layouts, value generators, value writers and function selections;
//! the counts of their conclusions; and the narrowed runs that look again at
//! each failure.

use vstd::prelude::*;
use crate::harness::test::{CallingConvention, LangRepr, TestOptions, FunctionSelector, WriteImpl};
use crate::harness::vals::ValueGeneratorKind;
use crate::harness::report::{TestKey, TestRules, TestConclusion, TestSummary, failures_of, is_minimized, minimized_tests,
    failure_selector, TestRunMode};
use crate::error::CheckFailure;
use crate::text::{str_eq, owned};

verus! {

/// A run, as text and options: the test, the caller, the callee, the options.
pub type KeyV = (Seq<char>, Seq<char>, Seq<char>, TestOptions);

/// The abstract form of a run's key.
pub open spec fn key_view(k: TestKey) -> KeyV {
    (k.test@, k.caller@, k.callee@, k.options)
}

/// The abstract forms of a list of keys.
pub open spec fn keys_view(v: Seq<TestKey>) -> Seq<KeyV> {
    v.map_values(|k: TestKey| key_view(k))
}

/// The texts of a list of strings.
pub open spec fn texts(v: Seq<String>) -> Seq<Seq<char>> {
    v.map_values(|s: String| s@)
}

/// A test is run if no tests are named, or if it is one of those named.
pub open spec fn test_selected(run_tests: Seq<Seq<char>>, name: Seq<char>) -> bool {
    run_tests.len() == 0 || run_tests.contains(name)
}

/// A pair of toolchains is run if no toolchains are named, or if the caller
/// or the callee is one of those named.
pub open spec fn pair_selected(toolchains: Seq<Seq<char>>, caller: Seq<char>, callee: Seq<char>) -> bool {
    toolchains.len() == 0 || toolchains.contains(caller) || toolchains.contains(callee)
}

/// The runs of one test, convention, pair, layout, generator and writer:
/// one for each function selection, in order.
pub open spec fn sel_keys(name: Seq<char>, pair: (Seq<char>, Seq<char>), convention: CallingConvention, repr: LangRepr,
    gen: ValueGeneratorKind, writer: WriteImpl, sels: Seq<FunctionSelector>) -> Seq<KeyV>
{
    sels.map_values(|s: FunctionSelector| (name, pair.0, pair.1, TestOptions {
        convention,
        functions: s,
        val_writer: writer,
        val_generator: gen,
        repr,
    }))
}

/// The runs for the first `k` writers.
pub open spec fn writer_keys(name: Seq<char>, pair: (Seq<char>, Seq<char>), convention: CallingConvention, repr: LangRepr,
    gen: ValueGeneratorKind, writers: Seq<WriteImpl>, sels: Seq<FunctionSelector>, k: int) -> Seq<KeyV>
    decreases k,
{
    if k <= 0 || k > writers.len() {
        Seq::empty()
    } else {
        writer_keys(name, pair, convention, repr, gen, writers, sels, k - 1)
            + sel_keys(name, pair, convention, repr, gen, writers[k - 1], sels)
    }
}

/// The runs for the first `k` value generators.
pub open spec fn gen_keys(name: Seq<char>, pair: (Seq<char>, Seq<char>), convention: CallingConvention, repr: LangRepr,
    gens: Seq<ValueGeneratorKind>, writers: Seq<WriteImpl>, sels: Seq<FunctionSelector>, k: int) -> Seq<KeyV>
    decreases k,
{
    if k <= 0 || k > gens.len() {
        Seq::empty()
    } else {
        gen_keys(name, pair, convention, repr, gens, writers, sels, k - 1)
            + writer_keys(name, pair, convention, repr, gens[k - 1], writers, sels, writers.len() as int)
    }
}

/// The runs for the first `k` layouts.
pub open spec fn repr_keys(name: Seq<char>, pair: (Seq<char>, Seq<char>), convention: CallingConvention, reprs: Seq<LangRepr>,
    gens: Seq<ValueGeneratorKind>, writers: Seq<WriteImpl>, sels: Seq<FunctionSelector>, k: int) -> Seq<KeyV>
    decreases k,
{
    if k <= 0 || k > reprs.len() {
        Seq::empty()
    } else {
        repr_keys(name, pair, convention, reprs, gens, writers, sels, k - 1)
            + gen_keys(name, pair, convention, reprs[k - 1], gens, writers, sels, gens.len() as int)
    }
}

/// The choices of a session after the test and the convention: the pairs
/// of toolchains and which of them are run, the layouts, the generators,
/// the writers and the function selections.
pub struct MatrixV {
    pub pairs: Seq<(Seq<char>, Seq<char>)>,
    pub toolchains: Seq<Seq<char>>,
    pub reprs: Seq<LangRepr>,
    pub gens: Seq<ValueGeneratorKind>,
    pub writers: Seq<WriteImpl>,
    pub sels: Seq<FunctionSelector>,
}

/// The runs for the first `k` pairs of toolchains, leaving out the pairs
/// not selected.
pub open spec fn pair_keys(name: Seq<char>, convention: CallingConvention, m: MatrixV, k: int) -> Seq<KeyV>
    decreases k,
{
    if k <= 0 || k > m.pairs.len() {
        Seq::empty()
    } else {
        pair_keys(name, convention, m, k - 1) + if pair_selected(m.toolchains, m.pairs[k - 1].0, m.pairs[k - 1].1) {
            repr_keys(name, m.pairs[k - 1], convention, m.reprs, m.gens, m.writers, m.sels, m.reprs.len() as int)
        } else {
            Seq::empty()
        }
    }
}

/// The runs for the first `k` conventions. Every test has every
/// convention.
pub open spec fn conv_keys(name: Seq<char>, conventions: Seq<CallingConvention>, m: MatrixV, k: int) -> Seq<KeyV>
    decreases k,
{
    if k <= 0 || k > conventions.len() {
        Seq::empty()
    } else {
        conv_keys(name, conventions, m, k - 1) + pair_keys(name, conventions[k - 1], m, m.pairs.len() as int)
    }
}

/// The runs for the first `k` tests, leaving out the tests not selected.
pub open spec fn test_keys(tests: Seq<Seq<char>>, run_tests: Seq<Seq<char>>, conventions: Seq<CallingConvention>, m: MatrixV,
    k: int) -> Seq<KeyV>
    decreases k,
{
    if k <= 0 || k > tests.len() {
        Seq::empty()
    } else {
        test_keys(tests, run_tests, conventions, m, k - 1) + if test_selected(run_tests, tests[k - 1]) {
            conv_keys(tests[k - 1], conventions, m, conventions.len() as int)
        } else {
            Seq::empty()
        }
    }
}

/// The abstract form of a list of pairs.
pub open spec fn pairs_view(v: Seq<(String, String)>) -> Seq<(Seq<char>, Seq<char>)> {
    v.map_values(|p: (String, String)| (p.0@, p.1@))
}

/// Whether `s` is one of `v`.
fn contains_str(v: &Vec<String>, s: &str) -> (r: bool)
    ensures
        r == texts(v@).contains(s@),
{
    let mut i: usize = 0;
    while i < v.len()
        invariant
            i <= v@.len(),
            forall|j: int| 0 <= j < i ==> v@[j]@ != s@,
        decreases v@.len() - i,
    {
        if str_eq(v[i].as_str(), s) {
            assert(texts(v@)[i as int] == s@);
            return true;
        }
        i = i + 1;
    }
    assert forall|j: int| 0 <= j < texts(v@).len() implies texts(v@)[j] != s@ by {
        assert(texts(v@)[j] == v@[j]@);
    }
    false
}

/// The choices after the test and the convention, as given.
pub struct Matrix {
    pub pairs: Vec<(String, String)>,
    pub toolchains: Vec<String>,
    pub reprs: Vec<LangRepr>,
    pub generators: Vec<ValueGeneratorKind>,
    pub writers: Vec<WriteImpl>,
    pub selections: Vec<FunctionSelector>,
}

impl View for Matrix {
    type V = MatrixV;

    open spec fn view(&self) -> MatrixV {
        MatrixV {
            pairs: pairs_view(self.pairs@),
            toolchains: texts(self.toolchains@),
            reprs: self.reprs@,
            gens: self.generators@,
            writers: self.writers@,
            sels: self.selections@,
        }
    }
}

/// Appends a run for each function selection.
fn push_sel_keys(out: &mut Vec<TestKey>, name: &str, caller: &str, callee: &str, convention: CallingConvention, repr: LangRepr,
    gen: ValueGeneratorKind, writer: WriteImpl, sels: &Vec<FunctionSelector>)
    ensures
        keys_view(final(out)@) == keys_view(old(out)@) + sel_keys(name@, (caller@, callee@), convention, repr, gen, writer, sels@),
{
    let ghost o0 = keys_view(out@);
    let mut i: usize = 0;
    while i < sels.len()
        invariant
            i <= sels@.len(),
            keys_view(out@) == o0 + sel_keys(name@, (caller@, callee@), convention, repr, gen, writer, sels@.subrange(0, i as int)),
        decreases sels@.len() - i,
    {
        let key = TestKey {
            test: owned(name),
            caller: owned(caller),
            callee: owned(callee),
            options: TestOptions { convention, functions: sels[i], val_writer: writer, val_generator: gen, repr },
        };
        let ghost kv = key_view(key);
        let ghost before = keys_view(out@);
        assert(kv == (name@, caller@, callee@, TestOptions { convention, functions: sels@[i as int], val_writer: writer,
            val_generator: gen, repr }));
        out.push(key);
        assert(keys_view(out@) =~= before.push(kv));
        assert(sel_keys(name@, (caller@, callee@), convention, repr, gen, writer, sels@.subrange(0, i + 1))
            =~= sel_keys(name@, (caller@, callee@), convention, repr, gen, writer, sels@.subrange(0, i as int)).push(kv));
        i = i + 1;
        assert(keys_view(out@) =~= o0 + sel_keys(name@, (caller@, callee@), convention, repr, gen, writer, sels@.subrange(0, i as int)));
    }
    assert(sels@.subrange(0, sels@.len() as int) =~= sels@);
}

/// Appends the runs of one test, convention, pair and layout.
fn push_repr_keys(out: &mut Vec<TestKey>, name: &str, caller: &str, callee: &str, convention: CallingConvention, repr: LangRepr,
    m: &Matrix)
    ensures
        keys_view(final(out)@) == keys_view(old(out)@)
            + gen_keys(name@, (caller@, callee@), convention, repr, m@.gens, m@.writers, m@.sels, m@.gens.len() as int),
{
    let ghost o0 = keys_view(out@);
    let mut g: usize = 0;
    while g < m.generators.len()
        invariant
            g <= m@.gens.len(),
            keys_view(out@) == o0 + gen_keys(name@, (caller@, callee@), convention, repr, m@.gens, m@.writers, m@.sels, g as int),
        decreases m@.gens.len() - g,
    {
        let ghost o1 = keys_view(out@);
        let mut w: usize = 0;
        while w < m.writers.len()
            invariant
                w <= m@.writers.len(),
                g < m@.gens.len(),
                keys_view(out@) == o1 + writer_keys(name@, (caller@, callee@), convention, repr, m@.gens[g as int], m@.writers,
                    m@.sels, w as int),
            decreases m@.writers.len() - w,
        {
            push_sel_keys(out, name, caller, callee, convention, repr, m.generators[g], m.writers[w], &m.selections);
            w = w + 1;
            assert(keys_view(out@) =~= o1 + writer_keys(name@, (caller@, callee@), convention, repr, m@.gens[g as int], m@.writers,
                m@.sels, w as int));
        }
        g = g + 1;
        assert(keys_view(out@) =~= o0 + gen_keys(name@, (caller@, callee@), convention, repr, m@.gens, m@.writers, m@.sels, g as int));
    }
}

/// Appends the runs of one test and convention.
fn push_pair_keys(out: &mut Vec<TestKey>, name: &str, convention: CallingConvention, m: &Matrix)
    ensures
        keys_view(final(out)@) == keys_view(old(out)@) + pair_keys(name@, convention, m@, m@.pairs.len() as int),
{
    let ghost o0 = keys_view(out@);
    let mut p: usize = 0;
    while p < m.pairs.len()
        invariant
            p <= m@.pairs.len(),
            keys_view(out@) == o0 + pair_keys(name@, convention, m@, p as int),
        decreases m@.pairs.len() - p,
    {
        let caller = m.pairs[p].0.as_str();
        let callee = m.pairs[p].1.as_str();
        assert(m@.pairs[p as int] == (caller@, callee@));
        let selected = m.toolchains.len() == 0 || contains_str(&m.toolchains, caller) || contains_str(&m.toolchains, callee);
        let ghost o1 = keys_view(out@);
        if selected {
            let mut r: usize = 0;
            while r < m.reprs.len()
                invariant
                    r <= m@.reprs.len(),
                    p < m@.pairs.len(),
                    m@.pairs[p as int] == (caller@, callee@),
                    keys_view(out@) == o1 + repr_keys(name@, (caller@, callee@), convention, m@.reprs, m@.gens, m@.writers, m@.sels,
                        r as int),
                decreases m@.reprs.len() - r,
            {
                push_repr_keys(out, name, caller, callee, convention, m.reprs[r], m);
                r = r + 1;
                assert(keys_view(out@) =~= o1 + repr_keys(name@, (caller@, callee@), convention, m@.reprs, m@.gens, m@.writers,
                    m@.sels, r as int));
            }
        }
        p = p + 1;
        assert(keys_view(out@) =~= o0 + pair_keys(name@, convention, m@, p as int));
    }
}

/// The runs of a session, in order: for each test that is selected (all of
/// them if `run_tests` is empty), each convention, each pair of toolchains
/// that is selected (all of them if `m.toolchains` is empty, else those
/// whose caller or callee is named), each layout, each value generator,
/// each value writer and each function selection.
pub fn test_matrix(tests: &Vec<String>, run_tests: &Vec<String>, conventions: &Vec<CallingConvention>, m: &Matrix)
    -> (r: Vec<TestKey>)
    ensures
        keys_view(r@) == test_keys(texts(tests@), texts(run_tests@), conventions@, m@, tests@.len() as int),
{
    let mut out: Vec<TestKey> = Vec::new();
    let mut t: usize = 0;
    while t < tests.len()
        invariant
            t <= tests@.len(),
            keys_view(out@) == test_keys(texts(tests@), texts(run_tests@), conventions@, m@, t as int),
        decreases tests@.len() - t,
    {
        let name = tests[t].as_str();
        assert(texts(tests@)[t as int] == name@);
        let ghost o1 = keys_view(out@);
        if run_tests.len() == 0 || contains_str(run_tests, name) {
            let mut c: usize = 0;
            while c < conventions.len()
                invariant
                    c <= conventions@.len(),
                    keys_view(out@) == o1 + conv_keys(name@, conventions@, m@, c as int),
                decreases conventions@.len() - c,
            {
                push_pair_keys(&mut out, name, conventions[c], m);
                c = c + 1;
                assert(keys_view(out@) =~= o1 + conv_keys(name@, conventions@, m@, c as int));
            }
        }
        t = t + 1;
        assert(keys_view(out@) =~= test_keys(texts(tests@), texts(run_tests@), conventions@, m@, t as int));
    }
    out
}

/// The number of the first `k` conclusions that are `c`.
pub open spec fn count(cs: Seq<TestConclusion>, c: TestConclusion, k: int) -> nat
    decreases k,
{
    if k <= 0 || k > cs.len() {
        0
    } else {
        count(cs, c, k - 1) + if cs[k - 1] == c { 1nat } else { 0nat }
    }
}

/// Some of the first `k` conclusions are `c` exactly when their count is
/// not zero.
pub proof fn lemma_count_positive(cs: Seq<TestConclusion>, c: TestConclusion, k: int)
    requires
        0 <= k <= cs.len(),
    ensures
        count(cs, c, k) > 0 <==> exists|i: int| 0 <= i < k && cs[i] == c,
    decreases k,
{
    if k > 0 {
        lemma_count_positive(cs, c, k - 1);
        if cs[k - 1] == c {
            assert(cs[k - 1] == c);
        }
    }
}

/// A session failed exactly when one of its runs failed.
pub proof fn lemma_failed_iff_a_run_failed(cs: Seq<TestConclusion>, s: TestSummary)
    requires
        s.num_failed == count(cs, TestConclusion::Failed, cs.len() as int),
    ensures
        (s.num_failed > 0) <==> exists|i: int| 0 <= i < cs.len() && cs[i] == TestConclusion::Failed,
{
    lemma_count_positive(cs, TestConclusion::Failed, cs.len() as int);
}

/// Every run is counted once: the four counts add up to the number of runs.
pub proof fn lemma_counts_sum(cs: Seq<TestConclusion>, k: int)
    requires
        0 <= k <= cs.len(),
    ensures
        count(cs, TestConclusion::Passed, k) + count(cs, TestConclusion::Busted, k) + count(cs, TestConclusion::Failed, k)
            + count(cs, TestConclusion::Skipped, k) == k,
    decreases k,
{
    if k > 0 {
        lemma_counts_sum(cs, k - 1);
    }
}

/// The counts of a session's conclusions: how many runs there were, and
/// how many passed, were busted, failed and were skipped.
pub fn summarize(cs: &Vec<TestConclusion>) -> (r: TestSummary)
    ensures
        r.num_tests == cs@.len(),
        r.num_passed == count(cs@, TestConclusion::Passed, cs@.len() as int),
        r.num_busted == count(cs@, TestConclusion::Busted, cs@.len() as int),
        r.num_failed == count(cs@, TestConclusion::Failed, cs@.len() as int),
        r.num_skipped == count(cs@, TestConclusion::Skipped, cs@.len() as int),
{
    let mut s = TestSummary { num_tests: 0, num_passed: 0, num_busted: 0, num_failed: 0, num_skipped: 0 };
    let mut i: usize = 0;
    while i < cs.len()
        invariant
            i <= cs@.len(),
            s.num_tests == i,
            s.num_passed == count(cs@, TestConclusion::Passed, i as int),
            s.num_busted == count(cs@, TestConclusion::Busted, i as int),
            s.num_failed == count(cs@, TestConclusion::Failed, i as int),
            s.num_skipped == count(cs@, TestConclusion::Skipped, i as int),
        decreases cs@.len() - i,
    {
        proof { lemma_counts_sum(cs@, i as int); }
        s.num_tests = s.num_tests + 1;
        match cs[i] {
            TestConclusion::Passed => s.num_passed = s.num_passed + 1,
            TestConclusion::Busted => s.num_busted = s.num_busted + 1,
            TestConclusion::Failed => s.num_failed = s.num_failed + 1,
            TestConclusion::Skipped => s.num_skipped = s.num_skipped + 1,
        }
        i = i + 1;
    }
    s
}

/// Whether a session failed: whether any run failed.
pub fn summary_failed(s: &TestSummary) -> (r: bool)
    ensures
        r == (s.num_failed > 0),
{
    s.num_failed > 0
}

/// A run that finished, with its expectations and, if it got to its
/// check, the results of its functions' checks.
pub struct FinishedRun {
    pub key: TestKey,
    pub rules: TestRules,
    pub checks: Option<Vec<Result<(), CheckFailure>>>,
}

/// The narrowed run that looks again at failure `e` of the run `key`.
pub open spec fn minimized_view(key: TestKey, rules: TestRules, e: CheckFailure, writer: WriteImpl) -> (KeyV, TestRules) {
    ((key.test@, key.caller@, key.callee@, TestOptions { functions: failure_selector(e), val_writer: writer, ..key.options }),
        TestRules { run: TestRunMode::Generate, ..rules })
}

/// The narrowed runs of one finished run, one per failed check, in order.
pub open spec fn run_minimized(run: FinishedRun, writer: WriteImpl) -> Seq<(KeyV, TestRules)> {
    match run.checks {
        Some(checks) => failures_of(checks@, checks@.len() as int).map_values(|e: CheckFailure| minimized_view(run.key, run.rules, e, writer)),
        None => Seq::empty(),
    }
}

/// The narrowed runs of the first `k` finished runs, in order.
pub open spec fn all_minimized(runs: Seq<FinishedRun>, writer: WriteImpl, k: int) -> Seq<(KeyV, TestRules)>
    decreases k,
{
    if k <= 0 || k > runs.len() {
        Seq::empty()
    } else {
        all_minimized(runs, writer, k - 1) + run_minimized(runs[k - 1], writer)
    }
}

/// The abstract form of a list of runs with their expectations.
pub open spec fn runs_view(v: Seq<(TestKey, TestRules)>) -> Seq<(KeyV, TestRules)> {
    v.map_values(|p: (TestKey, TestRules)| (key_view(p.0), p.1))
}

/// The runs that look again at a session's failures: for each finished run
/// that got to its check, in order, and each of its failed function
/// checks, in order, the run of the same test and toolchains that only
/// generates the test, with only the failed value selected, reported with
/// `writer`.
pub fn minimized_failures(runs: &Vec<FinishedRun>, writer: WriteImpl) -> (r: Vec<(TestKey, TestRules)>)
    ensures
        runs_view(r@) == all_minimized(runs@, writer, runs@.len() as int),
{
    let mut out: Vec<(TestKey, TestRules)> = Vec::new();
    let mut i: usize = 0;
    while i < runs.len()
        invariant
            i <= runs@.len(),
            runs_view(out@) == all_minimized(runs@, writer, i as int),
        decreases runs@.len() - i,
    {
        let run = &runs[i];
        let ghost o1 = runs_view(out@);
        match &run.checks {
            Some(checks) => {
                let mut ms = minimized_tests(&run.key, run.rules, checks, writer);
                let ghost fs = failures_of(checks@, checks@.len() as int);
                assert(runs_view(ms@) =~= run_minimized(*run, writer)) by {
                    assert forall|j: int| 0 <= j < ms@.len() implies runs_view(ms@)[j] == run_minimized(*run, writer)[j] by {
                        assert(is_minimized(run.key, run.rules, fs[j], writer, ms@[j]));
                    }
                }
                let ghost mv = ms@;
                out.append(&mut ms);
                assert(runs_view(out@) =~= o1 + runs_view(mv));
            },
            None => {},
        }
        i = i + 1;
        assert(runs_view(out@) =~= all_minimized(runs@, writer, i as int));
    }
    out
}

} // verus!
