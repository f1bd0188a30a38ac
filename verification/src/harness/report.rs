//! Which test a result is for, which expectations apply to it, and how it
//! concluded.

use vstd::prelude::*;
use crate::harness::test::{CallingConvention, CallSide, LangRepr, TestOptions, FunctionSelector, ArgSelector, ValSelector,
    WriteImpl, convention_name, selects_val};
use crate::error::CheckFailure;
use crate::types::{TypedProgram, FuncV};
use crate::harness::vals::ValueGeneratorKind;
use crate::harness::run::TestBuffer;
use crate::text::{str_eq, push_str, push_decimal, decimal, owned};

verus! {

/// One run of a test: the test, the toolchains of both sides, the options.
#[derive(Debug)]
pub struct TestKey {
    pub test: String,
    pub caller: String,
    pub callee: String,
    pub options: TestOptions,
}

impl TestKey {
    /// The toolchain of one side.
    pub fn toolchain_id(&self, call_side: CallSide) -> (r: &str)
        ensures
            r@ == match call_side {
                CallSide::Caller => self.caller@,
                CallSide::Callee => self.callee@,
            },
    {
        match call_side {
            CallSide::Caller => self.caller.as_str(),
            CallSide::Callee => self.callee.as_str(),
        }
    }
}

/// A pattern on the options of test runs; `None` matches anything.
#[derive(Debug)]
pub struct TestOptionsPattern {
    pub convention: Option<CallingConvention>,
    pub val_generator: Option<ValueGeneratorKind>,
    pub repr: Option<LangRepr>,
}

/// A pattern on test runs; `None` matches anything, and `toolchain`
/// matches runs where either side uses it.
#[derive(Debug)]
pub struct TestKeyPattern {
    pub test: Option<String>,
    pub caller: Option<String>,
    pub callee: Option<String>,
    pub toolchain: Option<String>,
    pub options: TestOptionsPattern,
}

/// Whether the optional requirement `p` holds of `v`.
pub open spec fn opt_matches<A>(p: Option<A>, v: A) -> bool {
    p matches Some(x) ==> x == v
}

/// Whether the pattern matches the run.
pub open spec fn spec_key_matches(p: &TestKeyPattern, key: &TestKey) -> bool {
    &&& opt_matches(match p.test { Some(t) => Some(t@), None => None }, key.test@)
    &&& opt_matches(match p.caller { Some(t) => Some(t@), None => None }, key.caller@)
    &&& opt_matches(match p.callee { Some(t) => Some(t@), None => None }, key.callee@)
    &&& (p.toolchain matches Some(t) ==> t@ == key.caller@ || t@ == key.callee@)
    &&& opt_matches(p.options.convention, key.options.convention)
    &&& opt_matches(p.options.val_generator, key.options.val_generator)
    &&& opt_matches(p.options.repr, key.options.repr)
}

fn string_matches(p: &Option<String>, v: &String) -> (r: bool)
    ensures
        r == opt_matches(match *p { Some(t) => Some(t@), None => None }, v@),
{
    match p {
        Some(t) => *t == *v,
        None => true,
    }
}

impl TestKeyPattern {
    /// Whether the pattern matches the run.
    pub fn matches(&self, key: &TestKey) -> (r: bool)
        ensures
            r == spec_key_matches(self, key),
    {
        if !string_matches(&self.test, &key.test) {
            return false;
        }
        if !string_matches(&self.caller, &key.caller) {
            return false;
        }
        if !string_matches(&self.callee, &key.callee) {
            return false;
        }
        if let Some(toolchain) = &self.toolchain {
            if *toolchain != key.caller && *toolchain != key.callee {
                return false;
            }
        }
        if let Some(convention) = &self.options.convention {
            if *convention != key.options.convention {
                return false;
            }
        }
        if let Some(val_generator) = &self.options.val_generator {
            if *val_generator != key.options.val_generator {
                return false;
            }
        }
        if let Some(repr) = &self.options.repr {
            if *repr != key.options.repr {
                return false;
            }
        }
        true
    }
}

/// How far a test is run; each step implies the ones before it.
#[derive(Debug, Clone, Copy, PartialEq, Eq, Structural)]
pub enum TestRunMode {
    /// Not at all (the test is skipped).
    Skip,
    /// Just generate the source.
    Generate,
    /// Just build the source.
    Build,
    /// Just link the source.
    Link,
    /// Run the test without checking the results.
    Run,
    /// Run the test and check the results.
    Check,
}

/// The position of a step in the order of steps.
pub open spec fn run_mode_rank(m: TestRunMode) -> int {
    match m {
        TestRunMode::Skip => 0,
        TestRunMode::Generate => 1,
        TestRunMode::Build => 2,
        TestRunMode::Link => 3,
        TestRunMode::Run => 4,
        TestRunMode::Check => 5,
    }
}

impl TestRunMode {
    /// The position of this step in the order of steps.
    pub fn rank(&self) -> (r: u8)
        ensures
            r == run_mode_rank(*self),
    {
        match self {
            TestRunMode::Skip => 0,
            TestRunMode::Generate => 1,
            TestRunMode::Build => 2,
            TestRunMode::Link => 3,
            TestRunMode::Run => 4,
            TestRunMode::Check => 5,
        }
    }

    /// Whether this step comes before `other`.
    pub fn before(&self, other: &TestRunMode) -> (r: bool)
        ensures
            r == (run_mode_rank(*self) < run_mode_rank(*other)),
    {
        self.rank() < other.rank()
    }
}

/// What a test must do to pass.
#[derive(Debug, Clone, Copy, PartialEq, Eq, Structural)]
pub enum TestCheckMode {
    /// Complete this step; what happens after is gravy.
    Pass(TestRunMode),
    /// Fail at exactly this step.
    Fail(TestRunMode),
    /// Fail at exactly this step, a known bug to be fixed.
    Busted(TestRunMode),
    /// Whatever happens is fine.
    Random(bool),
}

/// The expectations of a run.
#[derive(Debug, Clone, Copy, PartialEq, Eq, Structural)]
pub struct TestRules {
    pub run: TestRunMode,
    pub check: TestCheckMode,
}

/// Expectations that override the default ones where given.
#[derive(Debug, Clone, Copy, PartialEq, Eq, Structural)]
pub struct TestRulesPattern {
    pub run: Option<TestRunMode>,
    pub check: Option<TestCheckMode>,
}

impl TestRules {
    /// The default expectations: run and check completely, and pass.
    pub fn default_rules() -> (r: TestRules)
        ensures
            r == (TestRules { run: TestRunMode::Check, check: TestCheckMode::Pass(TestRunMode::Check) }),
    {
        TestRules { run: TestRunMode::Check, check: TestCheckMode::Pass(TestRunMode::Check) }
    }

    /// These expectations with the ones the pattern gives in their place.
    pub fn apply(&self, p: &TestRulesPattern) -> (r: TestRules)
        ensures
            r.run == match p.run { Some(x) => x, None => self.run },
            r.check == match p.check { Some(x) => x, None => self.check },
    {
        let mut r = *self;
        if let Some(run) = p.run {
            r.run = run;
        }
        if let Some(check) = p.check {
            r.check = check;
        }
        r
    }
}

/// How a test concluded.
#[derive(Debug, Clone, Copy, PartialEq, Eq, Structural)]
pub enum TestConclusion {
    Skipped,
    Passed,
    Busted,
    Failed,
}

/// The counts of a test session.
#[derive(Debug, Clone, Copy, PartialEq, Eq, Structural)]
pub struct TestSummary {
    pub num_tests: u64,
    pub num_passed: u64,
    pub num_busted: u64,
    pub num_failed: u64,
    pub num_skipped: u64,
}

/// The libraries built for the two sides of a test.
#[derive(Debug)]
pub struct BuildOutput {
    pub caller_lib: String,
    pub callee_lib: String,
}


/// The expectations for a run: the defaults, overridden in turn by every
/// pattern that matches the run, in order.
pub open spec fn spec_rules_for(key: &TestKey, patterns: Seq<(TestKeyPattern, TestRulesPattern)>, i: int, acc: TestRules) -> TestRules
    decreases patterns.len() - i,
{
    if i < 0 || i >= patterns.len() {
        acc
    } else {
        let next = if spec_key_matches(&patterns[i].0, key) {
            TestRules {
                run: match patterns[i].1.run { Some(x) => x, None => acc.run },
                check: match patterns[i].1.check { Some(x) => x, None => acc.check },
            }
        } else {
            acc
        };
        spec_rules_for(key, patterns, i + 1, next)
    }
}

/// The expectations for a run, given the patterns of the expectation files
/// in order.
pub fn get_test_rules(key: &TestKey, patterns: &Vec<(TestKeyPattern, TestRulesPattern)>) -> (r: TestRules)
    ensures
        r == spec_rules_for(key, patterns@, 0, TestRules { run: TestRunMode::Check, check: TestCheckMode::Pass(TestRunMode::Check) }),
{
    let mut result = TestRules::default_rules();
    let mut i: usize = 0;
    while i < patterns.len()
        invariant
            i <= patterns@.len(),
            spec_rules_for(key, patterns@, 0, TestRules { run: TestRunMode::Check, check: TestCheckMode::Pass(TestRunMode::Check) })
                == spec_rules_for(key, patterns@, i as int, result),
        decreases patterns@.len() - i,
    {
        if patterns[i].0.matches(key) {
            result = result.apply(&patterns[i].1);
        }
        i = i + 1;
    }
    result
}

/// How far each step of a run got: `None` for a step not reached, else
/// whether it succeeded (for the check step, whether every subtest passed).
#[derive(Debug, Clone, Copy, PartialEq, Eq, Structural)]
pub struct StepOutcomes {
    /// The last step run.
    pub ran_to: TestRunMode,
    pub source: Option<bool>,
    /// Whether generating the source declined the test.
    pub source_skipped: bool,
    pub build: Option<bool>,
    pub link: Option<bool>,
    pub run: Option<bool>,
    pub check: Option<bool>,
}

/// Whether the run did as wished (`wants_pass`) at `step`; `None` if it
/// never got there.
pub open spec fn spec_success_at_step(o: StepOutcomes, step: TestRunMode, wants_pass: bool) -> Option<bool> {
    let res = match step {
        TestRunMode::Skip => Some(wants_pass),
        TestRunMode::Generate => o.source,
        TestRunMode::Build => o.build,
        TestRunMode::Link => o.link,
        TestRunMode::Run => o.run,
        TestRunMode::Check => o.check,
    };
    match step {
        TestRunMode::Skip => Some(true),
        _ => match res { Some(x) => Some(x == wants_pass), None => None },
    }
}

/// Whether the run did as wished (`wants_pass`) at `step`; `None` if it
/// never got there.
pub fn success_at_step(o: &StepOutcomes, step: TestRunMode, wants_pass: bool) -> (r: Option<bool>)
    ensures
        r == spec_success_at_step(*o, step, wants_pass),
{
    let res = match step {
        TestRunMode::Skip => return Some(true),
        TestRunMode::Generate => o.source,
        TestRunMode::Build => o.build,
        TestRunMode::Link => o.link,
        TestRunMode::Run => o.run,
        TestRunMode::Check => o.check,
    };
    match res {
        Some(x) => Some(x == wants_pass),
        None => None,
    }
}

/// How a run concluded under its expectations.
pub open spec fn spec_conclusion(rules: TestRules, o: StepOutcomes) -> TestConclusion {
    if rules.run == TestRunMode::Skip || o.source_skipped {
        TestConclusion::Skipped
    } else {
        let passed = match rules.check {
            TestCheckMode::Pass(m) => spec_success_at_step(o, m, true),
            TestCheckMode::Fail(m) => spec_success_at_step(o, m, false),
            TestCheckMode::Busted(m) => spec_success_at_step(o, m, false),
            TestCheckMode::Random(_) => Some(true),
        };
        if passed == Some(true) {
            if rules.check is Busted { TestConclusion::Busted } else { TestConclusion::Passed }
        } else {
            TestConclusion::Failed
        }
    }
}

/// What happened at `step`: `None` if the run never got there, else
/// whether the step succeeded.
pub open spec fn outcome_at(o: StepOutcomes, step: TestRunMode) -> Option<bool> {
    match step {
        TestRunMode::Skip => None,
        TestRunMode::Generate => o.source,
        TestRunMode::Build => o.build,
        TestRunMode::Link => o.link,
        TestRunMode::Run => o.run,
        TestRunMode::Check => o.check,
    }
}

/// How a run that is not skipped concludes under each kind of expectation:
/// a run expected to pass step `m` passes exactly when that step
/// succeeded; one expected to fail there (or known busted there) has done
/// as expected exactly when that step failed, and concludes passed (or
/// busted); a run with a random outcome always passes, as does one whose
/// expectation is about no step; anything else fails. A run is skipped exactly when its expectations skip it or
/// generating its source declined it.
pub proof fn lemma_conclusions(rules: TestRules, o: StepOutcomes)
    ensures
        (spec_conclusion(rules, o) == TestConclusion::Skipped) <==> (rules.run == TestRunMode::Skip || o.source_skipped),
        rules.run != TestRunMode::Skip && !o.source_skipped ==> match rules.check {
            TestCheckMode::Pass(m) => m != TestRunMode::Skip ==> (spec_conclusion(rules, o) == if outcome_at(o, m) == Some(true) {
                TestConclusion::Passed
            } else {
                TestConclusion::Failed
            }),
            TestCheckMode::Fail(m) => m != TestRunMode::Skip ==> (spec_conclusion(rules, o) == if outcome_at(o, m) == Some(false) {
                TestConclusion::Passed
            } else {
                TestConclusion::Failed
            }),
            TestCheckMode::Busted(m) => m != TestRunMode::Skip ==> (spec_conclusion(rules, o) == if outcome_at(o, m) == Some(false) {
                TestConclusion::Busted
            } else {
                TestConclusion::Failed
            }),
            TestCheckMode::Random(_) => spec_conclusion(rules, o) == TestConclusion::Passed,
        },
        rules.run != TestRunMode::Skip && !o.source_skipped && (rules.check == TestCheckMode::Pass(TestRunMode::Skip)
            || rules.check == TestCheckMode::Fail(TestRunMode::Skip)) ==> spec_conclusion(rules, o) == TestConclusion::Passed,
        rules.run != TestRunMode::Skip && !o.source_skipped && rules.check == TestCheckMode::Busted(TestRunMode::Skip)
            ==> spec_conclusion(rules, o) == TestConclusion::Busted,
{
}

/// The expectations that would make the run's outcome the expected one.
pub open spec fn spec_could_be(rules: TestRules, o: StepOutcomes) -> TestRulesPattern {
    TestRulesPattern {
        run: if rules.run != TestRunMode::Check { Some(rules.run) } else { None },
        check: if spec_success_at_step(o, o.ran_to, true) == Some(true) {
            Some(TestCheckMode::Pass(rules.run))
        } else {
            Some(TestCheckMode::Busted(rules.run))
        },
    }
}

/// How a run concluded under its expectations, and the expectations that
/// would make its outcome the expected one.
pub fn report_test(rules: TestRules, o: &StepOutcomes) -> (r: (TestConclusion, TestRulesPattern))
    ensures
        r.0 == spec_conclusion(rules, *o),
        r.1 == spec_could_be(rules, *o),
{
    let conclusion = if rules.run == TestRunMode::Skip || o.source_skipped {
        TestConclusion::Skipped
    } else {
        let passed = match rules.check {
            TestCheckMode::Pass(m) => success_at_step(o, m, true),
            TestCheckMode::Fail(m) => success_at_step(o, m, false),
            TestCheckMode::Busted(m) => success_at_step(o, m, false),
            TestCheckMode::Random(_) => Some(true),
        };
        if passed == Some(true) {
            if let TestCheckMode::Busted(_) = rules.check {
                TestConclusion::Busted
            } else {
                TestConclusion::Passed
            }
        } else {
            TestConclusion::Failed
        }
    };
    let did_pass = success_at_step(o, o.ran_to, true) == Some(true);
    let could_be = TestRulesPattern {
        run: if rules.run != TestRunMode::Check { Some(rules.run) } else { None },
        check: if did_pass {
            Some(TestCheckMode::Pass(rules.run))
        } else {
            Some(TestCheckMode::Busted(rules.run))
        },
    };
    (conclusion, could_be)
}

} // verus!

verus! {

/// The outputs of running a test: what each side wrote.
#[derive(Debug)]
pub struct RunOutput {
    pub caller_funcs: TestBuffer,
    pub callee_funcs: TestBuffer,
}

/// A file of expectations: for each target (`*` for every target), the
/// patterns of runs and the expectations that apply to them, in order.
#[derive(Debug)]
pub struct ExpectFile {
    pub targets: Vec<(String, Vec<(TestKeyPattern, TestRulesPattern)>)>,
}

/// The patterns listed for the target named `name`, if the file has it.
pub open spec fn target_patterns(targets: Seq<(String, Vec<(TestKeyPattern, TestRulesPattern)>)>, name: Seq<char>)
    -> Option<Seq<(TestKeyPattern, TestRulesPattern)>>
{
    if exists|i: int| 0 <= i < targets.len() && (#[trigger] targets[i]).0@ == name {
        let i = choose|i: int| 0 <= i < targets.len() && (#[trigger] targets[i]).0@ == name
            && forall|j: int| 0 <= j < i ==> (#[trigger] targets[j]).0@ != name;
        Some(targets[i].1@)
    } else {
        None
    }
}

/// `acc` overridden by the patterns listed for `name`, if any.
pub open spec fn apply_target(key: &TestKey, targets: Seq<(String, Vec<(TestKeyPattern, TestRulesPattern)>)>, name: Seq<char>,
    acc: TestRules) -> TestRules
{
    match target_patterns(targets, name) {
        Some(ps) => spec_rules_for(key, ps, 0, acc),
        None => acc,
    }
}

/// The expectations after the first `k` files: each file's patterns for
/// every target, then its patterns for `target`, override in turn.
pub open spec fn spec_file_rules(key: &TestKey, files: Seq<ExpectFile>, target: Seq<char>, k: int) -> TestRules
    decreases k,
{
    if k <= 0 || k > files.len() {
        TestRules { run: TestRunMode::Check, check: TestCheckMode::Pass(TestRunMode::Check) }
    } else {
        let prev = spec_file_rules(key, files, target, k - 1);
        apply_target(key, files[k - 1].targets@, target, apply_target(key, files[k - 1].targets@, "*"@, prev))
    }
}

/// The position of the first entry for the target named `name`.
fn find_target(targets: &Vec<(String, Vec<(TestKeyPattern, TestRulesPattern)>)>, name: &str) -> (r: Option<usize>)
    ensures
        match r {
            Some(i) => i < targets@.len() && targets@[i as int].0@ == name@
                && forall|j: int| 0 <= j < i ==> (#[trigger] targets@[j]).0@ != name@,
            None => forall|j: int| 0 <= j < targets@.len() ==> (#[trigger] targets@[j]).0@ != name@,
        },
{
    let mut i: usize = 0;
    while i < targets.len()
        invariant
            i <= targets@.len(),
            forall|j: int| 0 <= j < i ==> (#[trigger] targets@[j]).0@ != name@,
        decreases targets@.len() - i,
    {
        if str_eq(targets[i].0.as_str(), name) {
            return Some(i);
        }
        i = i + 1;
    }
    None
}

/// `acc` overridden by the patterns the file lists for `name`, if any.
fn apply_target_rules(key: &TestKey, targets: &Vec<(String, Vec<(TestKeyPattern, TestRulesPattern)>)>, name: &str, acc: TestRules)
    -> (r: TestRules)
    ensures
        r == apply_target(key, targets@, name@, acc),
{
    match find_target(targets, name) {
        Some(i) => {
            proof {
                let t = targets@;
                assert(exists|i: int| 0 <= i < t.len() && (#[trigger] t[i]).0@ == name@);
                let c = choose|c: int| 0 <= c < t.len() && (#[trigger] t[c]).0@ == name@
                    && forall|j: int| 0 <= j < c ==> (#[trigger] t[j]).0@ != name@;
                assert(c == i as int) by {
                    if c < i as int {
                        assert(t[c].0@ != name@);
                    } else if (i as int) < c {
                        assert(t[i as int].0@ != name@);
                    }
                }
            }
            let patterns = &targets[i].1;
            let mut result = acc;
            let mut k: usize = 0;
            while k < patterns.len()
                invariant
                    k <= patterns@.len(),
                    spec_rules_for(key, patterns@, 0, acc) == spec_rules_for(key, patterns@, k as int, result),
                decreases patterns@.len() - k,
            {
                if patterns[k].0.matches(key) {
                    result = result.apply(&patterns[k].1);
                }
                k = k + 1;
            }
            result
        },
        None => acc,
    }
}

/// The expectations for a run on `target`, given the expectation files in
/// order: the defaults, overridden by each file's patterns for every target
/// (`*`) and then by its patterns for `target`.
pub fn rules_from_files(key: &TestKey, files: &Vec<ExpectFile>, target: &str) -> (r: TestRules)
    ensures
        r == spec_file_rules(key, files@, target@, files@.len() as int),
{
    let mut result = TestRules::default_rules();
    let mut i: usize = 0;
    while i < files.len()
        invariant
            i <= files@.len(),
            result == spec_file_rules(key, files@, target@, i as int),
        decreases files@.len() - i,
    {
        let targets = &files[i].targets;
        result = apply_target_rules(key, targets, "*", result);
        result = apply_target_rules(key, targets, target, result);
        i = i + 1;
    }
    result
}

} // verus!

verus! {

/// The color a piece of the human report is shown in.
#[derive(Debug, Clone, Copy, PartialEq, Eq, Structural)]
pub enum ReportColor {
    Plain,
    Red,
    Green,
    Blue,
}

/// How the human report describes a run's conclusion under its check
/// mode, and in which color; nothing for a skipped run.
pub open spec fn spec_verdict(conclusion: TestConclusion, check: TestCheckMode) -> Option<(Seq<char>, ReportColor)> {
    match (conclusion, check) {
        (TestConclusion::Skipped, _) => None,
        (TestConclusion::Passed, TestCheckMode::Pass(_)) => Some(("passed"@, ReportColor::Plain)),
        (TestConclusion::Passed, TestCheckMode::Random(_)) => Some(("passed (random, result ignored)"@, ReportColor::Plain)),
        (TestConclusion::Passed, TestCheckMode::Fail(_)) => Some(("passed (failed as expected)"@, ReportColor::Plain)),
        (TestConclusion::Failed, TestCheckMode::Pass(_)) => Some(("failed"@, ReportColor::Red)),
        (TestConclusion::Failed, TestCheckMode::Random(_)) => Some(("failed!? (failed but random!?)"@, ReportColor::Red)),
        (TestConclusion::Failed, TestCheckMode::Fail(_)) => Some(("failed (passed unexpectedly!)"@, ReportColor::Red)),
        (TestConclusion::Failed, TestCheckMode::Busted(_)) => Some(("fixed (test was busted, congrats!)"@, ReportColor::Green)),
        (TestConclusion::Busted, _) => Some(("busted (known failure, ignored)"@, ReportColor::Blue)),
        (TestConclusion::Passed, TestCheckMode::Busted(_)) => Some(("busted (known failure, ignored)"@, ReportColor::Blue)),
    }
}

/// How the human report describes a run's conclusion under its check
/// mode, and in which color; nothing for a skipped run.
pub fn verdict(conclusion: TestConclusion, check: TestCheckMode) -> (r: Option<(&'static str, ReportColor)>)
    ensures
        match r {
            Some((text, color)) => spec_verdict(conclusion, check) == Some((text@, color)),
            None => spec_verdict(conclusion, check) is None,
        },
{
    match (conclusion, check) {
        (TestConclusion::Skipped, _) => None,
        (TestConclusion::Passed, TestCheckMode::Pass(_)) => Some(("passed", ReportColor::Plain)),
        (TestConclusion::Passed, TestCheckMode::Random(_)) => Some(("passed (random, result ignored)", ReportColor::Plain)),
        (TestConclusion::Passed, TestCheckMode::Fail(_)) => Some(("passed (failed as expected)", ReportColor::Plain)),
        (TestConclusion::Failed, TestCheckMode::Pass(_)) => Some(("failed", ReportColor::Red)),
        (TestConclusion::Failed, TestCheckMode::Random(_)) => Some(("failed!? (failed but random!?)", ReportColor::Red)),
        (TestConclusion::Failed, TestCheckMode::Fail(_)) => Some(("failed (passed unexpectedly!)", ReportColor::Red)),
        (TestConclusion::Failed, TestCheckMode::Busted(_)) => Some(("fixed (test was busted, congrats!)", ReportColor::Green)),
        (TestConclusion::Busted, _) => Some(("busted (known failure, ignored)", ReportColor::Blue)),
        (TestConclusion::Passed, TestCheckMode::Busted(_)) => Some(("busted (known failure, ignored)", ReportColor::Blue)),
    }
}

/// What a run that stopped at `ran_to` failed to do.
pub open spec fn spec_failed_step(ran_to: TestRunMode) -> Seq<char> {
    match ran_to {
        TestRunMode::Generate => "generate source code"@,
        TestRunMode::Build => "compile source code"@,
        TestRunMode::Link => "link both sides together"@,
        TestRunMode::Run => "run the program"@,
        _ => ""@,
    }
}

/// What a run that stopped at `ran_to` failed to do.
pub fn failed_step(ran_to: TestRunMode) -> (r: &'static str)
    ensures
        r@ == spec_failed_step(ran_to),
{
    match ran_to {
        TestRunMode::Generate => "generate source code",
        TestRunMode::Build => "compile source code",
        TestRunMode::Link => "link both sides together",
        TestRunMode::Run => "run the program",
        TestRunMode::Skip | TestRunMode::Check => "",
    }
}

/// The closing line of the human report and its color: red if any test
/// failed, else blue if any was busted, else green.
pub open spec fn spec_summary_line(s: TestSummary) -> (Seq<char>, ReportColor) {
    (decimal(s.num_tests as nat) + " test sets run - "@ + decimal(s.num_passed as nat) + " passed, "@
        + decimal(s.num_busted as nat) + " busted, "@ + decimal(s.num_failed as nat) + " failed, "@
        + decimal(s.num_skipped as nat) + " skipped"@,
    if s.num_failed > 0 { ReportColor::Red } else if s.num_busted > 0 { ReportColor::Blue } else { ReportColor::Green })
}

/// The closing line of the human report and its color.
pub fn summary_line(s: &TestSummary) -> (r: (String, ReportColor))
    ensures
        (r.0@, r.1) == spec_summary_line(*s),
{
    let mut line = String::new();
    push_decimal(&mut line, s.num_tests);
    push_str(&mut line, " test sets run - ");
    push_decimal(&mut line, s.num_passed);
    push_str(&mut line, " passed, ");
    push_decimal(&mut line, s.num_busted);
    push_str(&mut line, " busted, ");
    push_decimal(&mut line, s.num_failed);
    push_str(&mut line, " failed, ");
    push_decimal(&mut line, s.num_skipped);
    push_str(&mut line, " skipped");
    assert(line@ =~= spec_summary_line(*s).0);
    let color = if s.num_failed > 0 {
        ReportColor::Red
    } else if s.num_busted > 0 {
        ReportColor::Blue
    } else {
        ReportColor::Green
    };
    (line, color)
}

} // verus!

verus! {

/// The part of a run's name that says which function, argument and value
/// the selector picks.
pub open spec fn selection_id(sel: FunctionSelector, funcs: Seq<FuncV>, sep: Seq<char>) -> Seq<char> {
    match sel {
        FunctionSelector::All => Seq::empty(),
        FunctionSelector::One { idx, args } => sep + funcs[idx as int].name.text() + match args {
            ArgSelector::All => Seq::empty(),
            ArgSelector::One { idx: a, vals } => sep + "arg"@ + decimal(a as nat) + match vals {
                ValSelector::All => Seq::empty(),
                ValSelector::One { idx: v } => sep + "val"@ + decimal(v as nat),
            },
        },
    }
}

/// The name of a run, its parts joined by `sep`: the test, the convention,
/// what the selector picks, the sides (both, or the one `call_side` names),
/// then the value writer and generator where they are not the defaults.
pub open spec fn spec_base_id(key: &TestKey, funcs: Seq<FuncV>, call_side: Option<CallSide>, sep: Seq<char>) -> Seq<char> {
    key.test@ + sep + convention_name(key.options.convention) + selection_id(key.options.functions, funcs, sep) + sep
        + sides_id(key, call_side) + options_id(key, sep)
}

/// The part of a run's name for the sides.
pub open spec fn sides_id(key: &TestKey, call_side: Option<CallSide>) -> Seq<char> {
    match call_side {
        None => key.caller@ + "_calls_"@ + key.callee@,
        Some(CallSide::Caller) => key.caller@ + "_caller"@,
        Some(CallSide::Callee) => key.callee@ + "_callee"@,
    }
}

/// The part of a run's name for the writer and the generator.
pub open spec fn options_id(key: &TestKey, sep: Seq<char>) -> Seq<char> {
    let writer = match key.options.val_writer {
        WriteImpl::HarnessCallback => Seq::empty(),
        WriteImpl::Print => sep + "print"@,
        WriteImpl::Assert => sep + "assert"@,
        WriteImpl::Noop => sep + "noop"@,
    };
    let generator = match key.options.val_generator {
        ValueGeneratorKind::Graffiti => Seq::empty(),
        ValueGeneratorKind::Random { seed } => sep + "random"@ + decimal(seed as nat),
    };
    writer + generator
}

fn push_selection(output: &mut String, sel: FunctionSelector, types: &TypedProgram, separator: &str)
    requires
        sel matches FunctionSelector::One { idx, .. } ==> idx < types@.funcs.len(),
    ensures
        final(output)@ == old(output)@ + selection_id(sel, types@.funcs, separator@),
{
    let ghost o0 = output@;
    if let FunctionSelector::One { idx, args } = sel {
        let func = types.realize_func(idx);
        push_str(output, separator);
        push_str(output, func.name.val.value.as_str());
        if let ArgSelector::One { idx, vals } = args {
            push_str(output, separator);
            push_str(output, "arg");
            push_decimal(output, idx as u64);
            if let ValSelector::One { idx } = vals {
                push_str(output, separator);
                push_str(output, "val");
                push_decimal(output, idx as u64);
            }
        }
    }
    assert(output@ =~= o0 + selection_id(sel, types@.funcs, separator@));
}

fn push_sides(output: &mut String, key: &TestKey, call_side: Option<CallSide>)
    ensures
        final(output)@ == old(output)@ + sides_id(key, call_side),
{
    let ghost o0 = output@;
    match call_side {
        None => {
            push_str(output, key.caller.as_str());
            push_str(output, "_calls_");
            push_str(output, key.callee.as_str());
        },
        Some(CallSide::Caller) => {
            push_str(output, key.caller.as_str());
            push_str(output, "_caller");
        },
        Some(CallSide::Callee) => {
            push_str(output, key.callee.as_str());
            push_str(output, "_callee");
        },
    }
    assert(output@ =~= o0 + sides_id(key, call_side));
}

fn push_options(output: &mut String, key: &TestKey, separator: &str)
    ensures
        final(output)@ == old(output)@ + options_id(key, separator@),
{
    let ghost o0 = output@;
    match key.options.val_writer {
        WriteImpl::HarnessCallback => {},
        WriteImpl::Print => {
            push_str(output, separator);
            push_str(output, "print");
        },
        WriteImpl::Assert => {
            push_str(output, separator);
            push_str(output, "assert");
        },
        WriteImpl::Noop => {
            push_str(output, separator);
            push_str(output, "noop");
        },
    }
    match key.options.val_generator {
        ValueGeneratorKind::Graffiti => {},
        ValueGeneratorKind::Random { seed } => {
            push_str(output, separator);
            push_str(output, "random");
            push_decimal(output, seed);
        },
    }
    assert(output@ =~= o0 + options_id(key, separator@));
}

/// The name of a run, its parts joined by `separator`.
pub fn base_id(key: &TestKey, types: &TypedProgram, call_side: Option<CallSide>, separator: &str) -> (r: String)
    requires
        key.options.functions matches FunctionSelector::One { idx, .. } ==> idx < types@.funcs.len(),
    ensures
        r@ == spec_base_id(key, types@.funcs, call_side, separator@),
{
    let mut output = owned(key.test.as_str());
    push_str(&mut output, separator);
    push_str(&mut output, key.options.convention.name());
    push_selection(&mut output, key.options.functions, types, separator);
    push_str(&mut output, separator);
    push_sides(&mut output, key, call_side);
    push_options(&mut output, key, separator);
    assert(output@ =~= spec_base_id(key, types@.funcs, call_side, separator@));
    output
}

/// The name of a run for people to read.
pub fn full_test_name(key: &TestKey, types: &TypedProgram) -> (r: String)
    requires
        key.options.functions matches FunctionSelector::One { idx, .. } ==> idx < types@.funcs.len(),
    ensures
        r@ == spec_base_id(key, types@.funcs, None, "::"@),
{
    base_id(key, types, None, "::")
}

/// The name of one function of a run for people to read.
pub fn full_subtest_name(key: &TestKey, types: &TypedProgram, func_name: &str) -> (r: String)
    requires
        key.options.functions matches FunctionSelector::One { idx, .. } ==> idx < types@.funcs.len(),
    ensures
        r@ == spec_base_id(key, types@.funcs, None, "::"@) + "::"@ + func_name@,
{
    let mut r = full_test_name(key, types);
    push_str(&mut r, "::");
    push_str(&mut r, func_name);
    r
}

} // verus!

verus! {

/// Whether the step after `ran_to` is wanted and the step `ran_to`
/// succeeded.
pub open spec fn step_succeeded(o: StepOutcomes) -> bool {
    match o.ran_to {
        TestRunMode::Skip => true,
        TestRunMode::Generate => o.source == Some(true),
        TestRunMode::Build => o.build == Some(true),
        TestRunMode::Link => o.link == Some(true),
        TestRunMode::Run => o.run == Some(true),
        TestRunMode::Check => false,
    }
}

/// The step after `m`, if any.
pub open spec fn step_after(m: TestRunMode) -> Option<TestRunMode> {
    match m {
        TestRunMode::Skip => Some(TestRunMode::Generate),
        TestRunMode::Generate => Some(TestRunMode::Build),
        TestRunMode::Build => Some(TestRunMode::Link),
        TestRunMode::Link => Some(TestRunMode::Run),
        TestRunMode::Run => Some(TestRunMode::Check),
        TestRunMode::Check => None,
    }
}

/// The step a run does next: the one after the last, if that succeeded
/// and the expectations ask the run to go that far; none when it stops.
pub open spec fn spec_next_step(rules: TestRules, o: StepOutcomes) -> Option<TestRunMode> {
    match step_after(o.ran_to) {
        Some(s) => if step_succeeded(o) && run_mode_rank(s) <= run_mode_rank(rules.run) { Some(s) } else { None },
        None => None,
    }
}

/// The step a run does next, if any.
pub fn next_step(rules: &TestRules, o: &StepOutcomes) -> (r: Option<TestRunMode>)
    ensures
        r == spec_next_step(*rules, *o),
{
    let next = match o.ran_to {
        TestRunMode::Skip => TestRunMode::Generate,
        TestRunMode::Generate => TestRunMode::Build,
        TestRunMode::Build => TestRunMode::Link,
        TestRunMode::Link => TestRunMode::Run,
        TestRunMode::Run => TestRunMode::Check,
        TestRunMode::Check => return None,
    };
    let succeeded = match o.ran_to {
        TestRunMode::Skip => true,
        TestRunMode::Generate => o.source == Some(true),
        TestRunMode::Build => o.build == Some(true),
        TestRunMode::Link => o.link == Some(true),
        TestRunMode::Run => o.run == Some(true),
        TestRunMode::Check => false,
    };
    if succeeded && next.rank() <= rules.run.rank() {
        Some(next)
    } else {
        None
    }
}

/// Records that the run did `step` (the one [`next_step`] gave), with
/// what came of it; a source that the backend declined to generate makes
/// the run skipped.
pub fn record_step(rules: &mut TestRules, o: &mut StepOutcomes, step: TestRunMode, ok: bool, unsupported: bool)
    ensures
        final(o).ran_to == step,
        final(o).source == if step == TestRunMode::Generate { Some(ok) } else { old(o).source },
        final(o).build == if step == TestRunMode::Build { Some(ok) } else { old(o).build },
        final(o).link == if step == TestRunMode::Link { Some(ok) } else { old(o).link },
        final(o).run == if step == TestRunMode::Run { Some(ok) } else { old(o).run },
        final(o).check == if step == TestRunMode::Check { Some(ok) } else { old(o).check },
        final(o).source_skipped == (old(o).source_skipped || (step == TestRunMode::Generate && !ok && unsupported)),
        final(rules).check == old(rules).check,
        final(rules).run == if step == TestRunMode::Generate && !ok && unsupported { TestRunMode::Skip } else { old(rules).run },
{
    o.ran_to = step;
    match step {
        TestRunMode::Skip => {},
        TestRunMode::Generate => {
            o.source = Some(ok);
            if !ok && unsupported {
                o.source_skipped = true;
                rules.run = TestRunMode::Skip;
            }
        },
        TestRunMode::Build => {
            o.build = Some(ok);
        },
        TestRunMode::Link => {
            o.link = Some(ok);
        },
        TestRunMode::Run => {
            o.run = Some(ok);
        },
        TestRunMode::Check => {
            o.check = Some(ok);
        },
    }
}

/// A run goes step by step and never past what its expectations ask for:
/// the next step is the one after the last, and no later than `rules.run`.
pub proof fn lemma_steps_in_order(rules: TestRules, o: StepOutcomes)
    ensures
        spec_next_step(rules, o) matches Some(s) ==> run_mode_rank(s) == run_mode_rank(o.ran_to) + 1
            && run_mode_rank(s) <= run_mode_rank(rules.run),
        rules.run == TestRunMode::Skip ==> spec_next_step(rules, o) is None,
{
}

} // verus!

verus! {

/// The selector of exactly the value a check failure is about.
pub open spec fn failure_selector(e: CheckFailure) -> FunctionSelector {
    match e {
        CheckFailure::ValMismatch { func_idx, arg_idx, val_idx, .. } =>
            FunctionSelector::One { idx: func_idx, args: ArgSelector::One { idx: arg_idx, vals: ValSelector::One { idx: val_idx } } },
        CheckFailure::TagMismatch { func_idx, arg_idx, val_idx, .. } =>
            FunctionSelector::One { idx: func_idx, args: ArgSelector::One { idx: arg_idx, vals: ValSelector::One { idx: val_idx } } },
    }
}

/// The failures among the first `k` function checks, in order.
pub open spec fn failures_of(checks: Seq<Result<(), CheckFailure>>, k: int) -> Seq<CheckFailure>
    decreases k,
{
    if k <= 0 || k > checks.len() {
        Seq::empty()
    } else {
        match checks[k - 1] {
            Err(e) => failures_of(checks, k - 1).push(e),
            Ok(_) => failures_of(checks, k - 1),
        }
    }
}

/// The run that looks again at failure `e` of the run `key`: the same
/// test and sides, only the failed value selected and reported with
/// `writer`; it is only generated.
pub open spec fn is_minimized(key: TestKey, rules: TestRules, e: CheckFailure, writer: WriteImpl, m: (TestKey, TestRules)) -> bool {
    &&& m.0.test@ == key.test@
    &&& m.0.caller@ == key.caller@
    &&& m.0.callee@ == key.callee@
    &&& m.0.options == (TestOptions { functions: failure_selector(e), val_writer: writer, ..key.options })
    &&& m.1 == (TestRules { run: TestRunMode::Generate, ..rules })
}

/// For each failed function check of the run `key`, in order, a run that
/// generates the test again with only the failed value selected, reported
/// with `writer`.
pub fn minimized_tests(key: &TestKey, rules: TestRules, checks: &Vec<Result<(), CheckFailure>>, writer: WriteImpl)
    -> (r: Vec<(TestKey, TestRules)>)
    ensures
        r@.len() == failures_of(checks@, checks@.len() as int).len(),
        forall|i: int| 0 <= i < r@.len() ==> #[trigger] is_minimized(*key, rules,
            failures_of(checks@, checks@.len() as int)[i], writer, r@[i]),
{
    let mut r: Vec<(TestKey, TestRules)> = Vec::new();
    let mut i: usize = 0;
    while i < checks.len()
        invariant
            i <= checks@.len(),
            r@.len() == failures_of(checks@, i as int).len(),
            forall|j: int| 0 <= j < r@.len() ==> #[trigger] is_minimized(*key, rules, failures_of(checks@, i as int)[j], writer, r@[j]),
        decreases checks@.len() - i,
    {
        let ghost before = failures_of(checks@, i as int);
        if let Err(e) = &checks[i] {
            let functions = match e {
                CheckFailure::ValMismatch { func_idx, arg_idx, val_idx, .. } => FunctionSelector::One {
                    idx: *func_idx,
                    args: ArgSelector::One { idx: *arg_idx, vals: ValSelector::One { idx: *val_idx } },
                },
                CheckFailure::TagMismatch { func_idx, arg_idx, val_idx, .. } => FunctionSelector::One {
                    idx: *func_idx,
                    args: ArgSelector::One { idx: *arg_idx, vals: ValSelector::One { idx: *val_idx } },
                },
            };
            let k = TestKey {
                test: owned(key.test.as_str()),
                caller: owned(key.caller.as_str()),
                callee: owned(key.callee.as_str()),
                options: TestOptions { functions, val_writer: writer, ..key.options },
            };
            r.push((k, TestRules { run: TestRunMode::Generate, check: rules.check }));
            assert(failures_of(checks@, i + 1) == before.push(*e));
        }
        i = i + 1;
    }
    r
}

/// A minimized run selects the value its failure is about and no other.
pub proof fn lemma_minimized_selects_failure(key: TestKey, rules: TestRules, e: CheckFailure, writer: WriteImpl,
    m: (TestKey, TestRules), f: usize, a: usize, v: usize)
    requires
        is_minimized(key, rules, e, writer, m),
    ensures
        selects_val(m.0.options.functions, f, a, v) <==> match e {
            CheckFailure::ValMismatch { func_idx, arg_idx, val_idx, .. } => f == func_idx && a == arg_idx && v == val_idx,
            CheckFailure::TagMismatch { func_idx, arg_idx, val_idx, .. } => f == func_idx && a == arg_idx && v == val_idx,
        },
{
}

} // verus!

verus! {

/// The positions, among the first `k` runs, of those that concluded `c`,
/// in order.
pub open spec fn with_conclusion(cs: Seq<TestConclusion>, c: TestConclusion, k: int) -> Seq<usize>
    decreases k,
{
    if k <= 0 || k > cs.len() {
        Seq::empty()
    } else if cs[k - 1] == c {
        with_conclusion(cs, c, k - 1).push((k - 1) as usize)
    } else {
        with_conclusion(cs, c, k - 1)
    }
}

/// The order in which the human report lists runs: the skipped ones not
/// at all, then those that passed, were busted, failed, each in the order
/// they came.
pub open spec fn spec_report_order(cs: Seq<TestConclusion>) -> Seq<usize> {
    with_conclusion(cs, TestConclusion::Passed, cs.len() as int)
        + with_conclusion(cs, TestConclusion::Busted, cs.len() as int)
        + with_conclusion(cs, TestConclusion::Failed, cs.len() as int)
}

/// Appends the positions of the runs that concluded `c`, in order.
fn push_with_conclusion(order: &mut Vec<usize>, cs: &Vec<TestConclusion>, c: TestConclusion)
    ensures
        final(order)@ == old(order)@ + with_conclusion(cs@, c, cs@.len() as int),
{
    let ghost o0 = order@;
    let mut i: usize = 0;
    while i < cs.len()
        invariant
            i <= cs@.len(),
            order@ == o0 + with_conclusion(cs@, c, i as int),
        decreases cs@.len() - i,
    {
        if cs[i] == c {
            order.push(i);
        }
        i = i + 1;
        assert(order@ =~= o0 + with_conclusion(cs@, c, i as int));
    }
}

/// The positions of the runs in the order the human report lists them:
/// sorted by conclusion, passed before busted before failed, keeping the
/// order of runs that concluded alike; skipped runs are left out.
pub fn report_order(cs: &Vec<TestConclusion>) -> (r: Vec<usize>)
    ensures
        r@ == spec_report_order(cs@),
{
    let mut order: Vec<usize> = Vec::new();
    push_with_conclusion(&mut order, cs, TestConclusion::Passed);
    push_with_conclusion(&mut order, cs, TestConclusion::Busted);
    push_with_conclusion(&mut order, cs, TestConclusion::Failed);
    assert(order@ =~= spec_report_order(cs@));
    order
}

/// Whether the human report details a run's functions: only a run that
/// got to its check and was not busted.
pub fn report_details(ran_to: TestRunMode, conclusion: TestConclusion) -> (r: bool)
    ensures
        r == (run_mode_rank(ran_to) >= run_mode_rank(TestRunMode::Check) && conclusion != TestConclusion::Busted),
{
    ran_to.rank() >= TestRunMode::Check.rank() && conclusion != TestConclusion::Busted
}

/// The number of the first `k` function checks that passed.
pub open spec fn passed_count(checks: Seq<Result<(), CheckFailure>>, k: int) -> nat
    decreases k,
{
    if k <= 0 || k > checks.len() {
        0
    } else {
        passed_count(checks, k - 1) + if checks[k - 1] is Ok { 1nat } else { 0nat }
    }
}

/// The number of function checks that passed.
pub fn subtests_passed(checks: &Vec<Result<(), CheckFailure>>) -> (r: usize)
    ensures
        r == passed_count(checks@, checks@.len() as int),
{
    let mut n: usize = 0;
    let mut i: usize = 0;
    while i < checks.len()
        invariant
            i <= checks@.len(),
            n == passed_count(checks@, i as int),
            n <= i,
        decreases checks@.len() - i,
    {
        if checks[i].is_ok() {
            n = n + 1;
        }
        i = i + 1;
    }
    n
}

} // verus!

verus! {

/// The rank of a conclusion in the human report's order.
pub open spec fn conclusion_rank(c: TestConclusion) -> int {
    match c {
        TestConclusion::Skipped => 0,
        TestConclusion::Passed => 1,
        TestConclusion::Busted => 2,
        TestConclusion::Failed => 3,
    }
}

/// Run `a` comes before run `b` in the human report's order: it ranks
/// lower, or alike and came first.
pub open spec fn listed_before(cs: Seq<TestConclusion>, a: usize, b: usize) -> bool {
    conclusion_rank(cs[a as int]) < conclusion_rank(cs[b as int])
        || (conclusion_rank(cs[a as int]) == conclusion_rank(cs[b as int]) && a < b)
}

proof fn lemma_with_conclusion(cs: Seq<TestConclusion>, c: TestConclusion, k: int)
    requires
        0 <= k <= cs.len(),
        cs.len() <= usize::MAX,
    ensures
        forall|i: int| 0 <= i < with_conclusion(cs, c, k).len() ==> #[trigger] with_conclusion(cs, c, k)[i] < k
            && cs[with_conclusion(cs, c, k)[i] as int] == c,
        forall|i: int, j: int| 0 <= i < j < with_conclusion(cs, c, k).len()
            ==> with_conclusion(cs, c, k)[i] < with_conclusion(cs, c, k)[j],
        forall|t: int| 0 <= t < k && cs[t] == c ==> exists|i: int| 0 <= i < with_conclusion(cs, c, k).len()
            && with_conclusion(cs, c, k)[i] == t,
    decreases k,
{
    if k > 0 {
        lemma_with_conclusion(cs, c, k - 1);
        let prev = with_conclusion(cs, c, k - 1);
        if cs[k - 1] == c {
            let cur = prev.push((k - 1) as usize);
            assert(with_conclusion(cs, c, k) == cur);
            assert forall|t: int| 0 <= t < k && cs[t] == c implies exists|i: int| 0 <= i < cur.len() && cur[i] == t by {
                if t == k - 1 {
                    assert(cur[prev.len() as int] == t);
                } else {
                    let i = choose|i: int| 0 <= i < prev.len() && prev[i] == t;
                    assert(cur[i] == t);
                }
            }
        }
    }
}

/// The human report lists each run that was not skipped, once; those that
/// passed before those busted before those that failed, runs that
/// concluded alike in the order they came.
pub proof fn lemma_report_order(cs: Seq<TestConclusion>)
    requires
        cs.len() <= usize::MAX,
    ensures
        forall|i: int| 0 <= i < spec_report_order(cs).len() ==> #[trigger] spec_report_order(cs)[i] < cs.len()
            && cs[spec_report_order(cs)[i] as int] != TestConclusion::Skipped,
        forall|t: int| 0 <= t < cs.len() && cs[t] != TestConclusion::Skipped ==> exists|i: int| 0 <= i < spec_report_order(cs).len()
            && spec_report_order(cs)[i] == t,
        forall|i: int, j: int| #![trigger spec_report_order(cs)[i], spec_report_order(cs)[j]] 0 <= i < j < spec_report_order(cs).len()
            ==> listed_before(cs, spec_report_order(cs)[i], spec_report_order(cs)[j]),
{
    let n = cs.len() as int;
    let p = with_conclusion(cs, TestConclusion::Passed, n);
    let bu = with_conclusion(cs, TestConclusion::Busted, n);
    let f = with_conclusion(cs, TestConclusion::Failed, n);
    lemma_with_conclusion(cs, TestConclusion::Passed, n);
    lemma_with_conclusion(cs, TestConclusion::Busted, n);
    lemma_with_conclusion(cs, TestConclusion::Failed, n);
    let o = spec_report_order(cs);
    assert(o == p + bu + f);
    assert forall|i: int| 0 <= i < o.len() implies #[trigger] o[i] < cs.len() && cs[o[i] as int] != TestConclusion::Skipped by {
        if i < p.len() {
            assert(o[i] == p[i]);
        } else if i < p.len() + bu.len() {
            assert(o[i] == bu[i - p.len()]);
        } else {
            assert(o[i] == f[i - p.len() - bu.len()]);
        }
    }
    assert forall|t: int| 0 <= t < cs.len() && cs[t] != TestConclusion::Skipped implies exists|i: int| 0 <= i < o.len() && o[i] == t by {
        if cs[t] == TestConclusion::Passed {
            let i = choose|i: int| 0 <= i < p.len() && p[i] == t;
            assert(o[i] == t);
        } else if cs[t] == TestConclusion::Busted {
            let i = choose|i: int| 0 <= i < bu.len() && bu[i] == t;
            assert(o[p.len() + i] == t);
        } else {
            let i = choose|i: int| 0 <= i < f.len() && f[i] == t;
            assert(o[p.len() + bu.len() + i] == t);
        }
    }
    assert forall|i: int, j: int| #![trigger o[i], o[j]] 0 <= i < j < o.len() implies listed_before(cs, o[i], o[j]) by {
        let pl = p.len() as int;
        let bl = bu.len() as int;
        if i < pl {
            assert(o[i] == p[i]);
            if j < pl {
                assert(o[j] == p[j]);
            } else if j < pl + bl {
                assert(o[j] == bu[j - pl]);
            } else {
                assert(o[j] == f[j - pl - bl]);
            }
        } else if i < pl + bl {
            assert(o[i] == bu[i - pl]);
            if j < pl + bl {
                assert(o[j] == bu[j - pl]);
            } else {
                assert(o[j] == f[j - pl - bl]);
            }
        } else {
            assert(o[i] == f[i - pl - bl]);
            assert(o[j] == f[j - pl - bl]);
        }
    }
}

} // verus!
