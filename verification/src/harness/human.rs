//! The human-readable report of a test session: a heading, a line for each
//! run that was not skipped (listed passed, then busted, then failed), the
//! functions of each run that got to its check, and the session's counts.
//!
//! The report is a list of pieces of text, each with the color it is shown
//! in.

use vstd::prelude::*;
use crate::text::{owned, push_str, push_char, push_decimal, decimal};
use crate::harness::report::{TestCheckMode, TestConclusion, TestRunMode, TestSummary, ReportColor, spec_verdict, verdict,
    spec_failed_step, failed_step, spec_summary_line, summary_line, spec_report_order, report_order, run_mode_rank, lemma_report_order};

verus! {

/// What the report shows of one function of a run: why its check failed,
/// and the minimized tests of the failure, if any.
pub struct SubtestLine {
    pub failure: Option<String>,
    /// The caller's and the callee's source of the minimized test.
    pub minimized: Option<(String, String)>,
}

/// What the report shows of a run's check.
pub struct SubtestsReport {
    pub all_passed: bool,
    /// Each function's full name.
    pub names: Vec<String>,
    pub results: Vec<SubtestLine>,
}

/// What the report shows of one run.
pub struct ReportEntry {
    /// The run's full name.
    pub name: String,
    pub conclusion: TestConclusion,
    pub check: TestCheckMode,
    pub ran_to: TestRunMode,
    /// The error of the step the run stopped at, written out.
    pub step_error: String,
    /// The check's results, if the run got to its check.
    pub subtests: Option<SubtestsReport>,
}

/// A piece of the report: its text and its color.
pub type Piece = (Seq<char>, ReportColor);

/// `n` spaces.
pub open spec fn spaces(n: nat) -> Seq<char> {
    Seq::new(n, |i: int| ' ')
}

/// `s` padded with spaces on the right to at least `w` characters.
pub open spec fn pad_right(s: Seq<char>, w: nat) -> Seq<char> {
    if s.len() >= w { s } else { s + spaces((w - s.len()) as nat) }
}

/// `s` padded with spaces on the left to at least `w` characters.
pub open spec fn pad_left(s: Seq<char>, w: nat) -> Seq<char> {
    if s.len() >= w { s } else { spaces((w - s.len()) as nat) + s }
}

/// A plain piece.
pub open spec fn plain(s: Seq<char>) -> Piece {
    (s, ReportColor::Plain)
}

/// The pieces of a function's line: its name padded to `width`, then
/// nothing more if its check passed, else `failed!`, the minimized test
/// and the failure.
pub open spec fn subtest_pieces(name: Seq<char>, width: nat, l: SubtestLine) -> Seq<Piece> {
    let head = seq![plain("  "@ + pad_right(name, width) + " "@)];
    match l.failure {
        None => head + seq![plain("\n"@)],
        Some(e) => head + seq![("failed!"@, ReportColor::Red), plain("\n"@)] + match l.minimized {
            Some((caller, callee)) => seq![plain("    "@), ("minimized to:"@, ReportColor::Blue), plain("\n"@),
                plain("      caller: "@), (caller@, ReportColor::Blue), plain("\n"@),
                plain("      callee: "@), (callee@, ReportColor::Blue), plain("\n"@)],
            None => Seq::empty(),
        } + seq![(e@, ReportColor::Red), plain("\n"@)],
    }
}

/// The number of functions paired with a result.
pub open spec fn pair_count(s: SubtestsReport) -> nat {
    if s.names@.len() <= s.results@.len() { s.names@.len() } else { s.results@.len() }
}

/// The length in UTF-8 bytes of a text.
pub open spec fn byte_len(s: Seq<char>) -> nat {
    vstd::utf8::encode_utf8(s).len()
}

/// The length, in UTF-8 bytes, of the longest of the first `k` names (the
/// width names are padded to, in characters).
pub open spec fn max_len(names: Seq<String>, k: int) -> nat
    decreases k,
{
    if k <= 0 || k > names.len() {
        0
    } else {
        let m = max_len(names, k - 1);
        if byte_len(names[k - 1]@) > m { byte_len(names[k - 1]@) } else { m }
    }
}

/// The number of the first `k` results that passed.
pub open spec fn lines_passed(results: Seq<SubtestLine>, k: int) -> nat
    decreases k,
{
    if k <= 0 || k > results.len() {
        0
    } else {
        lines_passed(results, k - 1) + if results[k - 1].failure is None { 1nat } else { 0nat }
    }
}

/// The lines of the first `k` functions.
pub open spec fn subtests_pieces(s: SubtestsReport, width: nat, k: int) -> Seq<Piece>
    decreases k,
{
    if k <= 0 {
        Seq::empty()
    } else {
        subtests_pieces(s, width, k - 1) + subtest_pieces(s.names@[k - 1]@, width, s.results@[k - 1])
    }
}

/// The pieces of a run's check: how many functions passed, and, unless
/// all did, a line for each, then an empty line.
pub open spec fn check_pieces(s: SubtestsReport) -> Seq<Piece> {
    let counts = seq![plain(" ("@ + pad_left(decimal(lines_passed(s.results@, s.results@.len() as int)), 3) + "/"@
        + pad_right(decimal(s.results@.len()), 3) + " passed)\n"@)];
    if s.all_passed {
        counts
    } else {
        counts + subtests_pieces(s, max_len(s.names@, s.names@.len() as int), pair_count(s) as int) + seq![plain("\n"@)]
    }
}

/// The pieces of a run that was not skipped: its name, padded, and its
/// verdict; for a run that should have passed and failed before its check,
/// the step it failed at and the step's error; then, for a run that got to
/// its check and was not busted, its check, else the end of its line.
pub open spec fn entry_pieces(e: ReportEntry) -> Seq<Piece> {
    match spec_verdict(e.conclusion, e.check) {
        None => Seq::empty(),
        Some(v) => {
            let head = seq![plain(pad_right(e.name@, 64) + " "@), v];
            let failed_early = e.conclusion == TestConclusion::Failed && e.check is Pass
                && run_mode_rank(e.ran_to) < run_mode_rank(TestRunMode::Check);
            let why: Seq<Piece> = if failed_early {
                seq![(" to "@, ReportColor::Red), (spec_failed_step(e.ran_to), ReportColor::Red), plain("\n"@),
                    plain("  "@), (e.step_error@, ReportColor::Red), plain("\n"@)]
            } else {
                Seq::empty()
            };
            let detailed = run_mode_rank(e.ran_to) >= run_mode_rank(TestRunMode::Check) && e.conclusion != TestConclusion::Busted;
            head + why + if !detailed {
                seq![plain("\n"@)]
            } else {
                match e.subtests {
                    Some(s) => check_pieces(s),
                    None => Seq::empty(),
                }
            }
        },
    }
}

/// The pieces of the runs at the first `k` positions of `order`.
pub open spec fn entries_pieces(entries: Seq<ReportEntry>, order: Seq<usize>, k: int) -> Seq<Piece>
    decreases k,
{
    if k <= 0 || k > order.len() {
        Seq::empty()
    } else {
        entries_pieces(entries, order, k - 1) + entry_pieces(entries[order[k - 1] as int])
    }
}

/// The conclusions of the runs.
pub open spec fn conclusions(entries: Seq<ReportEntry>) -> Seq<TestConclusion> {
    entries.map_values(|e: ReportEntry| e.conclusion)
}

/// The whole report: the heading `Final Results:`, the runs in the
/// report's order, an empty line and the session's counts.
pub open spec fn spec_report_pieces(entries: Seq<ReportEntry>, summary: TestSummary) -> Seq<Piece> {
    let order = spec_report_order(conclusions(entries));
    let (line, color) = spec_summary_line(summary);
    seq![plain("Final Results:\n"@)] + entries_pieces(entries, order, order.len() as int)
        + seq![plain("\n"@), (line + "\n"@, color)]
}

/// The text and color of each piece.
pub open spec fn pieces_view(v: Seq<(String, ReportColor)>) -> Seq<Piece> {
    v.map_values(|p: (String, ReportColor)| (p.0@, p.1))
}

/// Appends a piece.
fn push_piece(out: &mut Vec<(String, ReportColor)>, s: String, c: ReportColor)
    ensures
        pieces_view(final(out)@) == pieces_view(old(out)@).push((s@, c)),
{
    out.push((s, c));
    assert(pieces_view(out@) =~= pieces_view(old(out)@).push((s@, c)));
}

/// Appends `n` spaces.
fn push_spaces(s: &mut String, n: usize)
    ensures
        final(s)@ == old(s)@ + spaces(n as nat),
{
    let mut i: usize = 0;
    while i < n
        invariant
            i <= n,
            s@ == old(s)@ + spaces(i as nat),
        decreases n - i,
    {
        push_char(s, ' ');
        i = i + 1;
        assert(s@ =~= old(s)@ + spaces(i as nat));
    }
}

/// Appends `t` padded with spaces on the right to `w` characters.
fn push_padded_right(s: &mut String, t: &str, w: usize)
    ensures
        final(s)@ == old(s)@ + pad_right(t@, w as nat),
{
    let n = t.unicode_len();
    push_str(s, t);
    if n < w {
        push_spaces(s, w - n);
    }
    assert(s@ =~= old(s)@ + pad_right(t@, w as nat));
}

/// The pieces of a function's line.
fn push_subtest(out: &mut Vec<(String, ReportColor)>, name: &str, width: usize, l: &SubtestLine)
    ensures
        pieces_view(final(out)@) == pieces_view(old(out)@) + subtest_pieces(name@, width as nat, *l),
{
    let ghost p0 = pieces_view(out@);
    let mut head = owned("  ");
    push_padded_right(&mut head, name, width);
    push_str(&mut head, " ");
    push_piece(out, head, ReportColor::Plain);
    match &l.failure {
        None => {
            push_piece(out, owned("\n"), ReportColor::Plain);
        },
        Some(e) => {
            push_piece(out, owned("failed!"), ReportColor::Red);
            push_piece(out, owned("\n"), ReportColor::Plain);
            match &l.minimized {
                Some((caller, callee)) => {
                    push_piece(out, owned("    "), ReportColor::Plain);
                    push_piece(out, owned("minimized to:"), ReportColor::Blue);
                    push_piece(out, owned("\n"), ReportColor::Plain);
                    push_piece(out, owned("      caller: "), ReportColor::Plain);
                    push_piece(out, caller.clone(), ReportColor::Blue);
                    push_piece(out, owned("\n"), ReportColor::Plain);
                    push_piece(out, owned("      callee: "), ReportColor::Plain);
                    push_piece(out, callee.clone(), ReportColor::Blue);
                    push_piece(out, owned("\n"), ReportColor::Plain);
                },
                None => {},
            }
            push_piece(out, e.clone(), ReportColor::Red);
            push_piece(out, owned("\n"), ReportColor::Plain);
        },
    }
    assert(pieces_view(out@) =~= p0 + subtest_pieces(name@, width as nat, *l));
}

/// The pieces of a run's check.
fn push_check(out: &mut Vec<(String, ReportColor)>, s: &SubtestsReport)
    ensures
        pieces_view(final(out)@) == pieces_view(old(out)@) + check_pieces(*s),
{
    let ghost p0 = pieces_view(out@);
    let mut passed: usize = 0;
    let mut i: usize = 0;
    while i < s.results.len()
        invariant
            i <= s.results@.len(),
            passed == lines_passed(s.results@, i as int),
            passed <= i,
        decreases s.results@.len() - i,
    {
        if s.results[i].failure.is_none() {
            passed = passed + 1;
        }
        i = i + 1;
    }
    let mut counts = owned(" (");
    let mut num = String::new();
    push_decimal(&mut num, passed as u64);
    let nlen = num.as_str().unicode_len();
    if nlen < 3 {
        push_spaces(&mut counts, 3 - nlen);
    }
    push_str(&mut counts, num.as_str());
    push_str(&mut counts, "/");
    let mut total = String::new();
    push_decimal(&mut total, s.results.len() as u64);
    push_padded_right(&mut counts, total.as_str(), 3);
    push_str(&mut counts, " passed)\n");
    assert(counts@ =~= " ("@ + pad_left(decimal(lines_passed(s.results@, s.results@.len() as int)), 3) + "/"@
        + pad_right(decimal(s.results@.len()), 3) + " passed)\n"@);
    push_piece(out, counts, ReportColor::Plain);
    if s.all_passed {
        return;
    }
    let mut width: usize = 0;
    let mut j: usize = 0;
    while j < s.names.len()
        invariant
            j <= s.names@.len(),
            width == max_len(s.names@, j as int),
        decreases s.names@.len() - j,
    {
        let name = s.names[j].as_str();
        let n = name.as_bytes().len();
        assert(name@ == s.names@[j as int]@);
        assert(n == byte_len(s.names@[j as int]@));
        if n > width {
            width = n;
        }
        j = j + 1;
    }
    let ghost p1 = pieces_view(out@);
    let count = if s.names.len() <= s.results.len() { s.names.len() } else { s.results.len() };
    let mut k: usize = 0;
    while k < count
        invariant
            k <= count,
            count == pair_count(*s),
            count <= s.names@.len(),
            count <= s.results@.len(),
            pieces_view(out@) == p1 + subtests_pieces(*s, width as nat, k as int),
        decreases count - k,
    {
        push_subtest(out, s.names[k].as_str(), width, &s.results[k]);
        k = k + 1;
        assert(pieces_view(out@) =~= p1 + subtests_pieces(*s, width as nat, k as int));
    }
    push_piece(out, owned("\n"), ReportColor::Plain);
    assert(pieces_view(out@) =~= p0 + check_pieces(*s));
}

/// The pieces of one run.
fn push_entry(out: &mut Vec<(String, ReportColor)>, e: &ReportEntry)
    ensures
        pieces_view(final(out)@) == pieces_view(old(out)@) + entry_pieces(*e),
{
    let ghost p0 = pieces_view(out@);
    let (text, color) = match verdict(e.conclusion, e.check) {
        Some(v) => v,
        None => {
            assert(pieces_view(out@) =~= p0 + entry_pieces(*e));
            return;
        },
    };
    let mut head = String::new();
    push_padded_right(&mut head, e.name.as_str(), 64);
    push_str(&mut head, " ");
    push_piece(out, head, ReportColor::Plain);
    push_piece(out, owned(text), color);
    let failed_early = match (e.conclusion, e.check) {
        (TestConclusion::Failed, TestCheckMode::Pass(_)) => e.ran_to.rank() < TestRunMode::Check.rank(),
        _ => false,
    };
    if failed_early {
        push_piece(out, owned(" to "), ReportColor::Red);
        push_piece(out, owned(failed_step(e.ran_to)), ReportColor::Red);
        push_piece(out, owned("\n"), ReportColor::Plain);
        push_piece(out, owned("  "), ReportColor::Plain);
        push_piece(out, e.step_error.clone(), ReportColor::Red);
        push_piece(out, owned("\n"), ReportColor::Plain);
    }
    let detailed = e.ran_to.rank() >= TestRunMode::Check.rank() && e.conclusion != TestConclusion::Busted;
    if !detailed {
        push_piece(out, owned("\n"), ReportColor::Plain);
    } else {
        match &e.subtests {
            Some(s) => push_check(out, s),
            None => {},
        }
    }
    assert(pieces_view(out@) =~= p0 + entry_pieces(*e));
}

/// The human-readable report of a session's runs and counts, as pieces of
/// text with their colors: the heading `Final Results:`, each run that was
/// not skipped (passed, then busted, then failed, each in the order given),
/// an empty line, and the counts.
pub fn report_pieces(entries: &Vec<ReportEntry>, summary: &TestSummary) -> (r: Vec<(String, ReportColor)>)
    ensures
        pieces_view(r@) == spec_report_pieces(entries@, *summary),
{
    let mut cs: Vec<TestConclusion> = Vec::new();
    let mut i: usize = 0;
    while i < entries.len()
        invariant
            i <= entries@.len(),
            cs@ == conclusions(entries@).subrange(0, i as int),
        decreases entries@.len() - i,
    {
        cs.push(entries[i].conclusion);
        i = i + 1;
        assert(cs@ =~= conclusions(entries@).subrange(0, i as int));
    }
    assert(cs@ =~= conclusions(entries@));
    let order = report_order(&cs);
    proof { lemma_report_order(cs@); }
    let mut out: Vec<(String, ReportColor)> = Vec::new();
    push_piece(&mut out, owned("Final Results:\n"), ReportColor::Plain);
    let ghost p1 = pieces_view(out@);
    let mut k: usize = 0;
    while k < order.len()
        invariant
            k <= order@.len(),
            order@ == spec_report_order(conclusions(entries@)),
            forall|j: int| 0 <= j < order@.len() ==> (#[trigger] order@[j]) < entries@.len(),
            pieces_view(out@) == p1 + entries_pieces(entries@, order@, k as int),
        decreases order@.len() - k,
    {
        push_entry(&mut out, &entries[order[k]]);
        k = k + 1;
        assert(pieces_view(out@) =~= p1 + entries_pieces(entries@, order@, k as int));
    }
    push_piece(&mut out, owned("\n"), ReportColor::Plain);
    let (mut line, color) = summary_line(summary);
    push_str(&mut line, "\n");
    push_piece(&mut out, line, color);
    assert(pieces_view(out@) =~= spec_report_pieces(entries@, *summary));
    out
}

} // verus!
