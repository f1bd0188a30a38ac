use abi_cafe::harness::human::{report_pieces, ReportEntry, SubtestLine, SubtestsReport};
use abi_cafe::harness::report::{ReportColor, TestCheckMode, TestConclusion, TestRunMode, TestSummary};

fn entry(name: &str, conclusion: TestConclusion, ran_to: TestRunMode, subtests: Option<SubtestsReport>) -> ReportEntry {
    ReportEntry {
        name: name.to_owned(),
        conclusion,
        check: TestCheckMode::Pass(TestRunMode::Check),
        ran_to,
        step_error: "cc exploded".to_owned(),
        subtests,
    }
}

fn text(pieces: &[(String, ReportColor)]) -> String {
    pieces.iter().map(|(s, _)| s.as_str()).collect()
}

#[test]
fn report_pieces_follow_the_human_layout() {
    let failing = SubtestsReport {
        all_passed: false,
        names: vec!["t::f".to_owned(), "t::long_g".to_owned()],
        results: vec![
            SubtestLine { failure: None, minimized: None },
            SubtestLine {
                failure: Some("mismatch".to_owned()),
                minimized: Some(("caller.rs".to_owned(), "callee.c".to_owned())),
            },
        ],
    };
    let entries = vec![
        entry("broken", TestConclusion::Failed, TestRunMode::Build, None),
        entry("skipped", TestConclusion::Skipped, TestRunMode::Skip, None),
        entry("checked", TestConclusion::Failed, TestRunMode::Check, Some(failing)),
        entry(
            "fine",
            TestConclusion::Passed,
            TestRunMode::Check,
            Some(SubtestsReport { all_passed: true, names: vec!["a".to_owned()], results: vec![SubtestLine { failure: None, minimized: None }] }),
        ),
    ];
    let summary = TestSummary { num_tests: 4, num_passed: 1, num_busted: 0, num_failed: 2, num_skipped: 1 };
    let pieces = report_pieces(&entries, &summary);
    assert_eq!(pieces[0], ("Final Results:\n".to_owned(), ReportColor::Plain));
    let pad = |s: &str| format!("{s:<64} ");
    let expected = format!(
        "Final Results:\n\
         {}passed (  1/1   passed)\n\
         {}failed to compile source code\n  cc exploded\n\n\
         {}failed (  1/2   passed)\n  t::f      \n  t::long_g failed!\n    minimized to:\n      caller: caller.rs\n      callee: callee.c\nmismatch\n\n\
         \n4 test sets run - 1 passed, 0 busted, 2 failed, 1 skipped\n",
        pad("fine"),
        pad("broken"),
        pad("checked")
    );
    assert_eq!(text(&pieces), expected);
    let last = pieces.last().unwrap();
    assert_eq!(last.1, ReportColor::Red);
    assert!(pieces.contains(&("failed!".to_owned(), ReportColor::Red)));
    assert!(pieces.contains(&("callee.c".to_owned(), ReportColor::Blue)));
}
