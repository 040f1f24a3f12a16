use masklint::handlers::{Argument, Invocation};
use masklint::maskfile::{CommandNode, Script};
use masklint::run::{
    decimal_of, failure_summary, Action, Event, Failure, FailureKind, LintError,
    ProcessCommandContext, Run,
};

fn node(name: &str, script: Option<(&str, &str)>, subcommands: Vec<CommandNode>) -> CommandNode {
    CommandNode {
        name: name.to_string(),
        script: script.map(|(executor, source)| Script {
            executor: executor.to_string(),
            source: source.to_string(),
        }),
        subcommands,
    }
}

fn lint() -> ProcessCommandContext {
    ProcessCommandContext { is_dump: false, no_warnings: false }
}

fn dump() -> ProcessCommandContext {
    ProcessCommandContext { is_dump: true, no_warnings: false }
}

fn quiet() -> ProcessCommandContext {
    ProcessCommandContext { is_dump: false, no_warnings: true }
}

fn materialize(file_name: &str, content: &str) -> Action {
    Action::Materialize { file_name: file_name.to_string(), content: content.to_string() }
}

fn report(command_name: &str, message: &str) -> Action {
    Action::Report { command_name: command_name.to_string(), message: message.to_string() }
}

fn written(path: &str) -> Event {
    Event::Materialized { path: path.to_string() }
}

fn analyzed(output: &str) -> Event {
    Event::Analyzed { output: output.as_bytes().to_vec() }
}

fn failure(kind: FailureKind, cause: &str) -> Failure {
    Failure { kind, cause: cause.to_string() }
}

fn build_and_lint() -> Vec<CommandNode> {
    vec![node(
        "build",
        Some(("sh", "echo hi")),
        vec![node("lint", Some(("py", "print(1)")), vec![])],
    )]
}

#[test]
fn no_scripts_means_nothing_to_do() {
    let tree = vec![node("a", None, vec![node("b", None, vec![])]), node("c", None, vec![])];
    for context in [lint(), dump(), quiet()] {
        let run = Run::new(context, &tree);
        assert!(run.is_over());
        assert_eq!(run.findings(), 0);
        assert_eq!(run.action(), Action::Finish { findings: 0 });
    }
    let run = Run::new(lint(), &Vec::new());
    assert_eq!(run.action(), Action::Finish { findings: 0 });
}

#[test]
fn a_passing_shell_script_and_one_python_finding_count_one() {
    let run = Run::new(lint(), &build_and_lint());
    assert!(!run.is_over());
    assert_eq!(run.action(), materialize("build.sh", "#!/bin/usr/env sh\necho hi"));
    let (run, action) = run.step(written("/out/build.sh"));
    assert_eq!(
        action,
        Action::Analyze {
            invocation: Invocation {
                program: "shellcheck".to_string(),
                arguments: vec![Argument::ScriptPath],
            },
        }
    );
    let (run, action) = run.step(analyzed("\n"));
    assert_eq!(action, materialize("build_lint.py", "print(1)"));
    assert_eq!(run.findings(), 0);
    let (run, action) = run.step(written("/out/build_lint.py"));
    assert!(matches!(action, Action::Analyze { .. }));
    let output = "/out/build_lint.py:1:1: E999 broken\nFound 1 error.\n";
    let (run, action) = run.step(analyzed(output));
    assert_eq!(action, report("build lint", "line 1:1: E999 broken"));
    assert_eq!(run.findings(), 1);
    assert!(!run.is_over());
    let (run, action) = run.step(Event::Reported);
    assert_eq!(action, Action::Finish { findings: 1 });
    assert!(run.is_over());
    assert_eq!(run.findings(), 1);
}

#[test]
fn dumping_only_writes_the_files() {
    let run = Run::new(dump(), &build_and_lint());
    assert_eq!(run.action(), materialize("build.sh", "#!/bin/usr/env sh\necho hi"));
    let (run, action) = run.step(written("/out/build.sh"));
    assert_eq!(action, materialize("build_lint.py", "print(1)"));
    let (run, action) = run.step(written("/out/build_lint.py"));
    assert_eq!(action, Action::Finish { findings: 0 });
    assert!(run.is_over());
}

#[test]
fn dumping_twice_asks_for_the_same_files() {
    let mut rounds: Vec<Vec<Action>> = Vec::new();
    for _ in 0..2 {
        let mut asked = Vec::new();
        let mut run = Run::new(dump(), &build_and_lint());
        let mut action = run.action();
        while !run.is_over() {
            asked.push(action);
            let next = run.step(written("anywhere"));
            run = next.0;
            action = next.1;
        }
        asked.push(action);
        rounds.push(asked);
    }
    assert_eq!(rounds[0], rounds[1]);
    assert_eq!(rounds[0].len(), 3);
}

#[test]
fn an_unrecognized_executor_warns_without_an_analyzer() {
    let tree = vec![node("make", Some(("rs", "fn main() {}")), vec![node("x", Some(("sh", "")), vec![])])];
    let run = Run::new(lint(), &tree);
    assert_eq!(run.action(), materialize("make", "fn main() {}"));
    let (run, action) = run.step(written("/out/make"));
    assert_eq!(action, report("make", "no linter found for target"));
    assert_eq!(run.findings(), 0);
    let (run, action) = run.step(Event::Reported);
    assert_eq!(action, materialize("make_x.sh", "#!/bin/usr/env sh\n"));
    assert_eq!(run.findings(), 0);
}

#[test]
fn suppressed_warnings_are_not_reported() {
    let tree = vec![node("make", Some(("rs", "fn main() {}")), vec![])];
    let run = Run::new(quiet(), &tree);
    assert_eq!(run.action(), materialize("make", "fn main() {}"));
    let (run, action) = run.step(written("/out/make"));
    assert_eq!(action, Action::Finish { findings: 0 });
    assert!(run.is_over());
    assert_eq!(run.findings(), 0);
}

#[test]
fn suppressed_warnings_leave_findings_alone() {
    let tree = vec![node("a", Some(("nu", "ls")), vec![])];
    let run = Run::new(quiet(), &tree);
    let (run, _) = run.step(written("/out/a.nu"));
    let (run, action) = run.step(analyzed("file could not be parsed by nu-check\n"));
    assert_eq!(action, report("a", "file could not be parsed by nu-check"));
    let (_, action) = run.step(Event::Reported);
    assert_eq!(action, Action::Finish { findings: 1 });
}

#[test]
fn a_missing_analyzer_ends_the_run() {
    let tree = vec![
        node("a", Some(("rb", "puts 1")), vec![]),
        node("b", Some(("sh", "echo")), vec![]),
    ];
    let run = Run::new(lint(), &tree);
    let (run, _) = run.step(written("/out/a.rb"));
    let (run, action) = run.step(Event::AnalyzeFailed {
        failure: failure(FailureKind::NotFound, "No such file or directory (os error 2)"),
    });
    let error = LintError::MissingExecutable { handler: "rubocop".to_string() };
    assert_eq!(error.message(), "executable for rubocop not found in $PATH");
    assert_eq!(action, Action::Abort { error });
    assert!(run.is_over());
    let (run, action) = run.step(written("/out/b.sh"));
    assert!(matches!(action, Action::Abort { .. }));
    let (_, action) = run.step(Event::Reported);
    assert!(matches!(action, Action::Abort { .. }));
}

#[test]
fn another_analyzer_failure_is_an_io_failure() {
    let tree = vec![node("a", Some(("py", "")), vec![])];
    let run = Run::new(lint(), &tree);
    let (run, _) = run.step(written("/out/a.py"));
    let (_, action) = run.step(Event::AnalyzeFailed {
        failure: failure(FailureKind::Other, "Permission denied (os error 13)"),
    });
    let error = LintError::IoFailure { cause: "Permission denied (os error 13)".to_string() };
    assert_eq!(error.message(), "Permission denied (os error 13)");
    assert_eq!(action, Action::Abort { error });
}

#[test]
fn the_same_file_name_twice_is_a_collision() {
    let tree = vec![
        node("a", None, vec![node("b", Some(("sh", "first")), vec![])]),
        node("a b", Some(("bash", "second")), vec![]),
        node("c", Some(("sh", "third")), vec![]),
    ];
    for context in [lint(), dump()] {
        let dumping = context.is_dump;
        let run = Run::new(context, &tree);
        assert_eq!(run.action(), materialize("a_b.sh", "#!/bin/usr/env sh\nfirst"));
        let (mut run, mut action) = run.step(written("/out/a_b.sh"));
        if !dumping {
            let next = run.step(analyzed(""));
            run = next.0;
            action = next.1;
        }
        assert_eq!(action, materialize("a_b.sh", "#!/bin/usr/env bash\nsecond"));
        let (run, action) = run.step(Event::MaterializeFailed {
            failure: failure(FailureKind::AlreadyExists, "File exists (os error 17)"),
        });
        let error = LintError::FileCollision {
            file_name: "a_b.sh".to_string(),
            cause: "File exists (os error 17)".to_string(),
        };
        assert_eq!(error.message(), "File exists (os error 17)");
        assert_eq!(action, Action::Abort { error });
        assert!(run.is_over());
    }
}

#[test]
fn another_write_failure_is_an_io_failure() {
    let run = Run::new(dump(), &build_and_lint());
    for kind in [FailureKind::NotFound, FailureKind::Other] {
        let run = Run::new(dump(), &build_and_lint());
        let (_, action) = run.step(Event::MaterializeFailed { failure: failure(kind, "no") });
        assert_eq!(action, Action::Abort { error: LintError::IoFailure { cause: "no".to_string() } });
    }
    assert!(!run.is_over());
}

#[test]
fn an_event_that_answers_nothing_changes_nothing() {
    let run = Run::new(lint(), &build_and_lint());
    let first = run.action();
    let (run, action) = run.step(Event::Reported);
    assert_eq!(action, first);
    let (run, action) = run.step(analyzed("x"));
    assert_eq!(action, first);
    let (run, action) = run.step(Event::AnalyzeFailed { failure: failure(FailureKind::NotFound, "") });
    assert_eq!(action, first);
    let (run, second) = run.step(written("/out/build.sh"));
    let (run, action) = run.step(written("/out/build.sh"));
    assert_eq!(action, second);
    let (run, action) = run.step(Event::MaterializeFailed {
        failure: failure(FailureKind::AlreadyExists, ""),
    });
    assert_eq!(action, second);
    let (run, third) = run.step(analyzed("x"));
    assert_eq!(third, report("build", "x"));
    let (run, action) = run.step(analyzed("y"));
    assert_eq!(action, third);
    assert_eq!(run.findings(), 1);
    let (run, _) = run.step(Event::Reported);
    let (run, _) = run.step(written("/out/build_lint.py"));
    let (run, last) = run.step(analyzed(""));
    assert_eq!(last, Action::Finish { findings: 1 });
    let (_, action) = run.step(written("/out/again"));
    assert_eq!(action, last);
}

#[test]
fn output_that_is_not_utf8_is_read_with_replacement_characters() {
    let tree = vec![node("a", Some(("nu", "ls")), vec![])];
    let run = Run::new(lint(), &tree);
    let (run, _) = run.step(written("/out/a.nu"));
    let (_, action) = run.step(Event::Analyzed { output: vec![b' ', b'a', 0xff, b'b', b'\n'] });
    assert_eq!(action, report("a", "a\u{fffd}b"));
}

#[test]
fn the_path_that_was_reported_is_taken_out_of_the_output() {
    let tree = vec![node("a", Some(("sh", "echo $1")), vec![])];
    let run = Run::new(lint(), &tree);
    let (run, _) = run.step(written("/somewhere else/a.sh"));
    let (_, action) = run.step(analyzed("In /somewhere else/a.sh line 1:\necho $1\n"));
    assert_eq!(action, report("a", "In line 1:\necho $1"));
}

#[test]
fn a_maskfile_is_parsed_and_walked() {
    let content = "# Tasks\n\n## build\n\n> Builds\n\n~~~sh\necho hi\n~~~\n\n### build lint\n\n~~~py\nprint(1)\n~~~\n\n## docs\n\nNo script here.\n\n## other\n\n```rs\nfn main() {}\n```\n";
    let run = Run::process_maskfile(content.to_string(), dump());
    assert_eq!(run.action(), materialize("build.sh", "#!/bin/usr/env sh\necho hi\n"));
    let (run, action) = run.step(written("/out/build.sh"));
    assert_eq!(action, materialize("build_lint.py", "print(1)\n"));
    let (run, action) = run.step(written("/out/build_lint.py"));
    assert_eq!(action, materialize("other", "fn main() {}\n"));
    let (run, action) = run.step(written("/out/other"));
    assert_eq!(action, Action::Finish { findings: 0 });
    assert!(run.is_over());
}

#[test]
fn a_maskfile_without_commands_has_nothing_to_do() {
    for content in ["", "# Title only\n", "just text\n"] {
        let run = Run::process_maskfile(content.to_string(), lint());
        assert_eq!(run.action(), Action::Finish { findings: 0 }, "{:?}", content);
    }
}

#[test]
fn numbers_are_written_in_decimal() {
    for n in [0usize, 1, 9, 10, 11, 99, 100, 101, 1234567890, usize::MAX] {
        let digits: String = decimal_of(n).iter().collect();
        assert_eq!(digits, n.to_string());
    }
}

#[test]
fn the_summary_counts_the_files_with_failures() {
    assert_eq!(failure_summary(0), None);
    assert_eq!(failure_summary(1), Some("1 file with lint failures.".to_string()));
    assert_eq!(failure_summary(2), Some("2 files with lint failures.".to_string()));
    assert_eq!(failure_summary(10), Some("10 files with lint failures.".to_string()));
    assert_eq!(failure_summary(321), Some("321 files with lint failures.".to_string()));
}

#[test]
fn analyzer_text_is_settled_for_the_current_script() {
    let run = Run::new(lint(), &build_and_lint());
    let first = run.action();
    let (run, action) = run.analyzed_text("too early");
    assert_eq!(action, first);
    assert_eq!(run.findings(), 0);
    let (run, _) = run.step(written("/out/build.sh"));
    let (run, action) = run.analyzed_text("In /out/build.sh line 1:\nbad\n");
    assert_eq!(action, report("build", "In line 1:\nbad"));
    assert_eq!(run.findings(), 1);
    let (run, action) = run.analyzed_text("again");
    assert_eq!(action, report("build", "In line 1:\nbad"));
    assert_eq!(run.findings(), 1);
    let (run, _) = run.step(Event::Reported);
    let (run, _) = run.step(written("/out/build_lint.py"));
    let (run, action) = run.analyzed_text("Found 0 errors.\n");
    assert_eq!(action, Action::Finish { findings: 1 });
    let (_, action) = run.analyzed_text("late");
    assert_eq!(action, Action::Finish { findings: 1 });
}

#[test]
fn a_clean_shell_script_that_only_names_its_path_is_not_counted() {
    let tree = vec![node("a", Some(("sh", "echo")), vec![])];
    let run = Run::new(lint(), &tree);
    let (run, _) = run.step(written("/out/a.sh"));
    let (run, action) = run.step(analyzed("/out/a.sh "));
    assert_eq!(action, Action::Finish { findings: 0 });
    assert_eq!(run.findings(), 0);
}
