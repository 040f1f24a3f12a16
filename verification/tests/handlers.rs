use masklint::handlers::{
    Argument, Catchall, Handler, Invocation, LanguageHandler, LintResult, LintResultType, Nushell,
    Rubocop, Ruff, Shellcheck,
};
use masklint::maskfile::Script;

fn script(executor: &str, source: &str) -> Script {
    Script { executor: executor.to_string(), source: source.to_string() }
}

fn text(argument: &str) -> Argument {
    Argument::Text(argument.to_string())
}

const OUTPUTS: [&str; 12] = [
    "",
    "\n",
    "  \n\t",
    "plain",
    "\nIn /tmp/x/build.sh line 2:\necho $1\n     ^-- SC2086 (info): Double quote.\n\n",
    "/tmp/x/build.sh /tmp/x/build.sh:1:1: x /tmp/x/build.sh",
    "/tmp/x/build.sh:1:8: F401 [*] `os` imported but unused\n  |\n1 | import os\n  |\nFound 1 error.\n[*] 1 fixable with the `--fix` option.\n",
    "Found 1 error.\n",
    " Found nothing\r\nsecond\r\nFound 2 errors.\nthird",
    "/tmp/x/build.sh:1:1: C: Style/FrozenStringLiteralComment: Missing comment.\nputs 'x'\n^\n\n1 file inspected, 1 offense detected\n",
    "\n1 file inspected, no offenses detected\n",
    "file could not be parsed by nu-check\n",
];

const PATH: &str = "/tmp/x/build.sh";

#[test]
fn lint_results_are_built_from_a_message() {
    let warning = LintResult::warning("careful".to_string());
    assert_eq!(warning.message, "careful");
    assert_eq!(warning.result_type, LintResultType::Warning);
    let findings = LintResult::findings("broken".to_string());
    assert_eq!(findings.message, "broken");
    assert_eq!(findings.result_type, LintResultType::Findings);
    let empty = LintResult::findings(String::new());
    assert_eq!(empty.message, "");
    assert_eq!(empty.result_type, LintResultType::Findings);
}

#[test]
fn executors_select_their_handlers() {
    assert_eq!(Handler::select("sh"), Handler::Shell);
    assert_eq!(Handler::select("bash"), Handler::Shell);
    assert_eq!(Handler::select("py"), Handler::Python);
    assert_eq!(Handler::select("python"), Handler::Python);
    assert_eq!(Handler::select("rb"), Handler::Ruby);
    assert_eq!(Handler::select("ruby"), Handler::Ruby);
    assert_eq!(Handler::select("nu"), Handler::Nushell);
    assert_eq!(Handler::select("nushell"), Handler::Nushell);
}

#[test]
fn other_executors_select_the_catchall() {
    for executor in ["", "rs", "SH", "Bash", "sh ", " sh", "zsh", "python3", "js", "nu\n"] {
        assert_eq!(Handler::select(executor), Handler::Catchall, "{:?}", executor);
    }
}

#[test]
fn handlers_have_names_and_extensions() {
    assert_eq!(Catchall.name(), "catchall");
    assert_eq!(Shellcheck.name(), "shellcheck");
    assert_eq!(Ruff.name(), "ruff");
    assert_eq!(Rubocop.name(), "rubocop");
    assert_eq!(Nushell.name(), "nushell");
    assert_eq!(Catchall.file_extension(), "");
    assert_eq!(Shellcheck.file_extension(), ".sh");
    assert_eq!(Ruff.file_extension(), ".py");
    assert_eq!(Rubocop.file_extension(), ".rb");
    assert_eq!(Nushell.file_extension(), ".nu");
    assert_eq!(Handler::Shell.name(), "shellcheck");
    assert_eq!(Handler::Python.name(), "ruff");
    assert_eq!(Handler::Ruby.name(), "rubocop");
    assert_eq!(Handler::Nushell.name(), "nushell");
    assert_eq!(Handler::Catchall.name(), "catchall");
    assert_eq!(Handler::Shell.file_extension(), ".sh");
    assert_eq!(Handler::Python.file_extension(), ".py");
    assert_eq!(Handler::Ruby.file_extension(), ".rb");
    assert_eq!(Handler::Nushell.file_extension(), ".nu");
    assert_eq!(Handler::Catchall.file_extension(), "");
}

#[test]
fn shell_scripts_get_a_first_line_that_names_the_executor() {
    assert_eq!(Shellcheck.content(&script("sh", "echo hi\n")), "#!/bin/usr/env sh\necho hi\n");
    assert_eq!(Shellcheck.content(&script("bash", "")), "#!/bin/usr/env bash\n");
    assert_eq!(
        Handler::Shell.content(&script("bash", "a\nb")),
        "#!/bin/usr/env bash\na\nb"
    );
}

#[test]
fn other_scripts_are_written_as_they_are() {
    let source = "  print(1)\n\n";
    assert_eq!(Ruff.content(&script("py", source)), source);
    assert_eq!(Rubocop.content(&script("rb", source)), source);
    assert_eq!(Nushell.content(&script("nu", source)), source);
    assert_eq!(Catchall.content(&script("rs", source)), source);
    assert_eq!(Handler::Python.content(&script("python", source)), source);
    assert_eq!(Handler::Catchall.content(&script("", "")), "");
}

#[test]
fn analyzers_are_invoked_with_their_arguments() {
    assert_eq!(
        Shellcheck.invocation(PATH),
        Some(Invocation { program: "shellcheck".to_string(), arguments: vec![Argument::ScriptPath] })
    );
    assert_eq!(
        Ruff.invocation(PATH),
        Some(Invocation {
            program: "ruff".to_string(),
            arguments: vec![
                text("check"),
                text("--output-format=full"),
                text("--no-cache"),
                text("--quiet"),
                Argument::ScriptPath,
            ],
        })
    );
    assert_eq!(
        Rubocop.invocation(PATH),
        Some(Invocation {
            program: "rubocop".to_string(),
            arguments: vec![
                text("--format=clang"),
                text("--display-style-guide"),
                Argument::ScriptPath,
            ],
        })
    );
    assert_eq!(
        Nushell.invocation(PATH),
        Some(Invocation {
            program: "nu".to_string(),
            arguments: vec![
                text("-c"),
                text("if not (nu-check /tmp/x/build.sh) { print 'file could not be parsed by nu-check' }"),
            ],
        })
    );
    assert_eq!(Handler::Nushell.invocation("a b"), Nushell.invocation("a b"));
    assert_eq!(Handler::Shell.invocation(PATH), Shellcheck.invocation(PATH));
}

#[test]
fn the_catchall_runs_nothing_and_warns() {
    assert_eq!(Catchall.invocation(PATH), None);
    assert_eq!(Handler::Catchall.invocation(PATH), None);
    for output in OUTPUTS {
        let result = Catchall.result(PATH, output);
        assert_eq!(result.message, "no linter found for target");
        assert_eq!(result.result_type, LintResultType::Warning);
        let result = Handler::Catchall.result(PATH, output);
        assert_eq!(result.message, "no linter found for target");
        assert_eq!(result.result_type, LintResultType::Warning);
    }
}

#[test]
fn shellcheck_output_loses_the_path() {
    for output in OUTPUTS {
        let expected = output.replace(&format!("{} ", PATH), "").trim().to_string();
        let result = Shellcheck.result(PATH, output);
        assert_eq!(result.message, expected, "{:?}", output);
        assert_eq!(result.result_type, LintResultType::Findings);
        assert_eq!(Handler::Shell.result(PATH, output).message, expected);
    }
    let result = Shellcheck.result(PATH, OUTPUTS[4]);
    assert_eq!(
        result.message,
        "In line 2:\necho $1\n     ^-- SC2086 (info): Double quote."
    );
    assert_eq!(Shellcheck.result(PATH, "\n").message, "");
}

#[test]
fn shellcheck_output_is_trimmed_after_the_path_is_taken_out() {
    assert_eq!(Shellcheck.result(PATH, "/tmp/x/build.sh ").message, "");
    assert_eq!(Shellcheck.result(PATH, " /tmp/x/build.sh \n").message, "");
    assert_eq!(Shellcheck.result(PATH, "In /tmp/x/build.sh \n").message, "In");
    assert_eq!(Shellcheck.result(PATH, "/tmp/x/build.sh line 1\n/tmp/x/build.sh ").message, "line 1");
    assert_eq!(Shellcheck.result(PATH, "/tmp/x/build.sh").message, "/tmp/x/build.sh");
    assert_eq!(Handler::Shell.result(PATH, "/tmp/x/build.sh ").message, "");
}

#[test]
fn ruff_output_stops_at_the_summary() {
    for output in OUTPUTS {
        let mut valid_lines: Vec<String> = vec![];
        for line in output.trim().lines() {
            if line.starts_with("Found ") {
                break;
            }
            valid_lines.push(line.replace(&format!("{}:", PATH), "line "));
        }
        let expected = valid_lines.join("\n").trim().to_string();
        let result = Ruff.result(PATH, output);
        assert_eq!(result.message, expected, "{:?}", output);
        assert_eq!(result.result_type, LintResultType::Findings);
        assert_eq!(Handler::Python.result(PATH, output).message, expected);
    }
    assert_eq!(
        Ruff.result(PATH, OUTPUTS[6]).message,
        "line 1:8: F401 [*] `os` imported but unused\n  |\n1 | import os\n  |"
    );
    assert_eq!(Ruff.result(PATH, "Found 1 error.\n").message, "");
    assert_eq!(Ruff.result(PATH, "").message, "");
}

#[test]
fn rubocop_output_loses_the_inspection_line() {
    for output in OUTPUTS {
        let expected = output
            .lines()
            .filter(|l| !l.contains("1 file inspected"))
            .collect::<Vec<&str>>()
            .join("\n")
            .trim()
            .replace(&format!("{}:", PATH), "line ");
        let result = Rubocop.result(PATH, output);
        assert_eq!(result.message, expected, "{:?}", output);
        assert_eq!(result.result_type, LintResultType::Findings);
        assert_eq!(Handler::Ruby.result(PATH, output).message, expected);
    }
    assert_eq!(
        Rubocop.result(PATH, OUTPUTS[9]).message,
        "line 1:1: C: Style/FrozenStringLiteralComment: Missing comment.\nputs 'x'\n^"
    );
    assert_eq!(Rubocop.result(PATH, OUTPUTS[10]).message, "");
}

#[test]
fn nushell_output_is_trimmed() {
    for output in OUTPUTS {
        let result = Nushell.result(PATH, output);
        assert_eq!(result.message, output.trim(), "{:?}", output);
        assert_eq!(result.result_type, LintResultType::Findings);
        assert_eq!(Handler::Nushell.result(PATH, output).message, output.trim());
    }
    assert_eq!(
        Nushell.result(PATH, OUTPUTS[11]).message,
        "file could not be parsed by nu-check"
    );
}
