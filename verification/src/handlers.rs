//! The language handlers: which file a script becomes, which analyzer is
//! run on it, and what the analyzer's output means.

use crate::maskfile::{Script, ScriptModel};
use crate::text::{
    chars_of, contains, equal, has_substring, join, joined, lines, lines_of, replace, replaced,
    starts_with, string_of, subrange, trim, trimmed,
};
use vstd::prelude::*;
use vstd::string::StringExecFns;

verus! {

/// How a lint result counts towards the outcome of a run.
#[derive(Debug, Clone, Copy, PartialEq, Eq, Structural)]
pub enum LintResultType {
    /// Shown unless warnings are suppressed; never counted.
    Warning,
    /// Shown and counted, unless the message is empty.
    Findings,
}

/// What a handler has to say about one script. An empty message means that
/// there is nothing to say.
#[derive(Debug)]
pub struct LintResult {
    pub message: String,
    pub result_type: LintResultType,
}

/// What a [`LintResult`] stands for.
pub struct LintResultModel {
    pub message: Seq<char>,
    pub result_type: LintResultType,
}

impl LintResultModel {
    /// Whether the result is shown to the user, given whether warnings are
    /// suppressed.
    pub open spec fn is_shown(self, no_warnings: bool) -> bool {
        self.message.len() > 0 && (self.result_type == LintResultType::Findings || !no_warnings)
    }

    /// Whether the result counts as one file with lint failures.
    pub open spec fn is_counted(self) -> bool {
        self.message.len() > 0 && self.result_type == LintResultType::Findings
    }
}

impl View for LintResult {
    type V = LintResultModel;

    open spec fn view(&self) -> LintResultModel {
        LintResultModel { message: self.message@, result_type: self.result_type }
    }
}

impl LintResult {
    /// A warning with the given message.
    pub fn warning(message: String) -> (result: Self)
        ensures
            result@ == (LintResultModel {
                message: message@,
                result_type: LintResultType::Warning,
            }),
    {
        LintResult { message, result_type: LintResultType::Warning }
    }

    /// Findings with the given message.
    pub fn findings(message: String) -> (result: Self)
        ensures
            result@ == (LintResultModel {
                message: message@,
                result_type: LintResultType::Findings,
            }),
    {
        LintResult { message, result_type: LintResultType::Findings }
    }
}

/// One argument of an analyzer's command line.
#[derive(Debug, PartialEq, Eq)]
pub enum Argument {
    /// The given text.
    Text(String),
    /// The path of the script's file, as the operating system knows it.
    ScriptPath,
}

/// An analyzer's command line.
#[derive(Debug, PartialEq, Eq)]
pub struct Invocation {
    /// The name of the executable, to be looked up in the search path.
    pub program: String,
    pub arguments: Vec<Argument>,
}

/// What an [`Argument`] stands for.
pub enum ArgumentModel {
    Text(Seq<char>),
    ScriptPath,
}

/// What an [`Invocation`] stands for.
pub struct InvocationModel {
    pub program: Seq<char>,
    pub arguments: Seq<ArgumentModel>,
}

impl View for Argument {
    type V = ArgumentModel;

    open spec fn view(&self) -> ArgumentModel {
        match self {
            Argument::Text(text) => ArgumentModel::Text(text@),
            Argument::ScriptPath => ArgumentModel::ScriptPath,
        }
    }
}

impl DeepView for Argument {
    type V = ArgumentModel;

    open spec fn deep_view(&self) -> ArgumentModel {
        self@
    }
}

impl View for Invocation {
    type V = InvocationModel;

    open spec fn view(&self) -> InvocationModel {
        InvocationModel { program: self.program@, arguments: self.arguments.deep_view() }
    }
}

impl DeepView for Invocation {
    type V = InvocationModel;

    open spec fn deep_view(&self) -> InvocationModel {
        self@
    }
}

/// What the library knows of one language: the file its scripts are
/// written to, the analyzer that checks them, and the meaning of the
/// analyzer's output.
pub trait LanguageHandler {
    /// The name under which the handler is shown to the user.
    spec fn spec_name(&self) -> Seq<char>;

    /// The suffix of the files that hold scripts of this language.
    spec fn spec_file_extension(&self) -> Seq<char>;

    /// The text of the file that holds `script`.
    spec fn spec_content(&self, script: ScriptModel) -> Seq<char>;

    /// The command line that checks the file at `path`, if the language has
    /// an analyzer.
    spec fn spec_invocation(&self, path: Seq<char>) -> Option<InvocationModel>;

    /// The result for the file at `path`, where `output` is what the
    /// analyzer wrote to its standard output. A handler without an analyzer
    /// has one result for all files.
    spec fn spec_result(&self, path: Seq<char>, output: Seq<char>) -> LintResultModel;

    /// The name under which the handler is shown to the user.
    fn name(&self) -> (name: &'static str)
        ensures
            name@ == self.spec_name(),
    ;

    /// The suffix of the files that hold scripts of this language.
    fn file_extension(&self) -> (extension: &'static str)
        ensures
            extension@ == self.spec_file_extension(),
    ;

    /// The text of the file that holds `script`.
    fn content(&self, script: &Script) -> (content: String)
        ensures
            content@ == self.spec_content(script@),
    ;

    /// The command line that checks the file at `path`, or `None` if the
    /// language has no analyzer.
    fn invocation(&self, path: &str) -> (invocation: Option<Invocation>)
        ensures
            invocation.deep_view() == self.spec_invocation(path@),
    ;

    /// Turns what the analyzer wrote to its standard output about the file
    /// at `path` into a result.
    fn result(&self, path: &str, output: &str) -> (result: LintResult)
        ensures
            result@ == self.spec_result(path@, output@),
    ;
}

/// A copy of `text`.
fn copy_of(text: &str) -> (copy: String)
    ensures
        copy@ == text@,
{
    String::from_str(text)
}

/// The handler of scripts in a language that has no analyzer.
#[derive(Debug, Clone, Copy)]
pub struct Catchall;

impl LanguageHandler for Catchall {
    open spec fn spec_name(&self) -> Seq<char> {
        "catchall"@
    }

    open spec fn spec_file_extension(&self) -> Seq<char> {
        ""@
    }

    open spec fn spec_content(&self, script: ScriptModel) -> Seq<char> {
        script.source
    }

    open spec fn spec_invocation(&self, path: Seq<char>) -> Option<InvocationModel> {
        None
    }

    open spec fn spec_result(&self, path: Seq<char>, output: Seq<char>) -> LintResultModel {
        LintResultModel {
            message: "no linter found for target"@,
            result_type: LintResultType::Warning,
        }
    }

    fn name(&self) -> (name: &'static str) {
        "catchall"
    }

    fn file_extension(&self) -> (extension: &'static str) {
        ""
    }

    fn content(&self, script: &Script) -> (content: String) {
        copy_of(script.source.as_str())
    }

    fn invocation(&self, path: &str) -> (invocation: Option<Invocation>) {
        None
    }

    fn result(&self, path: &str, output: &str) -> (result: LintResult) {
        LintResult::warning(copy_of("no linter found for target"))
    }
}

/// The handler of shell scripts, which are checked by `shellcheck`.
#[derive(Debug, Clone, Copy)]
pub struct Shellcheck;

impl LanguageHandler for Shellcheck {
    open spec fn spec_name(&self) -> Seq<char> {
        "shellcheck"@
    }

    open spec fn spec_file_extension(&self) -> Seq<char> {
        ".sh"@
    }

    /// The source below a line that names the executor, so that the
    /// analyzer can tell the dialect from the file alone.
    open spec fn spec_content(&self, script: ScriptModel) -> Seq<char> {
        "#!/bin/usr/env "@ + script.executor + seq!['\n'] + script.source
    }

    open spec fn spec_invocation(&self, path: Seq<char>) -> Option<InvocationModel> {
        Some(InvocationModel { program: "shellcheck"@, arguments: seq![ArgumentModel::ScriptPath] })
    }

    /// The output without the path and the space after it, wherever the
    /// two occur, and then trimmed.
    open spec fn spec_result(&self, path: Seq<char>, output: Seq<char>) -> LintResultModel {
        LintResultModel {
            message: trimmed(replaced(output, path.push(' '), Seq::empty())),
            result_type: LintResultType::Findings,
        }
    }

    fn name(&self) -> (name: &'static str) {
        "shellcheck"
    }

    fn file_extension(&self) -> (extension: &'static str) {
        ".sh"
    }

    fn content(&self, script: &Script) -> (content: String) {
        let mut line_feed: Vec<char> = Vec::new();
        line_feed.push('\n');
        assert(line_feed@ == seq!['\n']);
        let mut content = copy_of("#!/bin/usr/env ");
        content.append(script.executor.as_str());
        content.append(string_of(&line_feed).as_str());
        content.append(script.source.as_str());
        content
    }

    fn invocation(&self, path: &str) -> (invocation: Option<Invocation>) {
        let mut arguments: Vec<Argument> = Vec::new();
        arguments.push(Argument::ScriptPath);
        assert(arguments.deep_view() == seq![ArgumentModel::ScriptPath]);
        Some(Invocation { program: copy_of("shellcheck"), arguments })
    }

    fn result(&self, path: &str, output: &str) -> (result: LintResult) {
        let mut pattern = chars_of(path);
        pattern.push(' ');
        let nothing: Vec<char> = Vec::new();
        let message = trim(&replace(&chars_of(output), &pattern, &nothing));
        LintResult::findings(string_of(&message))
    }
}

/// The lines before the first one that begins with `Found `, which is where
/// `ruff` sums up what it found.
pub open spec fn lines_before_summary(lines: Seq<Seq<char>>) -> Seq<Seq<char>>
    decreases lines.len(),
{
    if lines.len() == 0 || "Found "@.is_prefix_of(lines.first()) {
        Seq::empty()
    } else {
        seq![lines.first()] + lines_before_summary(lines.drop_first())
    }
}

/// The handler of Python scripts, which are checked by `ruff`.
#[derive(Debug, Clone, Copy)]
pub struct Ruff;

impl LanguageHandler for Ruff {
    open spec fn spec_name(&self) -> Seq<char> {
        "ruff"@
    }

    open spec fn spec_file_extension(&self) -> Seq<char> {
        ".py"@
    }

    open spec fn spec_content(&self, script: ScriptModel) -> Seq<char> {
        script.source
    }

    open spec fn spec_invocation(&self, path: Seq<char>) -> Option<InvocationModel> {
        Some(
            InvocationModel {
                program: "ruff"@,
                arguments: seq![
                    ArgumentModel::Text("check"@),
                    ArgumentModel::Text("--output-format=full"@),
                    ArgumentModel::Text("--no-cache"@),
                    ArgumentModel::Text("--quiet"@),
                    ArgumentModel::ScriptPath,
                ],
            },
        )
    }

    /// The lines of the trimmed output up to the summary, with `line ` in
    /// place of the path and the colon after it, joined again and trimmed.
    open spec fn spec_result(&self, path: Seq<char>, output: Seq<char>) -> LintResultModel {
        let lines = lines_before_summary(lines_of(trimmed(output)));
        let rewritten = lines.map_values(|line: Seq<char>| replaced(line, path.push(':'), "line "@));
        LintResultModel {
            message: trimmed(joined(rewritten, seq!['\n'])),
            result_type: LintResultType::Findings,
        }
    }

    fn name(&self) -> (name: &'static str) {
        "ruff"
    }

    fn file_extension(&self) -> (extension: &'static str) {
        ".py"
    }

    fn content(&self, script: &Script) -> (content: String) {
        copy_of(script.source.as_str())
    }

    fn invocation(&self, path: &str) -> (invocation: Option<Invocation>) {
        let mut arguments: Vec<Argument> = Vec::new();
        arguments.push(Argument::Text(copy_of("check")));
        arguments.push(Argument::Text(copy_of("--output-format=full")));
        arguments.push(Argument::Text(copy_of("--no-cache")));
        arguments.push(Argument::Text(copy_of("--quiet")));
        arguments.push(Argument::ScriptPath);
        assert(arguments.deep_view() == seq![
            ArgumentModel::Text("check"@),
            ArgumentModel::Text("--output-format=full"@),
            ArgumentModel::Text("--no-cache"@),
            ArgumentModel::Text("--quiet"@),
            ArgumentModel::ScriptPath,
        ]);
        Some(Invocation { program: copy_of("ruff"), arguments })
    }

    fn result(&self, path: &str, output: &str) -> (result: LintResult) {
        let all = lines(&trim(&chars_of(output)));
        let mut pattern = chars_of(path);
        pattern.push(':');
        let replacement = chars_of("line ");
        let summary = chars_of("Found ");
        let mut line_feed: Vec<char> = Vec::new();
        line_feed.push('\n');
        assert(line_feed@ == seq!['\n']);
        let ghost rewrite = |line: Seq<char>| replaced(line, path@.push(':'), "line "@);
        let mut valid: Vec<Vec<char>> = Vec::new();
        let mut k: usize = 0;
        assert(all.deep_view().skip(0) == all.deep_view());
        assert(valid.deep_view() == all.deep_view().take(0).map_values(rewrite));
        assert(all.deep_view().take(0) + lines_before_summary(all.deep_view()) == lines_before_summary(all.deep_view()));
        loop
            invariant
                k <= all.len(),
                pattern@ == path@.push(':'),
                replacement@ == "line "@,
                summary@ == "Found "@,
                rewrite == |line: Seq<char>| replaced(line, path@.push(':'), "line "@),
                valid.deep_view() == all.deep_view().take(k as int).map_values(rewrite),
                lines_before_summary(all.deep_view()) == all.deep_view().take(k as int)
                    + lines_before_summary(all.deep_view().skip(k as int)),
            ensures
                lines_before_summary(all.deep_view()) == all.deep_view().take(k as int),
            decreases all.len() - k,
        {
            let ghost rest = all.deep_view().skip(k as int);
            if k == all.len() {
                assert(all.deep_view().take(k as int) + rest == all.deep_view().take(k as int));
                break;
            }
            assert(rest.first() == all[k as int]@);
            assert(all[k as int].deep_view() == all[k as int]@);
            if starts_with(&all[k], &summary) {
                assert(all.deep_view().take(k as int) + Seq::<Seq<char>>::empty()
                    == all.deep_view().take(k as int));
                break;
            }
            let line = replace(&all[k], &pattern, &replacement);
            assert(line.deep_view() == line@);
            let ghost before = valid.deep_view();
            valid.push(line);
            assert(valid.deep_view() == before.push(line@));
            assert(all.deep_view().take(k + 1) == all.deep_view().take(k as int).push(all[k as int]@));
            assert(all.deep_view().take(k + 1).map_values(rewrite) == all.deep_view().take(
                k as int,
            ).map_values(rewrite).push(rewrite(all[k as int]@)));
            assert(rest.drop_first() == all.deep_view().skip(k + 1));
            assert(all.deep_view().take(k as int) + (seq![rest.first()] + lines_before_summary(
                rest.drop_first(),
            )) == all.deep_view().take(k + 1) + lines_before_summary(rest.drop_first()));
            k += 1;
        }
        assert(lines_before_summary(all.deep_view()) == all.deep_view().take(k as int));
        let message = trim(&join(&valid, &line_feed));
        LintResult::findings(string_of(&message))
    }
}

/// Whether `line` is not the one in which `rubocop` says that it has
/// inspected the file.
pub open spec fn is_offense_line(line: Seq<char>) -> bool {
    !has_substring(line, "1 file inspected"@)
}

/// The handler of Ruby scripts, which are checked by `rubocop`.
#[derive(Debug, Clone, Copy)]
pub struct Rubocop;

impl LanguageHandler for Rubocop {
    open spec fn spec_name(&self) -> Seq<char> {
        "rubocop"@
    }

    open spec fn spec_file_extension(&self) -> Seq<char> {
        ".rb"@
    }

    open spec fn spec_content(&self, script: ScriptModel) -> Seq<char> {
        script.source
    }

    open spec fn spec_invocation(&self, path: Seq<char>) -> Option<InvocationModel> {
        Some(
            InvocationModel {
                program: "rubocop"@,
                arguments: seq![
                    ArgumentModel::Text("--format=clang"@),
                    ArgumentModel::Text("--display-style-guide"@),
                    ArgumentModel::ScriptPath,
                ],
            },
        )
    }

    /// The lines of the output but those that say `1 file inspected`,
    /// joined again and trimmed, with `line ` in place of the path and the
    /// colon after it.
    open spec fn spec_result(&self, path: Seq<char>, output: Seq<char>) -> LintResultModel {
        let lines = lines_of(output).filter(|line: Seq<char>| is_offense_line(line));
        LintResultModel {
            message: replaced(trimmed(joined(lines, seq!['\n'])), path.push(':'), "line "@),
            result_type: LintResultType::Findings,
        }
    }

    fn name(&self) -> (name: &'static str) {
        "rubocop"
    }

    fn file_extension(&self) -> (extension: &'static str) {
        ".rb"
    }

    fn content(&self, script: &Script) -> (content: String) {
        copy_of(script.source.as_str())
    }

    fn invocation(&self, path: &str) -> (invocation: Option<Invocation>) {
        let mut arguments: Vec<Argument> = Vec::new();
        arguments.push(Argument::Text(copy_of("--format=clang")));
        arguments.push(Argument::Text(copy_of("--display-style-guide")));
        arguments.push(Argument::ScriptPath);
        assert(arguments.deep_view() == seq![
            ArgumentModel::Text("--format=clang"@),
            ArgumentModel::Text("--display-style-guide"@),
            ArgumentModel::ScriptPath,
        ]);
        Some(Invocation { program: copy_of("rubocop"), arguments })
    }

    fn result(&self, path: &str, output: &str) -> (result: LintResult) {
        let all = lines(&chars_of(output));
        let marker = chars_of("1 file inspected");
        let mut pattern = chars_of(path);
        pattern.push(':');
        let replacement = chars_of("line ");
        let mut line_feed: Vec<char> = Vec::new();
        line_feed.push('\n');
        assert(line_feed@ == seq!['\n']);
        let ghost keep = |line: Seq<char>| is_offense_line(line);
        let mut kept: Vec<Vec<char>> = Vec::new();
        let mut k: usize = 0;
        proof {
            reveal(Seq::filter);
            assert(kept.deep_view() == all.deep_view().take(0).filter(keep));
        }
        while k < all.len()
            invariant
                k <= all.len(),
                marker@ == "1 file inspected"@,
                keep == |line: Seq<char>| is_offense_line(line),
                kept.deep_view() == all.deep_view().take(k as int).filter(keep),
            decreases all.len() - k,
        {
            let ghost before = kept.deep_view();
            assert(all[k as int].deep_view() == all[k as int]@);
            assert(all.deep_view().take(k + 1).drop_last() == all.deep_view().take(k as int));
            assert(all.deep_view().take(k + 1).last() == all[k as int]@);
            proof {
                reveal(Seq::filter);
            }
            if !contains(&all[k], &marker) {
                let line = subrange(&all[k], 0, all[k].len());
                assert(line@ == all[k as int]@);
                assert(line.deep_view() == line@);
                kept.push(line);
                assert(kept.deep_view() == before.push(all[k as int]@));
            }
            k += 1;
        }
        assert(all.deep_view().take(all.len() as int) == all.deep_view());
        let message = replace(&trim(&join(&kept, &line_feed)), &pattern, &replacement);
        LintResult::findings(string_of(&message))
    }
}

/// The handler of Nushell scripts, which `nu` checks itself.
#[derive(Debug, Clone, Copy)]
pub struct Nushell;

impl LanguageHandler for Nushell {
    open spec fn spec_name(&self) -> Seq<char> {
        "nushell"@
    }

    open spec fn spec_file_extension(&self) -> Seq<char> {
        ".nu"@
    }

    open spec fn spec_content(&self, script: ScriptModel) -> Seq<char> {
        script.source
    }

    /// `nu` is asked to parse the file and to print one fixed sentence if
    /// it cannot.
    open spec fn spec_invocation(&self, path: Seq<char>) -> Option<InvocationModel> {
        Some(
            InvocationModel {
                program: "nu"@,
                arguments: seq![
                    ArgumentModel::Text("-c"@),
                    ArgumentModel::Text(
                        "if not (nu-check "@ + path
                            + ") { print 'file could not be parsed by nu-check' }"@,
                    ),
                ],
            },
        )
    }

    /// The trimmed output.
    open spec fn spec_result(&self, path: Seq<char>, output: Seq<char>) -> LintResultModel {
        LintResultModel { message: trimmed(output), result_type: LintResultType::Findings }
    }

    fn name(&self) -> (name: &'static str) {
        "nushell"
    }

    fn file_extension(&self) -> (extension: &'static str) {
        ".nu"
    }

    fn content(&self, script: &Script) -> (content: String) {
        copy_of(script.source.as_str())
    }

    fn invocation(&self, path: &str) -> (invocation: Option<Invocation>) {
        let mut check = copy_of("if not (nu-check ");
        check.append(path);
        check.append(") { print 'file could not be parsed by nu-check' }");
        let mut arguments: Vec<Argument> = Vec::new();
        arguments.push(Argument::Text(copy_of("-c")));
        arguments.push(Argument::Text(check));
        assert(arguments.deep_view() == seq![
            ArgumentModel::Text("-c"@),
            ArgumentModel::Text(
                "if not (nu-check "@ + path@ + ") { print 'file could not be parsed by nu-check' }"@,
            ),
        ]);
        Some(Invocation { program: copy_of("nu"), arguments })
    }

    fn result(&self, path: &str, output: &str) -> (result: LintResult) {
        LintResult::findings(string_of(&trim(&chars_of(output))))
    }
}

/// The handlers there are, one for each language that is told apart.
#[derive(Debug, Clone, Copy, PartialEq, Eq, Structural)]
pub enum Handler {
    Shell,
    Python,
    Ruby,
    Nushell,
    Catchall,
}

impl Handler {
    /// The handler of the scripts that are tagged with `executor`. The tag
    /// is compared letter for letter; a tag that is not known has the
    /// catchall.
    pub open spec fn spec_select(executor: Seq<char>) -> Handler {
        if executor == "sh"@ || executor == "bash"@ {
            Handler::Shell
        } else if executor == "py"@ || executor == "python"@ {
            Handler::Python
        } else if executor == "rb"@ || executor == "ruby"@ {
            Handler::Ruby
        } else if executor == "nu"@ || executor == "nushell"@ {
            Handler::Nushell
        } else {
            Handler::Catchall
        }
    }

    /// The handler of the scripts that are tagged with `executor`.
    pub fn select(executor: &str) -> (handler: Handler)
        ensures
            handler == Handler::spec_select(executor@),
    {
        let tag = chars_of(executor);
        if equal(&tag, &chars_of("sh")) || equal(&tag, &chars_of("bash")) {
            Handler::Shell
        } else if equal(&tag, &chars_of("py")) || equal(&tag, &chars_of("python")) {
            Handler::Python
        } else if equal(&tag, &chars_of("rb")) || equal(&tag, &chars_of("ruby")) {
            Handler::Ruby
        } else if equal(&tag, &chars_of("nu")) || equal(&tag, &chars_of("nushell")) {
            Handler::Nushell
        } else {
            Handler::Catchall
        }
    }
}

impl LanguageHandler for Handler {
    open spec fn spec_name(&self) -> Seq<char> {
        match self {
            Handler::Shell => Shellcheck.spec_name(),
            Handler::Python => Ruff.spec_name(),
            Handler::Ruby => Rubocop.spec_name(),
            Handler::Nushell => Nushell.spec_name(),
            Handler::Catchall => Catchall.spec_name(),
        }
    }

    open spec fn spec_file_extension(&self) -> Seq<char> {
        match self {
            Handler::Shell => Shellcheck.spec_file_extension(),
            Handler::Python => Ruff.spec_file_extension(),
            Handler::Ruby => Rubocop.spec_file_extension(),
            Handler::Nushell => Nushell.spec_file_extension(),
            Handler::Catchall => Catchall.spec_file_extension(),
        }
    }

    open spec fn spec_content(&self, script: ScriptModel) -> Seq<char> {
        match self {
            Handler::Shell => Shellcheck.spec_content(script),
            Handler::Python => Ruff.spec_content(script),
            Handler::Ruby => Rubocop.spec_content(script),
            Handler::Nushell => Nushell.spec_content(script),
            Handler::Catchall => Catchall.spec_content(script),
        }
    }

    open spec fn spec_invocation(&self, path: Seq<char>) -> Option<InvocationModel> {
        match self {
            Handler::Shell => Shellcheck.spec_invocation(path),
            Handler::Python => Ruff.spec_invocation(path),
            Handler::Ruby => Rubocop.spec_invocation(path),
            Handler::Nushell => Nushell.spec_invocation(path),
            Handler::Catchall => Catchall.spec_invocation(path),
        }
    }

    open spec fn spec_result(&self, path: Seq<char>, output: Seq<char>) -> LintResultModel {
        match self {
            Handler::Shell => Shellcheck.spec_result(path, output),
            Handler::Python => Ruff.spec_result(path, output),
            Handler::Ruby => Rubocop.spec_result(path, output),
            Handler::Nushell => Nushell.spec_result(path, output),
            Handler::Catchall => Catchall.spec_result(path, output),
        }
    }

    fn name(&self) -> (name: &'static str) {
        match self {
            Handler::Shell => Shellcheck.name(),
            Handler::Python => Ruff.name(),
            Handler::Ruby => Rubocop.name(),
            Handler::Nushell => Nushell.name(),
            Handler::Catchall => Catchall.name(),
        }
    }

    fn file_extension(&self) -> (extension: &'static str) {
        match self {
            Handler::Shell => Shellcheck.file_extension(),
            Handler::Python => Ruff.file_extension(),
            Handler::Ruby => Rubocop.file_extension(),
            Handler::Nushell => Nushell.file_extension(),
            Handler::Catchall => Catchall.file_extension(),
        }
    }

    fn content(&self, script: &Script) -> (content: String) {
        match self {
            Handler::Shell => Shellcheck.content(script),
            Handler::Python => Ruff.content(script),
            Handler::Ruby => Rubocop.content(script),
            Handler::Nushell => Nushell.content(script),
            Handler::Catchall => Catchall.content(script),
        }
    }

    fn invocation(&self, path: &str) -> (invocation: Option<Invocation>) {
        match self {
            Handler::Shell => Shellcheck.invocation(path),
            Handler::Python => Ruff.invocation(path),
            Handler::Ruby => Rubocop.invocation(path),
            Handler::Nushell => Nushell.invocation(path),
            Handler::Catchall => Catchall.invocation(path),
        }
    }

    fn result(&self, path: &str, output: &str) -> (result: LintResult) {
        match self {
            Handler::Shell => Shellcheck.result(path, output),
            Handler::Python => Ruff.result(path, output),
            Handler::Ruby => Rubocop.result(path, output),
            Handler::Nushell => Nushell.result(path, output),
            Handler::Catchall => Catchall.result(path, output),
        }
    }
}

} // verus!
