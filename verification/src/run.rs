//! A run over the script files of a maskfile, one step at a time.
//!
//! The library decides and the caller acts: a [`Run`] names the next
//! [`Action`], the caller performs it and reports what happened as an
//! [`Event`], and the run moves on.

use crate::handlers::{
    Invocation, InvocationModel, LanguageHandler, LintResult, LintResultModel, LintResultType,
};
use crate::maskfile::{parse_commands, parsed_commands, CommandNode};
use crate::walker::{process_commands, script_files_all, ScriptFile, ScriptFileModel};
use vstd::prelude::*;
use vstd::string::{StrSliceExecFns, StringExecFns};

verus! {

/// What holds for a whole run.
#[derive(Debug, Clone, Copy, PartialEq, Eq, Structural)]
pub struct ProcessCommandContext {
    /// Whether the scripts are only written to files and not analyzed.
    pub is_dump: bool,
    /// Whether warnings are kept from the user.
    pub no_warnings: bool,
}

/// The kinds of failure that the library tells apart.
#[derive(Debug, Clone, Copy, PartialEq, Eq, Structural)]
pub enum FailureKind {
    /// What was looked for is not there.
    NotFound,
    /// What was to be created is there already.
    AlreadyExists,
    /// Anything else.
    Other,
}

/// Why an action could not be performed.
#[derive(Debug)]
pub struct Failure {
    pub kind: FailureKind,
    /// The cause in words, for the user.
    pub cause: String,
}

/// What a [`Failure`] stands for.
pub struct FailureModel {
    pub kind: FailureKind,
    pub cause: Seq<char>,
}

impl View for Failure {
    type V = FailureModel;

    open spec fn view(&self) -> FailureModel {
        FailureModel { kind: self.kind, cause: self.cause@ }
    }
}

/// What the caller reports after it has tried the action that was asked
/// for.
#[derive(Debug)]
pub enum Event {
    /// The file was created and written; `path` is where it is.
    Materialized { path: String },
    /// The file could not be created or written.
    MaterializeFailed { failure: Failure },
    /// The analyzer has run; `output` is what it wrote to its standard
    /// output.
    Analyzed { output: Vec<u8> },
    /// The analyzer could not be run.
    AnalyzeFailed { failure: Failure },
    /// The report was shown.
    Reported,
}

/// What an [`Event`] stands for.
pub enum EventModel {
    Materialized { path: Seq<char> },
    MaterializeFailed { failure: FailureModel },
    Analyzed { output: Seq<u8> },
    AnalyzeFailed { failure: FailureModel },
    Reported,
}

impl View for Event {
    type V = EventModel;

    open spec fn view(&self) -> EventModel {
        match self {
            Event::Materialized { path } => EventModel::Materialized { path: path@ },
            Event::MaterializeFailed { failure } => EventModel::MaterializeFailed {
                failure: failure@,
            },
            Event::Analyzed { output } => EventModel::Analyzed { output: output@ },
            Event::AnalyzeFailed { failure } => EventModel::AnalyzeFailed { failure: failure@ },
            Event::Reported => EventModel::Reported,
        }
    }
}

/// Why a run was given up.
#[derive(Debug, PartialEq, Eq)]
pub enum LintError {
    /// The analyzer of the named handler is not installed.
    MissingExecutable { handler: String },
    /// The file for a script was there already, as it is where two
    /// commands stand for the same file name.
    FileCollision { file_name: String, cause: String },
    /// Any other failure of input or output.
    IoFailure { cause: String },
}

/// What a [`LintError`] stands for.
pub enum LintErrorModel {
    MissingExecutable { handler: Seq<char> },
    FileCollision { file_name: Seq<char>, cause: Seq<char> },
    IoFailure { cause: Seq<char> },
}

impl LintErrorModel {
    /// The one line that tells the user of the error.
    pub open spec fn message(self) -> Seq<char> {
        match self {
            LintErrorModel::MissingExecutable { handler } => "executable for "@ + handler
                + " not found in $PATH"@,
            LintErrorModel::FileCollision { file_name, cause } => cause,
            LintErrorModel::IoFailure { cause } => cause,
        }
    }
}

impl View for LintError {
    type V = LintErrorModel;

    open spec fn view(&self) -> LintErrorModel {
        match self {
            LintError::MissingExecutable { handler } => LintErrorModel::MissingExecutable {
                handler: handler@,
            },
            LintError::FileCollision { file_name, cause } => LintErrorModel::FileCollision {
                file_name: file_name@,
                cause: cause@,
            },
            LintError::IoFailure { cause } => LintErrorModel::IoFailure { cause: cause@ },
        }
    }
}

impl LintError {
    /// The one line that tells the user of the error.
    pub fn message(&self) -> (message: String)
        ensures
            message@ == self@.message(),
    {
        match self {
            LintError::MissingExecutable { handler } => {
                let mut message = String::from_str("executable for ");
                message.append(handler.as_str());
                message.append(" not found in $PATH");
                message
            },
            LintError::FileCollision { file_name, cause } => String::from_str(cause.as_str()),
            LintError::IoFailure { cause } => String::from_str(cause.as_str()),
        }
    }
}

/// The decimal digit for `d`.
pub open spec fn digit(d: nat) -> char {
    if d == 0 {
        '0'
    } else if d == 1 {
        '1'
    } else if d == 2 {
        '2'
    } else if d == 3 {
        '3'
    } else if d == 4 {
        '4'
    } else if d == 5 {
        '5'
    } else if d == 6 {
        '6'
    } else if d == 7 {
        '7'
    } else if d == 8 {
        '8'
    } else {
        '9'
    }
}

/// `n` written in decimal digits.
pub open spec fn decimal(n: nat) -> Seq<char>
    decreases n,
{
    if n < 10 {
        seq![digit(n)]
    } else {
        decimal(n / 10).push(digit(n % 10))
    }
}

/// What the user is told at the end of a run that counted `findings`
/// files with lint failures: nothing if there are none.
pub open spec fn summary(findings: nat) -> Option<Seq<char>> {
    if findings == 0 {
        None
    } else if findings == 1 {
        Some(decimal(findings) + " file"@ + " with lint failures."@)
    } else {
        Some(decimal(findings) + " file"@ + "s"@ + " with lint failures."@)
    }
}

/// Computes the decimal digit for `d`.
fn digit_of(d: usize) -> (c: char)
    requires
        d < 10,
    ensures
        c == digit(d as nat),
{
    if d == 0 {
        '0'
    } else if d == 1 {
        '1'
    } else if d == 2 {
        '2'
    } else if d == 3 {
        '3'
    } else if d == 4 {
        '4'
    } else if d == 5 {
        '5'
    } else if d == 6 {
        '6'
    } else if d == 7 {
        '7'
    } else if d == 8 {
        '8'
    } else {
        '9'
    }
}

/// Writes `n` in decimal digits.
pub fn decimal_of(n: usize) -> (digits: Vec<char>)
    ensures
        digits@ == decimal(n as nat),
    decreases n,
{
    if n < 10 {
        let mut digits: Vec<char> = Vec::new();
        digits.push(digit_of(n));
        digits
    } else {
        let mut digits = decimal_of(n / 10);
        digits.push(digit_of(n % 10));
        digits
    }
}

/// Says what the user is told at the end of a run that counted `findings`
/// files with lint failures, or `None` if there is nothing to tell.
pub fn failure_summary(findings: usize) -> (message: Option<String>)
    ensures
        message.deep_view() == summary(findings as nat),
{
    if findings == 0 {
        None
    } else {
        let mut message = crate::text::string_of(&decimal_of(findings));
        message.append(" file");
        if findings != 1 {
            message.append("s");
        }
        message.append(" with lint failures.");
        Some(message)
    }
}

/// What the caller is asked to do next.
#[derive(Debug, PartialEq, Eq)]
pub enum Action {
    /// Create the file called `file_name` in the output directory, which
    /// must fail if the file is there already, and write `content` to it.
    Materialize { file_name: String, content: String },
    /// Run the analyzer on the file that was written last, and capture its
    /// standard output.
    Analyze { invocation: Invocation },
    /// Show the user the name of the command as a heading and the message
    /// below it.
    Report { command_name: String, message: String },
    /// Nothing is left to do; `findings` is the number of files with lint
    /// failures.
    Finish { findings: usize },
    /// The run is given up.
    Abort { error: LintError },
}

/// What an [`Action`] stands for.
pub enum ActionModel {
    Materialize { file_name: Seq<char>, content: Seq<char> },
    Analyze { invocation: InvocationModel },
    Report { command_name: Seq<char>, message: Seq<char> },
    Finish { findings: nat },
    Abort { error: LintErrorModel },
}

impl View for Action {
    type V = ActionModel;

    open spec fn view(&self) -> ActionModel {
        match self {
            Action::Materialize { file_name, content } => ActionModel::Materialize {
                file_name: file_name@,
                content: content@,
            },
            Action::Analyze { invocation } => ActionModel::Analyze { invocation: invocation@ },
            Action::Report { command_name, message } => ActionModel::Report {
                command_name: command_name@,
                message: message@,
            },
            Action::Finish { findings } => ActionModel::Finish { findings: *findings as nat },
            Action::Abort { error } => ActionModel::Abort { error: error@ },
        }
    }
}

/// The text that `String::from_utf8_lossy` reads out of `bytes`.
pub uninterp spec fn lossy_text(bytes: Seq<u8>) -> Seq<char>;

/// `String::from_utf8_lossy`: reads bytes as UTF-8 and puts U+FFFD where
/// they are not. The result depends on the bytes alone.
#[verifier::external_body]
fn decode(bytes: &Vec<u8>) -> (text: String)
    ensures
        text@ == lossy_text(bytes@),
{
    String::from_utf8_lossy(bytes).into_owned()
}

/// What a run is waiting for.
pub enum StageModel {
    /// For the file of the current script to be written.
    Materializing,
    /// For the analyzer to have run on the file at `path`.
    Analyzing { path: Seq<char> },
    /// For `message` to have been shown.
    Reporting { message: Seq<char> },
    /// For nothing: all scripts are done.
    Finished,
    /// For nothing: the run was given up.
    Failed { error: LintErrorModel },
}

/// What a [`Run`] stands for.
pub struct RunModel {
    pub context: ProcessCommandContext,
    /// The files of all scripts, in the order of the document.
    pub files: Seq<ScriptFileModel>,
    /// The number of scripts that are done.
    pub position: nat,
    /// The number of scripts so far whose analyzer had something to say.
    pub findings: nat,
    pub stage: StageModel,
}

impl RunModel {
    /// The run over `files` before anything has happened.
    pub open spec fn start(context: ProcessCommandContext, files: Seq<ScriptFileModel>) -> RunModel {
        RunModel {
            context,
            files,
            position: 0,
            findings: 0,
            stage: if files.len() > 0 {
                StageModel::Materializing
            } else {
                StageModel::Finished
            },
        }
    }

    /// What every run that began with [`RunModel::start`] keeps to.
    pub open spec fn wf(self) -> bool {
        &&& self.position <= self.files.len()
        &&& self.findings <= self.position + (if self.stage is Reporting {
            1nat
        } else {
            0nat
        })
        &&& match self.stage {
            StageModel::Materializing => self.position < self.files.len(),
            StageModel::Analyzing { path } => {
                &&& self.position < self.files.len()
                &&& !self.context.is_dump
                &&& self.current().handler.spec_invocation(path) is Some
            },
            StageModel::Reporting { message } => {
                &&& self.position < self.files.len()
                &&& !self.context.is_dump
            },
            StageModel::Finished => self.position == self.files.len(),
            StageModel::Failed { error } => true,
        }
        &&& self.context.is_dump ==> self.findings == 0
    }

    /// The file of the script that the run is busy with.
    pub open spec fn current(self) -> ScriptFileModel {
        self.files[self.position as int]
    }

    /// Whether the run has come to its end.
    pub open spec fn is_over(self) -> bool {
        self.stage is Finished || self.stage is Failed
    }

    /// The run after the current script is done.
    pub open spec fn advance(self) -> RunModel {
        RunModel {
            position: self.position + 1,
            stage: if self.position + 1 < self.files.len() {
                StageModel::Materializing
            } else {
                StageModel::Finished
            },
            ..self
        }
    }

    /// The run after the handler of the current script has come to
    /// `result`: a result that is shown is waited for, findings that are
    /// shown are counted, and everything else is passed over.
    pub open spec fn settle(self, result: LintResultModel) -> RunModel {
        if result.is_shown(self.context.no_warnings) {
            RunModel {
                findings: if result.is_counted() {
                    self.findings + 1
                } else {
                    self.findings
                },
                stage: StageModel::Reporting { message: result.message },
                ..self
            }
        } else {
            self.advance()
        }
    }

    /// The run given up for `error`.
    pub open spec fn fail(self, error: LintErrorModel) -> RunModel {
        RunModel { stage: StageModel::Failed { error }, ..self }
    }

    /// The result that the handler of the current script comes to when
    /// `event` arrives, if it comes to one then.
    pub open spec fn produced(self, event: EventModel) -> Option<LintResultModel> {
        match (self.stage, event) {
            (StageModel::Materializing, EventModel::Materialized { path }) => {
                if !self.context.is_dump && self.current().handler.spec_invocation(path) is None {
                    Some(self.current().handler.spec_result(path, Seq::empty()))
                } else {
                    None
                }
            },
            (StageModel::Analyzing { path }, EventModel::Analyzed { output }) => Some(
                self.current().handler.spec_result(path, lossy_text(output)),
            ),
            _ => None,
        }
    }

    /// The run after `event`. An event that does not answer the action
    /// that was asked for changes nothing.
    pub open spec fn next(self, event: EventModel) -> RunModel {
        match (self.stage, event) {
            (StageModel::Materializing, EventModel::Materialized { path }) => {
                if self.context.is_dump {
                    self.advance()
                } else if self.current().handler.spec_invocation(path) is Some {
                    RunModel { stage: StageModel::Analyzing { path }, ..self }
                } else {
                    self.settle(self.produced(event)->0)
                }
            },
            (StageModel::Materializing, EventModel::MaterializeFailed { failure }) => {
                if failure.kind == FailureKind::AlreadyExists {
                    self.fail(
                        LintErrorModel::FileCollision {
                            file_name: self.current().file_name,
                            cause: failure.cause,
                        },
                    )
                } else {
                    self.fail(LintErrorModel::IoFailure { cause: failure.cause })
                }
            },
            (StageModel::Analyzing { path }, EventModel::Analyzed { output }) => self.settle(
                self.produced(event)->0,
            ),
            (StageModel::Analyzing { path }, EventModel::AnalyzeFailed { failure }) => {
                if failure.kind == FailureKind::NotFound {
                    self.fail(
                        LintErrorModel::MissingExecutable {
                            handler: self.current().handler.spec_name(),
                        },
                    )
                } else {
                    self.fail(LintErrorModel::IoFailure { cause: failure.cause })
                }
            },
            (StageModel::Reporting { message }, EventModel::Reported) => self.advance(),
            _ => self,
        }
    }

    /// The action that the run asks for.
    pub open spec fn action(self) -> ActionModel {
        match self.stage {
            StageModel::Materializing => ActionModel::Materialize {
                file_name: self.current().file_name,
                content: self.current().content,
            },
            StageModel::Analyzing { path } => ActionModel::Analyze {
                invocation: self.current().handler.spec_invocation(path)->0,
            },
            StageModel::Reporting { message } => ActionModel::Report {
                command_name: self.current().command_name,
                message,
            },
            StageModel::Finished => ActionModel::Finish { findings: self.findings },
            StageModel::Failed { error } => ActionModel::Abort { error },
        }
    }

    /// A run that keeps to the rules still does so after any event.
    pub proof fn lemma_next_wf(self, event: EventModel)
        requires
            self.wf(),
        ensures
            self.next(event).wf(),
    {
    }
}

/// What a run is waiting for.
#[derive(Debug)]
enum Stage {
    Materializing,
    Analyzing { path: String },
    Reporting { message: String },
    Finished,
    Failed { error: LintError },
}

impl View for Stage {
    type V = StageModel;

    closed spec fn view(&self) -> StageModel {
        match self {
            Stage::Materializing => StageModel::Materializing,
            Stage::Analyzing { path } => StageModel::Analyzing { path: path@ },
            Stage::Reporting { message } => StageModel::Reporting { message: message@ },
            Stage::Finished => StageModel::Finished,
            Stage::Failed { error } => StageModel::Failed { error: error@ },
        }
    }
}

/// A run over the script files of a maskfile: where it stands and what it
/// has counted.
#[derive(Debug)]
pub struct Run {
    context: ProcessCommandContext,
    files: Vec<ScriptFile>,
    position: usize,
    findings: usize,
    stage: Stage,
}

impl View for Run {
    type V = RunModel;

    closed spec fn view(&self) -> RunModel {
        RunModel {
            context: self.context,
            files: self.files.deep_view(),
            position: self.position as nat,
            findings: self.findings as nat,
            stage: self.stage@,
        }
    }
}

/// A copy of `error`.
fn copy_of_error(error: &LintError) -> (copy: LintError)
    ensures
        copy@ == error@,
{
    match error {
        LintError::MissingExecutable { handler } => LintError::MissingExecutable {
            handler: handler.clone(),
        },
        LintError::FileCollision { file_name, cause } => LintError::FileCollision {
            file_name: file_name.clone(),
            cause: cause.clone(),
        },
        LintError::IoFailure { cause } => LintError::IoFailure { cause: cause.clone() },
    }
}

impl Run {
    #[verifier::type_invariant]
    spec fn inv(&self) -> bool {
        self@.wf()
    }

    /// Begins a run over the scripts in the trees of `commands`.
    pub fn new(context: ProcessCommandContext, commands: &Vec<CommandNode>) -> (run: Run)
        ensures
            run@ == RunModel::start(
                context,
                script_files_all(commands.deep_view(), Seq::empty()),
            ),
    {
        let files = process_commands(commands, "");
        proof {
            reveal_strlit("");
            assert(""@ == Seq::<char>::empty());
        }
        let stage = if files.len() > 0 {
            Stage::Materializing
        } else {
            Stage::Finished
        };
        Run { context, files, position: 0, findings: 0, stage }
    }

    /// Begins a run over the scripts of the maskfile with the given text.
    pub fn process_maskfile(content: String, context: ProcessCommandContext) -> (run: Run)
        ensures
            run@ == RunModel::start(
                context,
                script_files_all(parsed_commands(content@), Seq::empty()),
            ),
    {
        let commands = parse_commands(content);
        Run::new(context, &commands)
    }

    /// The run after the current script is done.
    fn advanced(self) -> (run: Run)
        requires
            self@.position < self@.files.len(),
        ensures
            run@ == self@.advance(),
    {
        proof {
            use_type_invariant(&self);
            assert(self.files.deep_view().len() == self.files.len());
        }
        let Run { context, files, position, findings, stage } = self;
        let stage = if position + 1 < files.len() {
            Stage::Materializing
        } else {
            Stage::Finished
        };
        Run { context, files, position: position + 1, findings, stage }
    }

    /// The run after the handler of the current script has come to
    /// `result`.
    fn settled(self, result: LintResult) -> (run: Run)
        requires
            self@.stage is Materializing || self@.stage is Analyzing,
            !self@.context.is_dump,
        ensures
            run@ == self@.settle(result@),
    {
        proof {
            use_type_invariant(&self);
            assert(self.files.deep_view().len() == self.files.len());
        }
        let shown = result.message.as_str().unicode_len() > 0 && (result.result_type
            == LintResultType::Findings || !self.context.no_warnings);
        if shown {
            let Run { context, files, position, findings, stage } = self;
            let findings = if result.result_type == LintResultType::Findings {
                findings + 1
            } else {
                findings
            };
            Run { context, files, position, findings, stage: Stage::Reporting {
                message: result.message,
            } }
        } else {
            self.advanced()
        }
    }

    /// The run given up for `error`.
    fn failed(self, error: LintError) -> (run: Run)
        requires
            self@.stage is Materializing || self@.stage is Analyzing,
        ensures
            run@ == self@.fail(error@),
    {
        proof {
            use_type_invariant(&self);
        }
        let Run { context, files, position, findings, stage } = self;
        Run { context, files, position, findings, stage: Stage::Failed { error } }
    }

    /// Takes in the text that the analyzer of the current script wrote to
    /// its standard output and returns the run after it, with the action
    /// that it asks for next. A run that is not waiting for an analyzer
    /// stays as it is.
    pub fn analyzed_text(self, output: &str) -> (next: (Run, Action))
        ensures
            self@.stage matches StageModel::Analyzing { path } ==> next.0@ == self@.settle(
                self@.current().handler.spec_result(path, output@),
            ),
            !(self@.stage is Analyzing) ==> next.0@ == self@,
            next.1@ == next.0@.action(),
    {
        proof {
            use_type_invariant(&self);
        }
        let result = match &self.stage {
            Stage::Analyzing { path } => Some(
                self.files[self.position].handler.result(path.as_str(), output),
            ),
            _ => None,
        };
        let run = match result {
            Some(result) => self.settled(result),
            None => self,
        };
        let action = run.action();
        (run, action)
    }

    /// Takes in what the caller reports and returns the run after it, with
    /// the action that it asks for next. An event that does not answer the
    /// action that was asked for changes nothing.
    pub fn step(self, event: Event) -> (next: (Run, Action))
        ensures
            next.0@ == self@.next(event@),
            next.1@ == next.0@.action(),
    {
        proof {
            use_type_invariant(&self);
        }
        let run = match event {
            Event::Materialized { path } => {
                if !matches!(self.stage, Stage::Materializing) {
                    self
                } else if self.context.is_dump {
                    self.advanced()
                } else {
                    let handler = self.files[self.position].handler;
                    match handler.invocation(path.as_str()) {
                        Some(invocation) => {
                            let Run { context, files, position, findings, stage } = self;
                            Run { context, files, position, findings, stage: Stage::Analyzing {
                                path,
                            } }
                        },
                        None => {
                            proof {
                                reveal_strlit("");
                                assert(""@ == Seq::<char>::empty());
                            }
                            let result = handler.result(path.as_str(), "");
                            self.settled(result)
                        },
                    }
                }
            },
            Event::MaterializeFailed { failure } => {
                if !matches!(self.stage, Stage::Materializing) {
                    self
                } else if failure.kind == FailureKind::AlreadyExists {
                    let file_name = self.files[self.position].file_name.clone();
                    self.failed(LintError::FileCollision { file_name, cause: failure.cause })
                } else {
                    self.failed(LintError::IoFailure { cause: failure.cause })
                }
            },
            Event::Analyzed { output } => {
                return self.analyzed_text(decode(&output).as_str());
            },
            Event::AnalyzeFailed { failure } => {
                if !matches!(self.stage, Stage::Analyzing { .. }) {
                    self
                } else if failure.kind == FailureKind::NotFound {
                    let handler = String::from_str(self.files[self.position].handler.name());
                    self.failed(LintError::MissingExecutable { handler })
                } else {
                    self.failed(LintError::IoFailure { cause: failure.cause })
                }
            },
            Event::Reported => {
                if matches!(self.stage, Stage::Reporting { .. }) {
                    self.advanced()
                } else {
                    self
                }
            },
        };
        let action = run.action();
        (run, action)
    }

    /// Whether the run has come to its end.
    pub fn is_over(&self) -> (over: bool)
        ensures
            over == self@.is_over(),
    {
        match &self.stage {
            Stage::Finished => true,
            Stage::Failed { error } => true,
            _ => false,
        }
    }

    /// The number of scripts so far whose analyzer had something to say.
    pub fn findings(&self) -> (findings: usize)
        ensures
            findings == self@.findings,
    {
        self.findings
    }

    /// The action that the run asks for.
    pub fn action(&self) -> (action: Action)
        ensures
            action@ == self@.action(),
    {
        proof {
            use_type_invariant(self);
        }
        match &self.stage {
            Stage::Materializing => {
                let file = &self.files[self.position];
                Action::Materialize {
                    file_name: file.file_name.clone(),
                    content: file.content.clone(),
                }
            },
            Stage::Analyzing { path } => {
                let file = &self.files[self.position];
                match file.handler.invocation(path.as_str()) {
                    Some(invocation) => Action::Analyze { invocation },
                    None => Action::Finish { findings: self.findings },
                }
            },
            Stage::Reporting { message } => {
                let file = &self.files[self.position];
                Action::Report {
                    command_name: file.command_name.clone(),
                    message: message.clone(),
                }
            },
            Stage::Finished => Action::Finish { findings: self.findings },
            Stage::Failed { error } => Action::Abort { error: copy_of_error(error) },
        }
    }
}

} // verus!
