//! What holds of every run, proved from the definitions of the other
//! modules.

use crate::handlers::{Handler, LanguageHandler, LintResultModel, LintResultType};
use crate::maskfile::{
    parsed_commands, script_count, script_count_all, CommandNodeModel, ScriptModel,
};
use crate::run::{
    ActionModel, EventModel, FailureKind, FailureModel, LintErrorModel, ProcessCommandContext,
    RunModel, StageModel,
};
use crate::walker::{script_file, script_files, script_files_all, underscored, ScriptFileModel};
use vstd::prelude::*;

verus! {

/// The tree of a command stands for as many files as it has commands with
/// a script.
pub proof fn lemma_one_file_per_script(command: CommandNodeModel, parent: Seq<char>)
    ensures
        script_files(command, parent).len() == script_count(command),
    decreases command, 1nat,
{
    lemma_one_file_per_script_all(
        command.subcommands,
        crate::walker::full_name(parent, command.name),
    );
}

/// The trees of some commands stand for as many files as they have
/// commands with a script.
pub proof fn lemma_one_file_per_script_all(commands: Seq<CommandNodeModel>, parent: Seq<char>)
    ensures
        script_files_all(commands, parent).len() == script_count_all(commands),
    decreases commands, 0nat,
{
    if commands.len() > 0 {
        lemma_one_file_per_script_all(commands.drop_last(), parent);
        lemma_one_file_per_script(commands.last(), parent);
    }
}

/// Where no command carries a script, the run is over before it has asked
/// for anything: it reports no findings and no file is created.
pub proof fn lemma_no_scripts_no_work(
    context: ProcessCommandContext,
    commands: Seq<CommandNodeModel>,
)
    requires
        script_count_all(commands) == 0,
    ensures
        script_files_all(commands, Seq::empty()).len() == 0,
        RunModel::start(context, script_files_all(commands, Seq::empty())).action()
            == (ActionModel::Finish { findings: 0 }),
{
    lemma_one_file_per_script_all(commands, Seq::empty());
}

/// Whether `executor` is one of the tags that have a handler of their
/// own.
pub open spec fn is_recognized(executor: Seq<char>) -> bool {
    ||| executor == "sh"@
    ||| executor == "bash"@
    ||| executor == "py"@
    ||| executor == "python"@
    ||| executor == "rb"@
    ||| executor == "ruby"@
    ||| executor == "nu"@
    ||| executor == "nushell"@
}

/// A script with a tag that is not recognized has the catchall for its
/// handler. Its file has no extension and holds the source as it is, no
/// analyzer is run on it, and the result is a warning that is never
/// counted and is not shown where warnings are suppressed.
pub proof fn lemma_unrecognized_executor(
    command_name: Seq<char>,
    script: ScriptModel,
    path: Seq<char>,
    output: Seq<char>,
)
    requires
        !is_recognized(script.executor),
    ensures
        Handler::spec_select(script.executor) == Handler::Catchall,
        script_file(command_name, script).handler == Handler::Catchall,
        script_file(command_name, script).file_name == command_name.map_values(
            |c: char| underscored(c),
        ),
        script_file(command_name, script).content == script.source,
        Handler::Catchall.spec_invocation(path) is None,
        Handler::Catchall.spec_result(path, output).result_type == LintResultType::Warning,
        !Handler::Catchall.spec_result(path, output).is_counted(),
        !Handler::Catchall.spec_result(path, output).is_shown(true),
{
    reveal_strlit("");
    let name = command_name.map_values(|c: char| underscored(c));
    assert(name + ""@ == name);
}

/// In a run that analyzes, a script of the catchall is done as soon as its
/// file is written: no analyzer is asked for and the count stays as it
/// is. Its warning is shown next, unless warnings are suppressed.
pub proof fn lemma_catchall_step(run: RunModel, path: Seq<char>)
    requires
        run.wf(),
        run.stage is Materializing,
        !run.context.is_dump,
        run.current().handler == Handler::Catchall,
    ensures
        ({
            let next = run.next(EventModel::Materialized { path });
            &&& next.findings == run.findings
            &&& !(next.action() is Analyze)
            &&& run.context.no_warnings ==> next == run.advance()
            &&& !run.context.no_warnings ==> next.action() == (ActionModel::Report {
                command_name: run.current().command_name,
                message: "no linter found for target"@,
            })
        }),
{
    reveal_strlit("no linter found for target");
}

/// The run after the events of `events`, in their order.
pub open spec fn run_through(run: RunModel, events: Seq<EventModel>) -> RunModel
    decreases events.len(),
{
    if events.len() == 0 {
        run
    } else {
        run_through(run, events.drop_last()).next(events.last())
    }
}

/// The results that the handlers come to while the events of `events`
/// arrive, in their order.
pub open spec fn results_through(run: RunModel, events: Seq<EventModel>) -> Seq<LintResultModel>
    decreases events.len(),
{
    if events.len() == 0 {
        Seq::empty()
    } else {
        let before = results_through(run, events.drop_last());
        match run_through(run, events.drop_last()).produced(events.last()) {
            Some(result) => before.push(result),
            None => before,
        }
    }
}

/// The number of scripts of `run` whose handler has come to a result.
pub open spec fn settled(run: RunModel) -> nat {
    if run.stage is Reporting {
        run.position + 1
    } else {
        run.position
    }
}

/// A run keeps to its rules whatever is reported to it. So a run that only
/// dumps never asks for an analyzer or a report, and counts nothing.
pub proof fn lemma_run_through_wf(run: RunModel, events: Seq<EventModel>)
    requires
        run.wf(),
    ensures
        run_through(run, events).wf(),
        run_through(run, events).context == run.context,
        run_through(run, events).files == run.files,
        run.context.is_dump ==> {
            let action = run_through(run, events).action();
            &&& !(action is Analyze)
            &&& !(action is Report)
            &&& action is Finish ==> action == (ActionModel::Finish { findings: 0 })
        },
    decreases events.len(),
{
    if events.len() > 0 {
        lemma_run_through_wf(run, events.drop_last());
        run_through(run, events.drop_last()).lemma_next_wf(events.last());
    }
}

/// The count never goes down, and it goes up by exactly the number of
/// results that are findings with something to say. Each script comes to
/// at most one result, and in a run that analyzes, to exactly one by the
/// time it is done.
pub proof fn lemma_findings_are_counted(run: RunModel, events: Seq<EventModel>)
    requires
        run.wf(),
        !(run.stage is Failed),
    ensures
        ({
            let after = run_through(run, events);
            let results = results_through(run, events);
            &&& after.findings == run.findings + results.filter(
                |result: LintResultModel| result.is_counted(),
            ).len()
            &&& after.findings >= run.findings
            &&& after.position >= run.position
            &&& results.len() <= settled(after) - settled(run) + (if after.stage is Failed {
                1nat
            } else {
                0nat
            })
            &&& !run.context.is_dump && !(after.stage is Failed) ==> results.len() == settled(
                after,
            ) - settled(run)
            &&& run.context.is_dump ==> results.len() == 0
        }),
    decreases events.len(),
{
    reveal(Seq::filter);
    if events.len() > 0 {
        let before = run_through(run, events.drop_last());
        lemma_findings_are_counted(run, events.drop_last());
        lemma_run_through_wf(run, events.drop_last());
        before.lemma_next_wf(events.last());
        let earlier = results_through(run, events.drop_last());
        match before.produced(events.last()) {
            Some(result) => {
                assert(earlier.push(result).drop_last() == earlier);
            },
            None => {},
        }
    }
}

/// A run that analyzes and comes to its end without failure reports as
/// many findings as there are scripts whose handler came to findings with
/// something to say, and every script has come to one result.
pub proof fn lemma_findings_of_a_finished_run(
    context: ProcessCommandContext,
    files: Seq<ScriptFileModel>,
    events: Seq<EventModel>,
)
    requires
        !context.is_dump,
        run_through(RunModel::start(context, files), events).stage is Finished,
    ensures
        results_through(RunModel::start(context, files), events).len() == files.len(),
        run_through(RunModel::start(context, files), events).action() == (ActionModel::Finish {
            findings: results_through(RunModel::start(context, files), events).filter(
                |result: LintResultModel| result.is_counted(),
            ).len(),
        }),
{
    let run = RunModel::start(context, files);
    lemma_findings_are_counted(run, events);
    lemma_run_through_wf(run, events);
}

/// The names of the files in a directory, each with the file's text.
pub type Directory = Map<Seq<char>, Seq<char>>;

/// What is around a run in which nothing goes wrong but that a file is
/// there already: a directory that files are created in, and analyzers
/// that are all installed and run.
pub struct World {
    /// The output directory.
    pub directory: Directory,
    /// What the file system says of a file that is there already.
    pub cause: Seq<char>,
    /// The path of the file with a given name.
    pub path_of: spec_fn(Seq<char>) -> Seq<char>,
    /// What the analyzer writes about the script at a given position.
    pub output_at: spec_fn(int) -> Seq<u8>,
}

impl World {
    /// What the caller reports of the action that `run` asks for.
    pub open spec fn answer(self, run: RunModel) -> EventModel {
        match run.stage {
            StageModel::Materializing => if self.directory.contains_key(run.current().file_name) {
                EventModel::MaterializeFailed {
                    failure: FailureModel { kind: FailureKind::AlreadyExists, cause: self.cause },
                }
            } else {
                EventModel::Materialized { path: (self.path_of)(run.current().file_name) }
            },
            StageModel::Analyzing { path } => EventModel::Analyzed {
                output: (self.output_at)(run.position as int),
            },
            _ => EventModel::Reported,
        }
    }

    /// The world after the action that `run` asks for: a file that was not
    /// there is there now.
    pub open spec fn after(self, run: RunModel) -> World {
        if run.stage is Materializing && !self.directory.contains_key(run.current().file_name) {
            World {
                directory: self.directory.insert(run.current().file_name, run.current().content),
                ..self
            }
        } else {
            self
        }
    }

    /// The result that the handler of the script at `position` comes to.
    pub open spec fn result_at(self, files: Seq<ScriptFileModel>, position: int) -> LintResultModel {
        let file = files[position];
        let path = (self.path_of)(file.file_name);
        if file.handler.spec_invocation(path) is Some {
            file.handler.spec_result(path, crate::run::lossy_text((self.output_at)(position)))
        } else {
            file.handler.spec_result(path, Seq::empty())
        }
    }

    /// The number of scripts from position `from` up to, not including,
    /// position `to` whose result is findings with something to say.
    pub open spec fn findings_between(self, files: Seq<ScriptFileModel>, from: int, to: int) -> nat
        decreases to - from,
    {
        if from >= to {
            0
        } else {
            (if self.result_at(files, from).is_counted() {
                1nat
            } else {
                0nat
            }) + self.findings_between(files, from + 1, to)
        }
    }
}

/// How many more steps the current script may take.
pub open spec fn steps_left(run: RunModel) -> nat {
    match run.stage {
        StageModel::Materializing => 2,
        StageModel::Analyzing { path } => 1,
        _ => 0,
    }
}

/// A run carried to its end in `world`: the run and the world as they are
/// when nothing is left to do.
pub open spec fn carried(run: RunModel, world: World) -> (RunModel, World)
    decreases run.files.len() - run.position, steps_left(run),
{
    if run.wf() && !run.is_over() {
        carried(run.next(world.answer(run)), world.after(run))
    } else {
        (run, world)
    }
}

/// Whether the first `count` files of `files` have names of their own.
pub open spec fn distinct_names(files: Seq<ScriptFileModel>, count: int) -> bool {
    forall|i: int, j: int|
        0 <= i < j < count && j < files.len() ==> files[i].file_name != files[j].file_name
}

/// Whether `directory` holds the first `count` files of `files` and
/// nothing else.
pub open spec fn holds_files(directory: Directory, files: Seq<ScriptFileModel>, count: int) -> bool {
    &&& forall|i: int|
        0 <= i < count && i < files.len() ==> directory.contains_key(#[trigger] files[i].file_name)
            && directory[files[i].file_name] == files[i].content
    &&& forall|name: Seq<char>| #[trigger]
        directory.contains_key(name) ==> exists|i: int|
            0 <= i < count && i < files.len() && files[i].file_name == name
}

/// Creating a file with a new name keeps the names apart and the directory
/// in step with the files.
proof fn lemma_one_more_file(directory: Directory, files: Seq<ScriptFileModel>, k: int)
    requires
        0 <= k < files.len(),
        distinct_names(files, k),
        holds_files(directory, files, k),
        !directory.contains_key(files[k].file_name),
    ensures
        distinct_names(files, k + 1),
        holds_files(directory.insert(files[k].file_name, files[k].content), files, k + 1),
{
    let grown = directory.insert(files[k].file_name, files[k].content);
    assert forall|i: int, j: int| 0 <= i < j < k + 1 && j < files.len() implies files[i].file_name
        != files[j].file_name by {
        if j == k {
            assert(directory.contains_key(files[i].file_name));
        }
    }
    assert forall|i: int| 0 <= i < k + 1 && i < files.len() implies grown.contains_key(
        #[trigger] files[i].file_name,
    ) && grown[files[i].file_name] == files[i].content by {
        if i < k {
            assert(directory.contains_key(files[i].file_name));
            assert(files[i].file_name != files[k].file_name);
        }
    }
    assert forall|name: Seq<char>| #[trigger] grown.contains_key(name) implies exists|i: int|
        0 <= i < k + 1 && i < files.len() && files[i].file_name == name by {
        if name == files[k].file_name {
            assert(files[k].file_name == name);
        } else {
            assert(directory.contains_key(name));
            let i = choose|i: int| 0 <= i < k && i < files.len() && files[i].file_name == name;
            assert(0 <= i < k + 1 && files[i].file_name == name);
        }
    }
}

/// A run that stands between two scripts, with names that were all
/// different so far, goes on to the end or to the first file whose name
/// was there before, and counts the findings on its way.
proof fn lemma_carried_from(run: RunModel, world: World)
    requires
        run.wf(),
        run.stage is Materializing || run.stage is Finished,
        distinct_names(run.files, run.position as int),
        holds_files(world.directory, run.files, run.position as int),
    ensures
        ({
            let (after, left) = carried(run, world);
            &&& after.files == run.files
            &&& after.position <= run.files.len()
            &&& holds_files(left.directory, run.files, after.position as int)
            &&& distinct_names(run.files, after.position as int)
            &&& after.findings == run.findings + (if run.context.is_dump {
                0nat
            } else {
                world.findings_between(run.files, run.position as int, after.position as int)
            })
            &&& if distinct_names(run.files, run.files.len() as int) {
                after.position == run.files.len() && after.stage is Finished
            } else {
                &&& after.position < run.files.len()
                &&& !distinct_names(run.files, after.position as int + 1)
                &&& after.stage == (StageModel::Failed {
                    error: LintErrorModel::FileCollision {
                        file_name: run.files[after.position as int].file_name,
                        cause: world.cause,
                    },
                })
            }
        }),
    decreases run.files.len() - run.position,
{
    let files = run.files;
    let k = run.position as int;
    reveal_with_fuel(carried, 5);
    if run.stage is Materializing {
        let file = run.current();
        if world.directory.contains_key(file.file_name) {
            let i = choose|i: int| 0 <= i < k && i < files.len() && files[i].file_name == file.file_name;
            assert(files[i].file_name == files[k].file_name);
            assert(!distinct_names(files, k + 1));
            assert(!distinct_names(files, files.len() as int));
            assert(world.findings_between(files, k, k) == 0);
        } else {
            lemma_one_more_file(world.directory, files, k);
            let written = run.next(world.answer(run));
            let grown = world.after(run);
            run.lemma_next_wf(world.answer(run));
            assert(grown.result_at(files, k) == world.result_at(files, k));
            let done = if written.stage is Analyzing {
                let analyzed = written.next(grown.answer(written));
                written.lemma_next_wf(grown.answer(written));
                if analyzed.stage is Reporting {
                    analyzed.lemma_next_wf(grown.answer(analyzed));
                    analyzed.next(grown.answer(analyzed))
                } else {
                    analyzed
                }
            } else if written.stage is Reporting {
                written.lemma_next_wf(grown.answer(written));
                written.next(grown.answer(written))
            } else {
                written
            };
            assert(done.position == k + 1);
            assert(done.stage is Materializing || done.stage is Finished);
            assert(carried(run, world) == carried(done, grown));
            assert(done.findings == run.findings + (if !run.context.is_dump && world.result_at(
                files,
                k,
            ).is_counted() {
                1nat
            } else {
                0nat
            }));
            lemma_carried_from(done, grown);
            let (after, left) = carried(done, grown);
            lemma_findings_between_same(world, grown, files, k + 1, after.position as int);
        }
    } else {
        assert(run.position == files.len());
        assert(world.findings_between(files, k, k) == 0);
    }
}

/// The findings do not depend on what is in the directory.
proof fn lemma_findings_between_same(
    one: World,
    other: World,
    files: Seq<ScriptFileModel>,
    from: int,
    to: int,
)
    requires
        one.path_of == other.path_of,
        one.output_at == other.output_at,
    ensures
        one.findings_between(files, from, to) == other.findings_between(files, from, to),
    decreases to - from,
{
    if from < to {
        lemma_findings_between_same(one, other, files, from + 1, to);
    }
}

/// A directory that holds some files with names that are all different
/// and nothing else has as many entries as there are files.
proof fn lemma_directory_size(directory: Directory, files: Seq<ScriptFileModel>, count: int)
    requires
        0 <= count <= files.len(),
        distinct_names(files, count),
        holds_files(directory, files, count),
    ensures
        directory.dom().finite(),
        directory.dom().len() == count,
    decreases count,
{
    if count == 0 {
        assert(directory.dom() =~= Set::<Seq<char>>::empty());
    } else {
        let last = files[count - 1].file_name;
        let rest = directory.remove(last);
        assert(holds_files(rest, files, count - 1)) by {
            assert forall|i: int| 0 <= i < count - 1 && i < files.len() implies rest.contains_key(
                #[trigger] files[i].file_name,
            ) && rest[files[i].file_name] == files[i].content by {
                assert(directory.contains_key(files[i].file_name));
                assert(files[i].file_name != files[count - 1].file_name);
            }
            assert forall|name: Seq<char>| #[trigger] rest.contains_key(name) implies exists|i: int|
                0 <= i < count - 1 && i < files.len() && files[i].file_name == name by {
                assert(directory.contains_key(name));
                let i = choose|i: int| 0 <= i < count && i < files.len() && files[i].file_name == name;
                assert(i != count - 1);
            }
        }
        lemma_directory_size(rest, files, count - 1);
        assert(directory.contains_key(files[count - 1].file_name));
        assert(directory.dom() =~= rest.dom().insert(last));
    }
}

/// Whether the directory of `world` is empty.
pub open spec fn is_fresh(world: World) -> bool {
    world.directory == Map::<Seq<char>, Seq<char>>::empty()
}

/// A run in a fresh directory over files whose names are all different
/// comes to its end and leaves exactly one file for each command with a
/// script, under its name and with its text. A dump reports no findings.
pub proof fn lemma_every_script_is_written(
    commands: Seq<CommandNodeModel>,
    context: ProcessCommandContext,
    world: World,
)
    requires
        is_fresh(world),
        distinct_names(
            script_files_all(commands, Seq::empty()),
            script_files_all(commands, Seq::empty()).len() as int,
        ),
    ensures
        ({
            let files = script_files_all(commands, Seq::empty());
            let (after, left) = carried(RunModel::start(context, files), world);
            &&& after.action() is Finish
            &&& context.is_dump ==> after.action() == (ActionModel::Finish { findings: 0 })
            &&& holds_files(left.directory, files, files.len() as int)
            &&& left.directory.dom().finite()
            &&& left.directory.dom().len() == script_count_all(commands)
        }),
{
    let files = script_files_all(commands, Seq::empty());
    let run = RunModel::start(context, files);
    lemma_carried_from(run, world);
    let (after, left) = carried(run, world);
    lemma_one_file_per_script_all(commands, Seq::empty());
    lemma_directory_size(left.directory, files, files.len() as int);
}

/// A run that analyzes, in a fresh directory and over files whose names
/// are all different, reports as many findings as there are scripts whose
/// handler comes to findings with something to say.
pub proof fn lemma_findings_are_the_scripts_with_findings(
    files: Seq<ScriptFileModel>,
    context: ProcessCommandContext,
    world: World,
)
    requires
        !context.is_dump,
        is_fresh(world),
        distinct_names(files, files.len() as int),
    ensures
        carried(RunModel::start(context, files), world).0.action() == (ActionModel::Finish {
            findings: world.findings_between(files, 0, files.len() as int),
        }),
{
    lemma_carried_from(RunModel::start(context, files), world);
}

/// A run in a fresh directory over files of which two have the same name
/// is given up for a collision at the first file whose name was there
/// before, and the file that was there first keeps its text.
pub proof fn lemma_same_name_collides(
    files: Seq<ScriptFileModel>,
    context: ProcessCommandContext,
    world: World,
    first: int,
    second: int,
)
    requires
        is_fresh(world),
        0 <= first < second < files.len(),
        files[first].file_name == files[second].file_name,
    ensures
        ({
            let (after, left) = carried(RunModel::start(context, files), world);
            &&& after.position <= second
            &&& after.action() == (ActionModel::Abort {
                error: LintErrorModel::FileCollision {
                    file_name: files[after.position as int].file_name,
                    cause: world.cause,
                },
            })
            &&& exists|earlier: int|
                0 <= earlier < after.position && files[earlier].file_name
                    == files[after.position as int].file_name
                    && left.directory[files[after.position as int].file_name]
                    == files[earlier].content
            &&& holds_files(left.directory, files, after.position as int)
        }),
{
    let run = RunModel::start(context, files);
    assert(!distinct_names(files, files.len() as int));
    lemma_carried_from(run, world);
    let (after, left) = carried(run, world);
    let p = after.position as int;
    if p > second {
        assert(distinct_names(files, p));
        assert(false);
    }
    assert(!distinct_names(files, p + 1));
    let (i, j) = choose|i: int, j: int|
        0 <= i < j < p + 1 && j < files.len() && files[i].file_name == files[j].file_name;
    assert(j == p);
    assert(left.directory.contains_key(files[i].file_name));
}

/// Whether `file` has the name that its command's full name and its
/// handler's extension give it.
pub open spec fn is_named_by_rule(file: ScriptFileModel) -> bool {
    file.file_name == crate::walker::file_name_of(
        file.command_name,
        file.handler.spec_file_extension(),
    )
}

/// Every file of a command's tree is named after its command and its
/// handler.
pub proof fn lemma_files_are_named_by_rule(command: CommandNodeModel, parent: Seq<char>)
    ensures
        forall|i: int|
            0 <= i < script_files(command, parent).len() ==> is_named_by_rule(
                #[trigger] script_files(command, parent)[i],
            ),
    decreases command, 1nat,
{
    let name = crate::walker::full_name(parent, command.name);
    lemma_all_files_are_named_by_rule(command.subcommands, name);
    let below = script_files_all(command.subcommands, name);
    let files = script_files(command, parent);
    assert forall|i: int| 0 <= i < files.len() implies is_named_by_rule(#[trigger] files[i]) by {
        match command.script {
            Some(script) => {
                if i > 0 {
                    assert(files[i] == below[i - 1]);
                }
            },
            None => {
                assert(files[i] == below[i]);
            },
        }
    }
}

/// Every file of some commands' trees is named after its command and its
/// handler.
pub proof fn lemma_all_files_are_named_by_rule(commands: Seq<CommandNodeModel>, parent: Seq<char>)
    ensures
        forall|i: int|
            0 <= i < script_files_all(commands, parent).len() ==> is_named_by_rule(
                #[trigger] script_files_all(commands, parent)[i],
            ),
    decreases commands, 0nat,
{
    if commands.len() > 0 {
        lemma_all_files_are_named_by_rule(commands.drop_last(), parent);
        lemma_files_are_named_by_rule(commands.last(), parent);
        let before = script_files_all(commands.drop_last(), parent);
        let last = script_files(commands.last(), parent);
        let files = script_files_all(commands, parent);
        assert forall|i: int| 0 <= i < files.len() implies is_named_by_rule(#[trigger] files[i]) by {
            if i < before.len() {
                assert(files[i] == before[i]);
            } else {
                assert(files[i] == last[i - before.len()]);
            }
        }
    }
}

/// Two commands with scripts that have the same full name and the same
/// file extension cannot both be written: the run is given up for a
/// collision, at the second of them at the latest.
pub proof fn lemma_same_command_name_collides(
    commands: Seq<CommandNodeModel>,
    context: ProcessCommandContext,
    world: World,
    first: int,
    second: int,
)
    requires
        is_fresh(world),
        0 <= first < second < script_files_all(commands, Seq::empty()).len(),
        script_files_all(commands, Seq::empty())[first].command_name == script_files_all(
            commands,
            Seq::empty(),
        )[second].command_name,
        script_files_all(commands, Seq::empty())[first].handler.spec_file_extension()
            == script_files_all(commands, Seq::empty())[second].handler.spec_file_extension(),
    ensures
        ({
            let files = script_files_all(commands, Seq::empty());
            let (after, left) = carried(RunModel::start(context, files), world);
            &&& after.position <= second
            &&& after.action() == (ActionModel::Abort {
                error: LintErrorModel::FileCollision {
                    file_name: files[after.position as int].file_name,
                    cause: world.cause,
                },
            })
        }),
{
    let files = script_files_all(commands, Seq::empty());
    lemma_all_files_are_named_by_rule(commands, Seq::empty());
    assert(is_named_by_rule(files[first]));
    assert(is_named_by_rule(files[second]));
    lemma_same_name_collides(files, context, world, first, second);
}

/// Dumping is repeatable: two dumps of the same maskfile into fresh
/// directories leave the same files with the same texts, whatever else
/// differs around them.
pub proof fn lemma_dump_is_repeatable(
    content: Seq<char>,
    one: ProcessCommandContext,
    other: ProcessCommandContext,
    here: World,
    there: World,
)
    requires
        one.is_dump,
        other.is_dump,
        is_fresh(here),
        is_fresh(there),
    ensures
        ({
            let files = script_files_all(parsed_commands(content), Seq::empty());
            let (first, left_here) = carried(RunModel::start(one, files), here);
            let (second, left_there) = carried(RunModel::start(other, files), there);
            &&& left_here.directory == left_there.directory
            &&& first.position == second.position
            &&& first.action() is Finish <==> second.action() is Finish
        }),
{
    let files = script_files_all(parsed_commands(content), Seq::empty());
    lemma_carried_from(RunModel::start(one, files), here);
    lemma_carried_from(RunModel::start(other, files), there);
    let (first, left_here) = carried(RunModel::start(one, files), here);
    let (second, left_there) = carried(RunModel::start(other, files), there);
    if first.position < second.position {
        assert(distinct_names(files, first.position as int + 1));
    }
    if second.position < first.position {
        assert(distinct_names(files, second.position as int + 1));
    }
    let p = first.position as int;
    assert(left_here.directory =~= left_there.directory) by {
        assert forall|name: Seq<char>| left_here.directory.contains_key(name)
            == left_there.directory.contains_key(name) && (left_here.directory.contains_key(name)
            ==> left_here.directory[name] == left_there.directory[name]) by {
            if left_here.directory.contains_key(name) {
                let i = choose|i: int| 0 <= i < p && i < files.len() && files[i].file_name == name;
                assert(left_there.directory.contains_key(files[i].file_name));
            }
            if left_there.directory.contains_key(name) {
                let i = choose|i: int| 0 <= i < p && i < files.len() && files[i].file_name == name;
                assert(left_here.directory.contains_key(files[i].file_name));
            }
        }
    }
}

} // verus!
