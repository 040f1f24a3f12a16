//! The walk over the command tree: which script files a maskfile stands
//! for, under which names and in which order.

use crate::handlers::{Handler, LanguageHandler};
use crate::maskfile::{CommandNode, CommandNodeModel, Script, ScriptModel};
use crate::text::{chars_of, string_of};
use vstd::prelude::*;
use vstd::string::StringExecFns;

verus! {

/// The file that one script is written to.
#[derive(Debug)]
pub struct ScriptFile {
    /// The names of the command's ancestors and its own, from the top
    /// down, with a space between each two.
    pub command_name: String,
    /// The handler of the script's language.
    pub handler: Handler,
    /// The name of the file within the output directory.
    pub file_name: String,
    /// The text of the file.
    pub content: String,
}

/// What a [`ScriptFile`] stands for.
pub struct ScriptFileModel {
    pub command_name: Seq<char>,
    pub handler: Handler,
    pub file_name: Seq<char>,
    pub content: Seq<char>,
}

impl View for ScriptFile {
    type V = ScriptFileModel;

    open spec fn view(&self) -> ScriptFileModel {
        ScriptFileModel {
            command_name: self.command_name@,
            handler: self.handler,
            file_name: self.file_name@,
            content: self.content@,
        }
    }
}

impl DeepView for ScriptFile {
    type V = ScriptFileModel;

    open spec fn deep_view(&self) -> ScriptFileModel {
        self@
    }
}

/// The full name of the command called `name` below the command with the
/// full name `parent`. An empty `parent` stands for the top of the tree.
pub open spec fn full_name(parent: Seq<char>, name: Seq<char>) -> Seq<char> {
    if parent.len() == 0 {
        name
    } else {
        parent + seq![' '] + name
    }
}

/// `c`, or an underscore where `c` is a space.
pub open spec fn underscored(c: char) -> char {
    if c == ' ' {
        '_'
    } else {
        c
    }
}

/// The name of the file for the script of the command with the given full
/// name: the full name with an underscore for every space, and the
/// extension.
pub open spec fn file_name_of(command_name: Seq<char>, extension: Seq<char>) -> Seq<char> {
    command_name.map_values(|c: char| underscored(c)) + extension
}

/// The file for `script`, which belongs to the command with the given full
/// name.
pub open spec fn script_file(command_name: Seq<char>, script: ScriptModel) -> ScriptFileModel {
    let handler = Handler::spec_select(script.executor);
    ScriptFileModel {
        command_name,
        handler,
        file_name: file_name_of(command_name, handler.spec_file_extension()),
        content: handler.spec_content(script),
    }
}

/// The files for the scripts in the tree of `command`, which stands below
/// the command with the full name `parent`: the command's own file first,
/// then those of its subcommands in their order.
pub open spec fn script_files(command: CommandNodeModel, parent: Seq<char>) -> Seq<
    ScriptFileModel,
>
    decreases command,
{
    let name = full_name(parent, command.name);
    let own = match command.script {
        Some(script) => seq![script_file(name, script)],
        None => Seq::empty(),
    };
    own + script_files_all(command.subcommands, name)
}

/// The files for the scripts in the trees of `commands`, which all stand
/// below the command with the full name `parent`.
pub open spec fn script_files_all(commands: Seq<CommandNodeModel>, parent: Seq<char>) -> Seq<
    ScriptFileModel,
>
    decreases commands,
{
    if commands.len() == 0 {
        Seq::empty()
    } else {
        script_files_all(commands.drop_last(), parent) + script_files(commands.last(), parent)
    }
}

/// Computes the full name of the command called `name` below the command
/// with the full name `parent`.
pub fn full_command_name(parent: &str, name: &str) -> (command_name: String)
    ensures
        command_name@ == full_name(parent@, name@),
{
    let mut command_name = chars_of(parent);
    if command_name.len() > 0 {
        command_name.push(' ');
    }
    let rest = chars_of(name);
    crate::text::append(&mut command_name, &rest);
    string_of(&command_name)
}

/// Computes the name of the file for a script of `handler`'s language that
/// belongs to the command with the given full name.
pub fn file_name(command_name: &str, handler: &Handler) -> (name: String)
    ensures
        name@ == file_name_of(command_name@, handler.spec_file_extension()),
{
    let letters = chars_of(command_name);
    let mut name: Vec<char> = Vec::new();
    let mut i: usize = 0;
    while i < letters.len()
        invariant
            i <= letters.len(),
            name@ == letters@.take(i as int).map_values(|c: char| underscored(c)),
        decreases letters.len() - i,
    {
        let c = letters[i];
        name.push(
            if c == ' ' {
                '_'
            } else {
                c
            },
        );
        i += 1;
        assert(letters@.take(i as int) == letters@.take(i - 1).push(c));
    }
    assert(letters@.take(letters.len() as int) == letters@);
    let extension = chars_of(handler.file_extension());
    crate::text::append(&mut name, &extension);
    string_of(&name)
}

/// Selects the handler of `script` and works out the file that the script
/// is written to.
pub fn materialize(command_name: &str, script: &Script) -> (file: ScriptFile)
    ensures
        file@ == script_file(command_name@, script@),
{
    let handler = Handler::select(script.executor.as_str());
    ScriptFile {
        command_name: String::from_str(command_name),
        handler,
        file_name: file_name(command_name, &handler),
        content: handler.content(script),
    }
}

/// Walks the tree of `command`, which stands below the command with the
/// full name `parent_name`, and appends the files for its scripts to
/// `files`.
pub fn process_command(command: &CommandNode, parent_name: &str, files: &mut Vec<ScriptFile>)
    ensures
        final(files).deep_view() == old(files).deep_view() + script_files(
            command@,
            parent_name@,
        ),
    decreases command,
{
    let ghost before = files.deep_view();
    let command_name = full_command_name(parent_name, command.name.as_str());
    match &command.script {
        Some(script) => {
            let file = materialize(command_name.as_str(), script);
            files.push(file);
            assert(files.deep_view() == before + seq![script_file(command_name@, script@)]);
        },
        None => {
            assert(files.deep_view() == before + Seq::<ScriptFileModel>::empty());
        },
    }
    let ghost own = files.deep_view();
    let mut i: usize = 0;
    proof {
        command.lemma_subcommands();
        assert(command.subcommands.deep_view().take(0) == Seq::<CommandNodeModel>::empty());
        assert(own == own + Seq::<ScriptFileModel>::empty());
    }
    while i < command.subcommands.len()
        invariant
            i <= command.subcommands.len(),
            files.deep_view() == own + script_files_all(
                command.subcommands.deep_view().take(i as int),
                command_name@,
            ),
        decreases command.subcommands.len() - i,
    {
        let ghost so_far = files.deep_view();
        let ghost models = command.subcommands.deep_view();
        process_command(&command.subcommands[i], command_name.as_str(), files);
        proof {
            assert(models.take(i + 1).drop_last() == models.take(i as int));
            assert(models.take(i + 1).last() == command.subcommands[i as int]@);
            assert(files.deep_view() == own + (script_files_all(
                models.take(i as int),
                command_name@,
            ) + script_files(command.subcommands[i as int]@, command_name@)));
        }
        i += 1;
    }
    proof {
        let models = command.subcommands.deep_view();
        assert(models.take(models.len() as int) == models);
        let subs = script_files_all(models, command_name@);
        match command@.script {
            Some(script) => {
                assert(before + seq![script_file(command_name@, script)] + subs == before + (
                seq![script_file(command_name@, script)] + subs));
            },
            None => {
                assert(before + Seq::<ScriptFileModel>::empty() + subs == before + (Seq::<
                    ScriptFileModel,
                >::empty() + subs));
            },
        }
    }
}

/// Walks the trees of `commands`, which all stand below the command with
/// the full name `parent_name`, and returns the files for their scripts.
pub fn process_commands(commands: &Vec<CommandNode>, parent_name: &str) -> (files: Vec<
    ScriptFile,
>)
    ensures
        files.deep_view() == script_files_all(commands.deep_view(), parent_name@),
{
    let mut files: Vec<ScriptFile> = Vec::new();
    let mut i: usize = 0;
    proof {
        assert(commands.deep_view().take(0) == Seq::<CommandNodeModel>::empty());
        assert(files.deep_view() == Seq::<ScriptFileModel>::empty());
    }
    while i < commands.len()
        invariant
            i <= commands.len(),
            files.deep_view() == script_files_all(
                commands.deep_view().take(i as int),
                parent_name@,
            ),
        decreases commands.len() - i,
    {
        let ghost models = commands.deep_view();
        process_command(&commands[i], parent_name, &mut files);
        proof {
            assert(models.take(i + 1).drop_last() == models.take(i as int));
            assert(models.take(i + 1).last() == commands[i as int]@);
        }
        i += 1;
    }
    assert(commands.deep_view().take(commands.len() as int) == commands.deep_view());
    files
}

} // verus!
