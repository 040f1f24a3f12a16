//! The command tree of a maskfile.

use vstd::prelude::*;

verus! {

/// A script as written in the maskfile.
#[derive(Debug, PartialEq, Eq)]
pub struct Script {
    /// The language tag of the script's code block, such as `sh` or `py`.
    pub executor: String,
    /// The script's text, exactly as written.
    pub source: String,
}

/// A named command, its script if it has one, and its subcommands in the
/// order of the document.
#[derive(Debug, PartialEq, Eq)]
pub struct CommandNode {
    pub name: String,
    pub script: Option<Script>,
    pub subcommands: Vec<CommandNode>,
}

/// What a [`Script`] stands for.
pub struct ScriptModel {
    pub executor: Seq<char>,
    pub source: Seq<char>,
}

/// What a [`CommandNode`] stands for.
pub struct CommandNodeModel {
    pub name: Seq<char>,
    pub script: Option<ScriptModel>,
    pub subcommands: Seq<CommandNodeModel>,
}

impl View for Script {
    type V = ScriptModel;

    open spec fn view(&self) -> ScriptModel {
        ScriptModel { executor: self.executor@, source: self.source@ }
    }
}

impl DeepView for Script {
    type V = ScriptModel;

    open spec fn deep_view(&self) -> ScriptModel {
        self@
    }
}

/// The model of a command.
pub open spec fn node_model(command: CommandNode) -> CommandNodeModel
    decreases command,
{
    CommandNodeModel {
        name: command.name@,
        script: match command.script {
            Some(script) => Some(script@),
            None => None,
        },
        subcommands: node_models(command.subcommands@),
    }
}

/// The models of a sequence of commands.
pub open spec fn node_models(commands: Seq<CommandNode>) -> Seq<CommandNodeModel>
    decreases commands,
{
    if commands.len() == 0 {
        Seq::empty()
    } else {
        node_models(commands.drop_last()).push(node_model(commands.last()))
    }
}

impl View for CommandNode {
    type V = CommandNodeModel;

    open spec fn view(&self) -> CommandNodeModel {
        node_model(*self)
    }
}

impl DeepView for CommandNode {
    type V = CommandNodeModel;

    open spec fn deep_view(&self) -> CommandNodeModel {
        self@
    }
}

/// The models of a sequence of commands are the models of its members.
pub proof fn lemma_node_models(commands: Seq<CommandNode>)
    ensures
        node_models(commands).len() == commands.len(),
        forall|i: int| 0 <= i < commands.len() ==> node_models(commands)[i] == commands[i]@,
    decreases commands.len(),
{
    if commands.len() > 0 {
        lemma_node_models(commands.drop_last());
    }
}

impl CommandNode {
    /// The subcommands of a command's model are the models of its
    /// subcommands.
    pub proof fn lemma_subcommands(&self)
        ensures
            self@.subcommands == self.subcommands.deep_view(),
    {
        lemma_node_models(self.subcommands@);
        assert(self@.subcommands =~= self.subcommands.deep_view());
    }
}

/// The number of commands in the tree of `command` that carry a script.
pub open spec fn script_count(command: CommandNodeModel) -> nat
    decreases command,
{
    (if command.script is Some {
        1nat
    } else {
        0nat
    }) + script_count_all(command.subcommands)
}

/// The number of commands in the trees of `commands` that carry a script.
pub open spec fn script_count_all(commands: Seq<CommandNodeModel>) -> nat
    decreases commands,
{
    if commands.len() == 0 {
        0
    } else {
        script_count_all(commands.drop_last()) + script_count(commands.last())
    }
}

/// `mask_parser::maskfile::Command`, a command as the parser hands it out.
/// Nothing is known of what it holds.
#[verifier::external_type_specification]
#[verifier::external_body]
pub struct ExParsedCommand(mask_parser::maskfile::Command);

/// The top-level commands that `mask_parser::parse` finds in a maskfile with
/// the given text.
pub uninterp spec fn parsed_commands(content: Seq<char>) -> Seq<CommandNodeModel>;

/// Copies the name, the script and the subcommands out of a
/// `mask_parser::maskfile::Command`. Nothing is claimed of the result.
#[verifier::external_body]
fn command_from(parsed: mask_parser::maskfile::Command) -> CommandNode {
    CommandNode {
        name: parsed.name,
        script: parsed.script.map(|s| Script { executor: s.executor, source: s.source }),
        subcommands: parsed.subcommands.into_iter().map(command_from).collect(),
    }
}

/// `mask_parser::parse`: reads the text of a maskfile as markdown and
/// returns the commands below its title as a tree, of which the name, the
/// script and the subcommands of each command are kept. The parser looks
/// at nothing but the text, so its result is a function of the text; built
/// for Windows it keeps code blocks that it passes over elsewhere, so the
/// function is that of the platform the library is built for.
#[verifier::external_body]
pub(crate) fn parse_commands(content: String) -> (commands: Vec<CommandNode>)
    ensures
        commands.deep_view() == parsed_commands(content@),
{
    mask_parser::parse(content).commands.into_iter().map(command_from).collect()
}

} // verus!
