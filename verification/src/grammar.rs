//! What a command line looks like: the arguments and subcommands of a command,
//! and what a line was read as.

use clap::builder::{PathBufValueParser, PossibleValuesParser};
use clap::Command as ClapCommand;
use clap::{Arg, ArgAction, ArgMatches};
use std::path::PathBuf;
use vstd::prelude::*;

verus! {

/// A command of `clap`.
#[verifier::external_type_specification]
#[verifier::external_body]
pub struct ExCommand(ClapCommand);

/// An argument of `clap`.
#[verifier::external_type_specification]
#[verifier::external_body]
pub struct ExArg(Arg);

/// What `clap` read a command line as.
#[verifier::external_type_specification]
#[verifier::external_body]
pub struct ExArgMatches(ArgMatches);

/// Why a command line was refused, or what it asked to be told instead: the
/// text, with and without terminal sequences, whether it is an error, and the
/// code to end with.
#[derive(Debug)]
pub struct LineError {
    pub text: String,
    pub styled_text: String,
    pub is_error: bool,
    pub exit_code: i32,
}

/// What an argument does with its values.
pub enum ActionModel {
    /// Keeps one.
    KeepOne,
    /// Takes none, and is true where it is given.
    TurnOn,
    /// Keeps all.
    KeepAll,
}

/// What the values of an argument are read as.
pub enum ParserModel {
    Text,
    Path,
    Choices(Seq<Seq<char>>),
}

/// An argument of a command.
pub struct ArgModel {
    pub id: Seq<char>,
    pub long: Option<Seq<char>>,
    pub short: Option<char>,
    pub help: Option<Seq<char>>,
    pub value_name: Option<Seq<char>>,
    pub delimiter: Option<char>,
    pub conflicts: Seq<Seq<char>>,
    pub action: ActionModel,
    pub global: bool,
    pub default: Option<Seq<char>>,
    pub required: bool,
    pub parser: ParserModel,
}

/// A command with its arguments and subcommands.
pub struct CommandModel {
    pub name: Seq<char>,
    pub about: Option<Seq<char>>,
    pub version: Option<Seq<char>>,
    pub propagate_version: bool,
    pub subcommand_required: bool,
    pub arg_required_else_help: bool,
    pub args: Seq<ArgModel>,
    pub subcommands: Seq<CommandModel>,
}

/// What a command line was read as: the flags, texts and paths by the names of
/// their arguments, and the subcommand.
pub struct MatchesModel {
    pub flags: Map<Seq<char>, bool>,
    pub texts: Map<Seq<char>, Seq<Seq<char>>>,
    pub paths: Map<Seq<char>, PathBuf>,
    pub subcommand: Option<(Seq<char>, Box<MatchesModel>)>,
}

/// What an `Arg` was built up to.
pub uninterp spec fn arg_model(arg: Arg) -> ArgModel;

/// What a `Command` was built up to.
pub uninterp spec fn command_model(command: ClapCommand) -> CommandModel;

/// What an `ArgMatches` holds.
pub uninterp spec fn matches_model(matches: ArgMatches) -> MatchesModel;

/// A positional argument without anything but its name.
pub open spec fn bare_arg(id: Seq<char>) -> ArgModel {
    ArgModel {
        id,
        long: None,
        short: None,
        help: None,
        value_name: None,
        delimiter: None,
        conflicts: Seq::empty(),
        action: ActionModel::KeepOne,
        global: false,
        default: None,
        required: false,
        parser: ParserModel::Text,
    }
}

/// A command without anything but its name.
pub open spec fn bare_command(name: Seq<char>) -> CommandModel {
    CommandModel {
        name,
        about: None,
        version: None,
        propagate_version: false,
        subcommand_required: false,
        arg_required_else_help: false,
        args: Seq::empty(),
        subcommands: Seq::empty(),
    }
}

/// `Arg::new`: an argument with a name to find it by, and nothing else set.
#[verifier::external_body]
pub(crate) fn new_arg(id: &'static str) -> (r: Arg)
    ensures
        arg_model(r) == bare_arg(id@),
{
    Arg::new(id)
}

/// `Arg::long`: the argument gets a flag of several letters.
#[verifier::external_body]
pub(crate) fn arg_long(arg: Arg, name: &'static str) -> (r: Arg)
    ensures
        arg_model(r) == (ArgModel { long: Some(name@), ..arg_model(arg) }),
{
    arg.long(name)
}

/// `Arg::short`: the argument gets a flag of one letter, which may not be a dash.
#[verifier::external_body]
pub(crate) fn arg_short(arg: Arg, name: char) -> (r: Arg)
    requires
        name != '-',
    ensures
        arg_model(r) == (ArgModel { short: Some(name), ..arg_model(arg) }),
{
    arg.short(name)
}

/// `Arg::help`: the argument gets a line of help.
#[verifier::external_body]
pub(crate) fn arg_help(arg: Arg, text: &'static str) -> (r: Arg)
    ensures
        arg_model(r) == (ArgModel { help: Some(text@), ..arg_model(arg) }),
{
    arg.help(text)
}

/// `Arg::value_name`: the value of the argument gets a name in the help.
#[verifier::external_body]
pub(crate) fn arg_value_name(arg: Arg, name: &'static str) -> (r: Arg)
    ensures
        arg_model(r) == (ArgModel { value_name: Some(name@), ..arg_model(arg) }),
{
    arg.value_name(name)
}

/// `Arg::value_delimiter`: one value of the argument is split into several.
#[verifier::external_body]
pub(crate) fn arg_delimiter(arg: Arg, delimiter: char) -> (r: Arg)
    ensures
        arg_model(r) == (ArgModel { delimiter: Some(delimiter), ..arg_model(arg) }),
{
    arg.value_delimiter(delimiter)
}

/// `Arg::conflicts_with`: the argument may not be given along with another.
#[verifier::external_body]
pub(crate) fn arg_conflict(arg: Arg, id: &'static str) -> (r: Arg)
    ensures
        arg_model(r) == (ArgModel {
            conflicts: arg_model(arg).conflicts.push(id@),
            ..arg_model(arg)
        }),
{
    arg.conflicts_with(id)
}

/// `Arg::action` with `ArgAction::SetTrue`: the argument is a flag that is true
/// once it is given.
#[verifier::external_body]
pub(crate) fn arg_set_true(arg: Arg) -> (r: Arg)
    ensures
        arg_model(r) == (ArgModel { action: ActionModel::TurnOn, ..arg_model(arg) }),
{
    arg.action(ArgAction::SetTrue)
}

/// `Arg::action` with `ArgAction::Append`: the argument may be given several
/// times and keeps all values.
#[verifier::external_body]
pub(crate) fn arg_append(arg: Arg) -> (r: Arg)
    ensures
        arg_model(r) == (ArgModel { action: ActionModel::KeepAll, ..arg_model(arg) }),
{
    arg.action(ArgAction::Append)
}

/// `Arg::global`: the argument may stand after a subcommand too.
#[verifier::external_body]
pub(crate) fn arg_global(arg: Arg) -> (r: Arg)
    ensures
        arg_model(r) == (ArgModel { global: true, ..arg_model(arg) }),
{
    arg.global(true)
}

/// `Arg::default_value`: the value of the argument where none is given.
#[verifier::external_body]
pub(crate) fn arg_default(arg: Arg, value: &'static str) -> (r: Arg)
    ensures
        arg_model(r) == (ArgModel { default: Some(value@), ..arg_model(arg) }),
{
    arg.default_value(value)
}

/// `Arg::required`: the argument may not be left out.
#[verifier::external_body]
pub(crate) fn arg_required(arg: Arg) -> (r: Arg)
    ensures
        arg_model(r) == (ArgModel { required: true, ..arg_model(arg) }),
{
    arg.required(true)
}

/// `Arg::value_parser` with `PathBufValueParser`: the value of the argument is a
/// path.
#[verifier::external_body]
pub(crate) fn arg_path(arg: Arg) -> (r: Arg)
    ensures
        arg_model(r) == (ArgModel { parser: ParserModel::Path, ..arg_model(arg) }),
{
    arg.value_parser(PathBufValueParser::new())
}

/// `Arg::value_parser` with `PossibleValuesParser`: the value of the argument is
/// one of two.
#[verifier::external_body]
pub(crate) fn arg_choice(arg: Arg, first: &'static str, second: &'static str) -> (r: Arg)
    ensures
        arg_model(r) == (ArgModel {
            parser: ParserModel::Choices(seq![first@, second@]),
            ..arg_model(arg)
        }),
{
    arg.value_parser(PossibleValuesParser::new([first, second]))
}

/// `Command::new`: a command with a name and nothing else set.
#[verifier::external_body]
pub(crate) fn new_command(name: &'static str) -> (r: ClapCommand)
    ensures
        command_model(r) == bare_command(name@),
{
    ClapCommand::new(name)
}

/// `Command::about`: the command gets a line of help.
#[verifier::external_body]
pub(crate) fn command_about(command: ClapCommand, text: &'static str) -> (r: ClapCommand)
    ensures
        command_model(r) == (CommandModel { about: Some(text@), ..command_model(command) }),
{
    command.about(text)
}

/// `Command::version`: the command gets a version to show.
#[verifier::external_body]
pub(crate) fn command_version(command: ClapCommand, version: &'static str) -> (r: ClapCommand)
    ensures
        command_model(r) == (CommandModel { version: Some(version@), ..command_model(command) }),
{
    command.version(version)
}

/// `Command::propagate_version`: the subcommands show the version too.
#[verifier::external_body]
pub(crate) fn command_propagate_version(command: ClapCommand) -> (r: ClapCommand)
    ensures
        command_model(r) == (CommandModel { propagate_version: true, ..command_model(command) }),
{
    command.propagate_version(true)
}

/// `Command::subcommand_required`: the command may not stand alone.
#[verifier::external_body]
pub(crate) fn command_subcommand_required(command: ClapCommand) -> (r: ClapCommand)
    ensures
        command_model(r) == (CommandModel { subcommand_required: true, ..command_model(command) }),
{
    command.subcommand_required(true)
}

/// `Command::arg_required_else_help`: a command that stands alone shows its help.
#[verifier::external_body]
pub(crate) fn command_arg_required_else_help(command: ClapCommand) -> (r: ClapCommand)
    ensures
        command_model(r) == (CommandModel {
            arg_required_else_help: true,
            ..command_model(command)
        }),
{
    command.arg_required_else_help(true)
}

/// `Command::arg`: the command takes one more argument.
#[verifier::external_body]
pub(crate) fn command_arg(command: ClapCommand, arg: Arg) -> (r: ClapCommand)
    ensures
        command_model(r) == (CommandModel {
            args: command_model(command).args.push(arg_model(arg)),
            ..command_model(command)
        }),
{
    command.arg(arg)
}

/// `Command::subcommand`: the command has one more subcommand.
#[verifier::external_body]
pub(crate) fn command_subcommand(command: ClapCommand, subcommand: ClapCommand) -> (r: ClapCommand)
    ensures
        command_model(r) == (CommandModel {
            subcommands: command_model(command).subcommands.push(command_model(subcommand)),
            ..command_model(command)
        }),
{
    command.subcommand(subcommand)
}

/// Whether an argument that cannot be left out, or has a default, has a value
/// that it allows.
pub open spec fn is_supplied(matches: MatchesModel, arg: ArgModel) -> bool {
    arg.required || arg.default is Some ==> match arg.parser {
        ParserModel::Path => matches.paths.dom().contains(arg.id),
        ParserModel::Text => matches.texts.dom().contains(arg.id)
            && matches.texts[arg.id].len() > 0,
        ParserModel::Choices(names) => {
            &&& matches.texts.dom().contains(arg.id)
            &&& matches.texts[arg.id].len() > 0
            &&& names.contains(matches.texts[arg.id][0])
        },
    }
}

/// Whether a subcommand of a command was given, with all it cannot do without.
pub open spec fn has_subcommand(matches: MatchesModel, command: CommandModel) -> bool {
    exists|k: int|
        0 <= k < command.subcommands.len() && matches.subcommand is Some
            && matches.subcommand->Some_0.0 == (#[trigger] command.subcommands[k]).name && forall|
            i: int,
        |
            0 <= i < command.subcommands[k].args.len() ==> is_supplied(
                *matches.subcommand->Some_0.1,
                #[trigger] command.subcommands[k].args[i],
            )
}

/// What a command line is read as, where the command allows it.
pub uninterp spec fn read_line(command: CommandModel, line: Seq<Seq<char>>) -> Option<MatchesModel>;

/// `Command::try_get_matches_from`: whether a line is refused, and what it is
/// read as, depends on nothing but the command and the line. A command that
/// requires a subcommand is read with one of its own, and every argument that is
/// required or has a default with a value. Of the error nothing is stated. The
/// call may panic on a command that is not put together as it should be, so only
/// that of this program is let through.
#[verifier::external_body]
pub(crate) fn read_command_line(command: ClapCommand, line: Vec<String>) -> (r: Result<
    ArgMatches,
    LineError,
>)
    requires
        command_model(command) == crate::cli::cli_model(),
    ensures
        match r {
            Ok(matches) => {
                &&& read_line(command_model(command), crate::text::texts(line@)) == Some(
                    matches_model(matches),
                )
                &&& command_model(command).subcommand_required ==> has_subcommand(
                    matches_model(matches),
                    command_model(command),
                )
            },
            Err(_) => read_line(command_model(command), crate::text::texts(line@)) is None,
        },
{
    command.try_get_matches_from(line).map_err(
        |error| LineError {
            text: error.render().to_string(),
            styled_text: error.render().ansi().to_string(),
            is_error: error.use_stderr(),
            exit_code: error.exit_code(),
        },
    )
}

/// The value of a flag; false for a name that is none.
pub open spec fn flag_value(matches: MatchesModel, id: Seq<char>) -> bool {
    matches.flags.dom().contains(id) && matches.flags[id]
}

/// `ArgMatches::try_get_one` of a truth value: whether a flag is true. A name
/// that is not that of a flag gives false.
#[verifier::external_body]
pub(crate) fn match_flag(matches: &ArgMatches, id: &str) -> (r: bool)
    ensures
        r == flag_value(matches_model(*matches), id@),
{
    matches.try_get_one::<bool>(id).ok().flatten().copied().unwrap_or(false)
}

/// The values of an argument that takes texts.
pub open spec fn text_values(matches: MatchesModel, id: Seq<char>) -> Seq<Seq<char>> {
    if matches.texts.dom().contains(id) {
        matches.texts[id]
    } else {
        Seq::empty()
    }
}

/// `ArgMatches::try_get_many` of texts: the values of an argument, in their
/// order. A name that is not that of such an argument gives none.
#[verifier::external_body]
pub(crate) fn match_texts(matches: &ArgMatches, id: &str) -> (r: Vec<String>)
    ensures
        crate::text::texts(r@) == text_values(matches_model(*matches), id@),
{
    matches.try_get_many::<String>(id).ok().flatten().map(
        |values| values.cloned().collect(),
    ).unwrap_or_default()
}

/// The value of an argument that takes a path.
pub open spec fn path_value(matches: MatchesModel, id: Seq<char>) -> Option<PathBuf> {
    if matches.paths.dom().contains(id) {
        Some(matches.paths[id])
    } else {
        None
    }
}

/// `ArgMatches::try_get_one` of a path: the value of an argument. A name that is
/// not that of such an argument gives none.
#[verifier::external_body]
pub(crate) fn match_path(matches: &ArgMatches, id: &str) -> (r: Option<PathBuf>)
    ensures
        r == path_value(matches_model(*matches), id@),
{
    matches.try_get_one::<PathBuf>(id).ok().flatten().cloned()
}

/// `ArgMatches::subcommand`: the name of the subcommand that was given, with what
/// its arguments were read as.
#[verifier::external_body]
pub(crate) fn match_subcommand(matches: &ArgMatches) -> (r: Option<(String, ArgMatches)>)
    ensures
        match r {
            Some(sub) => matches_model(*matches).subcommand == Some(
                (sub.0@, Box::new(matches_model(sub.1))),
            ),
            None => matches_model(*matches).subcommand is None,
        },
{
    matches.subcommand().map(|(name, matches)| (name.to_owned(), matches.clone()))
}

} // verus!
