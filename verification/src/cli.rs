//! The command line of the tool.

use crate::grammar::{
    arg_append, arg_choice, arg_conflict, arg_default, arg_delimiter, arg_global, arg_help,
    arg_long, arg_model, arg_path, arg_required, arg_set_true, arg_short, arg_value_name, bare_arg,
    bare_command, command_about, command_arg, command_arg_required_else_help, command_model,
    command_propagate_version, command_subcommand, command_subcommand_required, command_version,
    flag_value, has_subcommand, is_supplied, match_flag, match_path, match_subcommand, match_texts,
    matches_model, new_arg, new_command, path_value, read_command_line, read_line, text_values,
    ActionModel, ArgModel, CommandModel, LineError, MatchesModel, ParserModel,
};
use crate::text::{same, text_option, texts};
use crate::version::PACKAGE_VERSION;
use clap::{Arg, ArgMatches};
use std::path::PathBuf;
use vstd::prelude::*;

verus! {

#[derive(Debug, Clone, PartialEq, Eq)]
pub struct Cli {
    pub dry_run: bool,
    pub command: Command,
}

#[derive(Debug, Clone, PartialEq, Eq)]
pub enum Command {
    New(NewArgs),
    Check(CheckArgs),
    Read(ReadArgs),
    Write(WriteArgs),
    Strip(StripArgs),
    Interactive(InteractiveArgs),
}

#[derive(Debug, Clone, PartialEq, Eq)]
pub struct NewArgs {
    pub path: PathBuf,
}

#[derive(Debug, Clone, PartialEq, Eq)]
pub struct CheckArgs {
    pub path: Option<PathBuf>,
}

#[derive(Debug, Clone, PartialEq, Eq)]
pub struct InteractiveArgs {
    pub path: PathBuf,
}

#[derive(Debug, Clone, PartialEq, Eq)]
pub struct WriteArgs {
    pub metadata_or_targets: Option<PathBuf>,
    pub targets: Option<String>,
    pub strip: bool,
    pub keep: Vec<String>,
    pub remove: Vec<String>,
    pub privacy: bool,
    pub no_overwrite: bool,
    pub extensions: Vec<String>,
    pub recursive: bool,
}

#[derive(Debug, Clone, PartialEq, Eq)]
pub struct StripArgs {
    pub targets: Option<String>,
    pub keep: Vec<String>,
    pub remove: Vec<String>,
    pub extensions: Vec<String>,
    pub recursive: bool,
    pub verify: bool,
    pub privacy: bool,
    pub json: bool,
}

#[derive(Debug, Clone, PartialEq, Eq)]
pub struct ReadArgs {
    pub image: PathBuf,
    pub format: ReadFormat,
}

#[derive(Debug, Clone, Copy, PartialEq, Eq, Structural)]
pub enum ReadFormat {
    Pretty,
    Raw,
}

// ---------------------------------------------------------------------------
// The grammar
// ---------------------------------------------------------------------------
/// A flag.
pub open spec fn flag_model(id: Seq<char>, long: Seq<char>, help: Seq<char>) -> ArgModel {
    ArgModel {
        long: Some(long),
        help: Some(help),
        action: ActionModel::TurnOn,
        ..bare_arg(id)
    }
}

fn flag(id: &'static str, long: &'static str, help: &'static str) -> (r: Arg)
    ensures
        arg_model(r) == flag_model(id@, long@, help@),
{
    arg_set_true(arg_help(arg_long(new_arg(id), long), help))
}

/// An option that takes a comma-separated list, any number of times.
pub open spec fn list_model(id: Seq<char>, value_name: Seq<char>, help: Seq<char>) -> ArgModel {
    ArgModel {
        long: Some(id),
        value_name: Some(value_name),
        help: Some(help),
        delimiter: Some(','),
        action: ActionModel::KeepAll,
        ..bare_arg(id)
    }
}

fn list(id: &'static str, value_name: &'static str, help: &'static str) -> (r: Arg)
    ensures
        arg_model(r) == list_model(id@, value_name@, help@),
{
    arg_append(
        arg_delimiter(
            arg_help(arg_value_name(arg_long(new_arg(id), id), value_name), help),
            ',',
        ),
    )
}

/// A positional argument that may be left out.
pub open spec fn positional_model(id: Seq<char>, value_name: Seq<char>) -> ArgModel {
    ArgModel { value_name: Some(value_name), ..bare_arg(id) }
}

fn positional(id: &'static str, value_name: &'static str) -> (r: Arg)
    ensures
        arg_model(r) == positional_model(id@, value_name@),
{
    arg_value_name(new_arg(id), value_name)
}

/// A positional argument that is a path.
pub open spec fn path_model(id: Seq<char>, value_name: Seq<char>) -> ArgModel {
    ArgModel { parser: ParserModel::Path, ..positional_model(id, value_name) }
}

fn path_argument(id: &'static str, value_name: &'static str) -> (r: Arg)
    ensures
        arg_model(r) == path_model(id@, value_name@),
{
    arg_path(positional(id, value_name))
}

/// The command that works in a directory, the current one unless it is told
/// another.
pub open spec fn directory_command_model(name: Seq<char>, about: Seq<char>) -> CommandModel {
    CommandModel {
        about: Some(about),
        args: seq![
            ArgModel { default: Some("."@), ..path_model("path"@, "DIRECTORY"@) },
        ],
        ..bare_command(name)
    }
}

fn directory_command(name: &'static str, about: &'static str) -> (r: clap::Command)
    ensures
        command_model(r) == directory_command_model(name@, about@),
{
    let r = command_arg(
        command_about(new_command(name), about),
        arg_default(path_argument("path", "DIRECTORY"), "."),
    );
    proof {
        assert(command_model(r).args =~= directory_command_model(name@, about@).args);
    }
    r
}

pub open spec fn check_model() -> CommandModel {
    CommandModel {
        about: Some("Checks metadata.yml file is valid"@),
        args: seq![path_model("path"@, "PATH"@)],
        ..bare_command("check"@)
    }
}

fn check_command() -> (r: clap::Command)
    ensures
        command_model(r) == check_model(),
{
    let r = command_arg(
        command_about(new_command("check"), "Checks metadata.yml file is valid"),
        path_argument("path", "PATH"),
    );
    proof {
        assert(command_model(r).args =~= check_model().args);
    }
    r
}

pub open spec fn format_model() -> ArgModel {
    ArgModel {
        long: Some("format"@),
        help: Some("Choose the read output format"@),
        default: Some("pretty"@),
        parser: ParserModel::Choices(seq!["pretty"@, "raw"@]),
        value_name: Some("FORMAT"@),
        ..bare_arg("format"@)
    }
}

pub open spec fn read_model() -> CommandModel {
    CommandModel {
        about: Some("Read an image file's EXIF tags"@),
        args: seq![
            ArgModel { required: true, ..path_model("image"@, "IMAGE"@) },
            format_model(),
        ],
        ..bare_command("read"@)
    }
}

fn read_command() -> (r: clap::Command)
    ensures
        command_model(r) == read_model(),
{
    let format = arg_value_name(
        arg_choice(
            arg_default(
                arg_help(arg_long(new_arg("format"), "format"), "Choose the read output format"),
                "pretty",
            ),
            "pretty",
            "raw",
        ),
        "FORMAT",
    );
    let r = command_arg(
        command_arg(
            command_about(new_command("read"), "Read an image file's EXIF tags"),
            arg_required(path_argument("image", "IMAGE")),
        ),
        format,
    );
    proof {
        assert(command_model(r).args =~= read_model().args);
    }
    r
}

pub open spec fn extensions_model() -> ArgModel {
    ArgModel {
        short: Some('e'),
        ..list_model(
            "extensions"@,
            "EXTENSIONS"@,
            "Restrict processing to comma-separated file extensions"@,
        )
    }
}

fn extensions_argument() -> (r: Arg)
    ensures
        arg_model(r) == extensions_model(),
{
    arg_short(
        list(
            "extensions",
            "EXTENSIONS",
            "Restrict processing to comma-separated file extensions",
        ),
        'e',
    )
}

pub open spec fn recursive_model() -> ArgModel {
    flag_model("recursive"@, "recursive"@, "Find image files across all subdirectories"@)
}

fn recursive_argument() -> (r: Arg)
    ensures
        arg_model(r) == recursive_model(),
{
    flag("recursive", "recursive", "Find image files across all subdirectories")
}

pub open spec fn write_model() -> CommandModel {
    CommandModel {
        about: Some("Writes EXIF tags defined in metadata.yml to target image files"@),
        args: seq![
            path_model("metadata_or_targets"@, "METADATA_OR_TARGETS"@),
            positional_model("targets"@, "TARGETS"@),
            ArgModel {
                conflicts: seq!["keep"@, "remove"@, "privacy"@],
                ..flag_model(
                    "strip"@,
                    "strip"@,
                    "Remove existing EXIF data before adding new data"@,
                )
            },
            ArgModel {
                conflicts: seq!["privacy"@],
                ..list_model(
                    "keep"@,
                    "TAGS"@,
                    "Strip all EXIF tags except the comma-separated tag names before adding new data"@,
                )
            },
            list_model(
                "remove"@,
                "TAGS"@,
                "Remove only the comma-separated EXIF tag names before adding new data"@,
            ),
            ArgModel {
                conflicts: seq!["keep"@],
                ..flag_model(
                    "privacy"@,
                    "privacy"@,
                    "Remove privacy-sensitive EXIF tags before adding new data"@,
                )
            },
            flag_model("no_overwrite"@, "no-overwrite"@, "Prevent overwriting existing EXIF data"@),
            extensions_model(),
            recursive_model(),
        ],
        ..bare_command("write"@)
    }
}

fn write_command() -> (r: clap::Command)
    ensures
        command_model(r) == write_model(),
{
    let strip = flag("strip", "strip", "Remove existing EXIF data before adding new data");
    let strip = arg_conflict(arg_conflict(arg_conflict(strip, "keep"), "remove"), "privacy");
    let keep = arg_conflict(
        list(
            "keep",
            "TAGS",
            "Strip all EXIF tags except the comma-separated tag names before adding new data",
        ),
        "privacy",
    );
    let remove = list(
        "remove",
        "TAGS",
        "Remove only the comma-separated EXIF tag names before adding new data",
    );
    let privacy = arg_conflict(
        flag(
            "privacy",
            "privacy",
            "Remove privacy-sensitive EXIF tags before adding new data",
        ),
        "keep",
    );
    let no_overwrite = flag(
        "no_overwrite",
        "no-overwrite",
        "Prevent overwriting existing EXIF data",
    );
    proof {
        assert(arg_model(strip).conflicts =~= seq!["keep"@, "remove"@, "privacy"@]);
        assert(arg_model(keep).conflicts =~= seq!["privacy"@]);
        assert(arg_model(privacy).conflicts =~= seq!["keep"@]);
    }
    let r = command_about(
        new_command("write"),
        "Writes EXIF tags defined in metadata.yml to target image files",
    );
    let r = command_arg(r, path_argument("metadata_or_targets", "METADATA_OR_TARGETS"));
    let r = command_arg(r, positional("targets", "TARGETS"));
    let r = command_arg(r, strip);
    let r = command_arg(r, keep);
    let r = command_arg(r, remove);
    let r = command_arg(r, privacy);
    let r = command_arg(r, no_overwrite);
    let r = command_arg(r, extensions_argument());
    let r = command_arg(r, recursive_argument());
    proof {
        assert(command_model(r).args =~= write_model().args);
    }
    r
}

pub open spec fn strip_model() -> CommandModel {
    CommandModel {
        about: Some(
            "Tool to remove all (or a select few) EXIF tags from target image files"@,
        ),
        args: seq![
            positional_model("targets"@, "TARGETS"@),
            ArgModel {
                conflicts: seq!["privacy"@],
                ..list_model(
                    "keep"@,
                    "TAGS"@,
                    "Strip all EXIF tags except the comma-separated tag names"@,
                )
            },
            list_model(
                "remove"@,
                "TAGS"@,
                "Remove only the comma-separated EXIF tag names"@,
            ),
            extensions_model(),
            recursive_model(),
            flag_model(
                "verify"@,
                "verify"@,
                "Verify that no EXIF metadata remains after stripping"@,
            ),
            ArgModel {
                conflicts: seq!["keep"@],
                ..flag_model(
                    "privacy"@,
                    "privacy"@,
                    "Remove privacy-sensitive EXIF tags while keeping harmless technical tags"@,
                )
            },
            flag_model("json"@, "json"@, "Emit a machine-readable JSON report"@),
        ],
        ..bare_command("strip"@)
    }
}

fn strip_command() -> (r: clap::Command)
    ensures
        command_model(r) == strip_model(),
{
    let keep = arg_conflict(
        list("keep", "TAGS", "Strip all EXIF tags except the comma-separated tag names"),
        "privacy",
    );
    let privacy = arg_conflict(
        flag(
            "privacy",
            "privacy",
            "Remove privacy-sensitive EXIF tags while keeping harmless technical tags",
        ),
        "keep",
    );
    proof {
        assert(arg_model(keep).conflicts =~= seq!["privacy"@]);
        assert(arg_model(privacy).conflicts =~= seq!["keep"@]);
    }
    let r = command_about(
        new_command("strip"),
        "Tool to remove all (or a select few) EXIF tags from target image files",
    );
    let r = command_arg(r, positional("targets", "TARGETS"));
    let r = command_arg(r, keep);
    let r = command_arg(
        r,
        list("remove", "TAGS", "Remove only the comma-separated EXIF tag names"),
    );
    let r = command_arg(r, extensions_argument());
    let r = command_arg(r, recursive_argument());
    let r = command_arg(
        r,
        flag("verify", "verify", "Verify that no EXIF metadata remains after stripping"),
    );
    let r = command_arg(r, privacy);
    let r = command_arg(r, flag("json", "json", "Emit a machine-readable JSON report"));
    proof {
        assert(command_model(r).args =~= strip_model().args);
    }
    r
}

/// The whole command line.
pub open spec fn cli_model() -> CommandModel {
    CommandModel {
        about: Some("Read metadata.yml and write EXIF metadata to image files"@),
        version: Some(PACKAGE_VERSION@),
        propagate_version: true,
        subcommand_required: true,
        arg_required_else_help: true,
        args: seq![
            ArgModel {
                global: true,
                ..flag_model(
                    "dry_run"@,
                    "dry-run"@,
                    "Simulate actions without changing files"@,
                )
            },
        ],
        subcommands: seq![
            directory_command_model("new"@, "Create metadata.yml file"@),
            check_model(),
            read_model(),
            write_model(),
            strip_model(),
            directory_command_model(
                "interactive"@,
                "Interactively browse folders and read image EXIF tags"@,
            ),
        ],
        ..bare_command("exifmeta"@)
    }
}

// ---------------------------------------------------------------------------
// Reading
// ---------------------------------------------------------------------------
/// The first value of an argument that takes texts.
pub open spec fn first_text(matches: MatchesModel, id: Seq<char>) -> Option<Seq<char>> {
    let values = text_values(matches, id);
    if values.len() > 0 {
        Some(values[0])
    } else {
        None
    }
}

fn one_text(matches: &ArgMatches, id: &str) -> (r: Option<String>)
    ensures
        text_option(r) == first_text(matches_model(*matches), id@),
{
    let mut values = match_texts(matches, id);
    let ghost all = texts(values@);
    if values.len() == 0 {
        None
    } else {
        proof {
            assert(all[0] == values@[0]@);
        }
        Some(values.swap_remove(0))
    }
}

/// Whether a command is what a subcommand was read as.
pub open spec fn is_command_of(command: Command, name: Seq<char>, matches: MatchesModel) -> bool {
    match command {
        Command::New(args) => name == "new"@ && Some(args.path) == path_value(matches, "path"@),
        Command::Check(args) => name == "check"@ && args.path == path_value(matches, "path"@),
        Command::Read(args) => {
            &&& name == "read"@
            &&& Some(args.image) == path_value(matches, "image"@)
            &&& first_text(matches, "format"@) == Some(
                match args.format {
                    ReadFormat::Pretty => "pretty"@,
                    ReadFormat::Raw => "raw"@,
                },
            )
        },
        Command::Write(args) => {
            &&& name == "write"@
            &&& args.metadata_or_targets == path_value(matches, "metadata_or_targets"@)
            &&& text_option(args.targets) == first_text(matches, "targets"@)
            &&& args.strip == flag_value(matches, "strip"@)
            &&& texts(args.keep@) == text_values(matches, "keep"@)
            &&& texts(args.remove@) == text_values(matches, "remove"@)
            &&& args.privacy == flag_value(matches, "privacy"@)
            &&& args.no_overwrite == flag_value(matches, "no_overwrite"@)
            &&& texts(args.extensions@) == text_values(matches, "extensions"@)
            &&& args.recursive == flag_value(matches, "recursive"@)
        },
        Command::Strip(args) => {
            &&& name == "strip"@
            &&& text_option(args.targets) == first_text(matches, "targets"@)
            &&& texts(args.keep@) == text_values(matches, "keep"@)
            &&& texts(args.remove@) == text_values(matches, "remove"@)
            &&& texts(args.extensions@) == text_values(matches, "extensions"@)
            &&& args.recursive == flag_value(matches, "recursive"@)
            &&& args.verify == flag_value(matches, "verify"@)
            &&& args.privacy == flag_value(matches, "privacy"@)
            &&& args.json == flag_value(matches, "json"@)
        },
        Command::Interactive(args) => name == "interactive"@ && Some(args.path) == path_value(
            matches,
            "path"@,
        ),
    }
}

/// Whether a command line is what was read.
pub open spec fn is_cli_of(cli: Cli, matches: MatchesModel) -> bool {
    &&& cli.dry_run == flag_value(matches, "dry_run"@)
    &&& matches.subcommand is Some
    &&& is_command_of(
        cli.command,
        matches.subcommand->Some_0.0,
        *matches.subcommand->Some_0.1,
    )
}

fn write_args(matches: &ArgMatches) -> (r: Command)
    ensures
        is_command_of(r, "write"@, matches_model(*matches)),
{
    Command::Write(
        WriteArgs {
            metadata_or_targets: match_path(matches, "metadata_or_targets"),
            targets: one_text(matches, "targets"),
            strip: match_flag(matches, "strip"),
            keep: match_texts(matches, "keep"),
            remove: match_texts(matches, "remove"),
            privacy: match_flag(matches, "privacy"),
            no_overwrite: match_flag(matches, "no_overwrite"),
            extensions: match_texts(matches, "extensions"),
            recursive: match_flag(matches, "recursive"),
        },
    )
}

fn strip_args(matches: &ArgMatches) -> (r: Command)
    ensures
        is_command_of(r, "strip"@, matches_model(*matches)),
{
    Command::Strip(
        StripArgs {
            targets: one_text(matches, "targets"),
            keep: match_texts(matches, "keep"),
            remove: match_texts(matches, "remove"),
            extensions: match_texts(matches, "extensions"),
            recursive: match_flag(matches, "recursive"),
            verify: match_flag(matches, "verify"),
            privacy: match_flag(matches, "privacy"),
            json: match_flag(matches, "json"),
        },
    )
}

fn read_args(matches: &ArgMatches) -> (r: Option<Command>)
    ensures
        match r {
            Some(command) => is_command_of(command, "read"@, matches_model(*matches)),
            None => forall|command: Command|
                !is_command_of(command, "read"@, matches_model(*matches)),
        },
{
    proof {
        lemma_names_differ();
    }
    let image = match match_path(matches, "image") {
        Some(image) => image,
        None => return None,
    };
    let format = match one_text(matches, "format") {
        Some(format) => format,
        None => return None,
    };
    if same(format.as_str(), "raw") {
        Some(Command::Read(ReadArgs { image, format: ReadFormat::Raw }))
    } else if same(format.as_str(), "pretty") {
        Some(Command::Read(ReadArgs { image, format: ReadFormat::Pretty }))
    } else {
        None
    }
}

/// Whether a command line can be what was read.
pub open spec fn is_cli(matches: MatchesModel) -> bool {
    exists|cli: Cli| is_cli_of(cli, matches)
}

impl Cli {
    /// The grammar of the command line.
    pub fn command() -> (r: clap::Command)
        ensures
            command_model(r) == cli_model(),
    {
        let dry_run = arg_global(
            flag("dry_run", "dry-run", "Simulate actions without changing files"),
        );
        let r = command_about(
            new_command("exifmeta"),
            "Read metadata.yml and write EXIF metadata to image files",
        );
        let r = command_propagate_version(command_version(r, PACKAGE_VERSION));
        let r = command_arg_required_else_help(command_subcommand_required(r));
        let r = command_arg(r, dry_run);
        let r = command_subcommand(r, directory_command("new", "Create metadata.yml file"));
        let r = command_subcommand(r, check_command());
        let r = command_subcommand(r, read_command());
        let r = command_subcommand(r, write_command());
        let r = command_subcommand(r, strip_command());
        let r = command_subcommand(
            r,
            directory_command(
                "interactive",
                "Interactively browse folders and read image EXIF tags",
            ),
        );
        proof {
            assert(command_model(r).args =~= cli_model().args);
            assert(command_model(r).subcommands =~= cli_model().subcommands);
        }
        r
    }

    /// What a command line was read as, put in terms of the commands. What names none
    /// of them, or lacks what the command cannot do without, is none.
    pub fn from_matches(matches: &ArgMatches) -> (r: Option<Cli>)
        ensures
            match r {
                Some(cli) => is_cli_of(cli, matches_model(*matches)),
                None => !is_cli(matches_model(*matches)),
            },
            has_subcommand(matches_model(*matches), cli_model()) ==> r is Some,
    {
        let ghost model = matches_model(*matches);
        proof {
            lemma_names_differ();
            if has_subcommand(model, cli_model()) {
                lemma_given_subcommand(model);
            }
        }
        let (name, sub) = match match_subcommand(matches) {
            Some(found) => found,
            None => return None,
        };
        let dry_run = match_flag(matches, "dry_run");
        let n = name.as_str();
        let command = if same(n, "new") {
            match match_path(&sub, "path") {
                Some(path) => Command::New(NewArgs { path }),
                None => return None,
            }
        } else if same(n, "check") {
            Command::Check(CheckArgs { path: match_path(&sub, "path") })
        } else if same(n, "read") {
            match read_args(&sub) {
                Some(command) => command,
                None => {
                    proof {
                        if has_subcommand(model, cli_model()) {
                            lemma_given_read(matches_model(sub));
                        }
                    }
                    return None
                },
            }
        } else if same(n, "write") {
            write_args(&sub)
        } else if same(n, "strip") {
            strip_args(&sub)
        } else if same(n, "interactive") {
            match match_path(&sub, "path") {
                Some(path) => Command::Interactive(InteractiveArgs { path }),
                None => return None,
            }
        } else {
            return None;
        };
        Some(Cli { dry_run, command })
    }

    /// Reads a command line; its first word is the name of the program.
    pub fn try_parse_from(line: Vec<String>) -> (r: Result<Cli, LineError>)
        ensures
            match r {
                Ok(cli) => {
                    &&& read_line(cli_model(), texts(line@)) is Some
                    &&& is_cli_of(cli, read_line(cli_model(), texts(line@))->Some_0)
                },
                Err(_) => read_line(cli_model(), texts(line@)) is None,
            },
    {
        match read_command_line(Cli::command(), line) {
            Ok(matches) => Ok(Cli::from_matches(&matches).unwrap()),
            Err(error) => Err(error),
        }
    }
}

proof fn lemma_given_subcommand(model: MatchesModel)
    requires
        has_subcommand(model, cli_model()),
    ensures
        model.subcommand is Some,
        ({
            let (name, sub) = model.subcommand->Some_0;
            &&& name == "new"@ || name == "check"@ || name == "read"@ || name == "write"@ || name
                == "strip"@ || name == "interactive"@
            &&& name == "new"@ || name == "interactive"@ ==> path_value(*sub, "path"@) is Some
            &&& name == "read"@ ==> {
                &&& path_value(*sub, "image"@) is Some
                &&& first_text(*sub, "format"@) == Some("pretty"@) || first_text(*sub, "format"@)
                    == Some("raw"@)
            }
        }),
{
    lemma_names_differ();
    let all = cli_model().subcommands;
    let (name, sub) = model.subcommand->Some_0;
    let k = choose|k: int|
        0 <= k < all.len() && model.subcommand is Some && model.subcommand->Some_0.0 == (
        #[trigger] all[k]).name && forall|i: int|
            0 <= i < all[k].args.len() ==> is_supplied(
                *model.subcommand->Some_0.1,
                #[trigger] all[k].args[i],
            );
    assert(all[k].name == name);
    if all[k].args.len() > 0 {
        assert(is_supplied(*sub, all[k].args[0]));
    }
    if all[k].args.len() > 1 {
        assert(is_supplied(*sub, all[k].args[1]));
    }
    assert(all.len() == 6);
    assert(k == 0 || k == 1 || k == 2 || k == 3 || k == 4 || k == 5);
    if name == "read"@ {
        let names = seq!["pretty"@, "raw"@];
        assert(names.contains(sub.texts["format"@][0]));
        let i = choose|i: int| 0 <= i < 2 && names[i] == sub.texts["format"@][0];
        assert(names[0] == "pretty"@ && names[1] == "raw"@);
    }
}

proof fn lemma_given_read(sub: MatchesModel)
    requires
        path_value(sub, "image"@) is Some,
        first_text(sub, "format"@) == Some("pretty"@) || first_text(sub, "format"@) == Some("raw"@),
    ensures
        exists|command: Command| is_command_of(command, "read"@, sub),
{
    let format = if first_text(sub, "format"@) == Some("pretty"@) {
        ReadFormat::Pretty
    } else {
        ReadFormat::Raw
    };
    let args = ReadArgs { image: path_value(sub, "image"@)->Some_0, format };
    assert(is_command_of(Command::Read(args), "read"@, sub));
}

proof fn lemma_names_differ()
    ensures
        "new"@ != "check"@,
        "new"@ != "read"@,
        "new"@ != "write"@,
        "new"@ != "strip"@,
        "new"@ != "interactive"@,
        "check"@ != "read"@,
        "check"@ != "write"@,
        "check"@ != "strip"@,
        "check"@ != "interactive"@,
        "read"@ != "write"@,
        "read"@ != "strip"@,
        "read"@ != "interactive"@,
        "write"@ != "strip"@,
        "write"@ != "interactive"@,
        "strip"@ != "interactive"@,
{
    reveal_strlit("new");
    reveal_strlit("check");
    reveal_strlit("read");
    reveal_strlit("write");
    reveal_strlit("strip");
    reveal_strlit("interactive");
    assert("new"@.len() == 3 && "read"@.len() == 4 && "interactive"@.len() == 11);
    assert("check"@.len() == 5 && "write"@.len() == 5 && "strip"@.len() == 5);
    assert("check"@[0] == 'c' && "write"@[0] == 'w' && "strip"@[0] == 's');
}

} // verus!
