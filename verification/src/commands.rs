//! From a command line to the command that is run.

use crate::cli::{Cli, Command};
use crate::check_output::{check_passed, errors_of, CheckOutput};
use crate::error::CliError;
use crate::exif_data::FieldView;
use crate::new_file::{is_new_plan, NewPlan};
use crate::path::FilePath;
use crate::strip::StripMode;
use crate::strip_run::{after_change, strip_start, NextView, StripView};
use crate::write_run::writes_file;
use vstd::prelude::*;

verus! {

/// A command to run, and whether the tool introduces itself first.
pub struct Dispatch {
    pub shows_title: bool,
    pub dry_run: bool,
    pub command: Command,
}

/// Whether a command prints nothing but its own output: a report for machines,
/// and the browser.
pub open spec fn is_quiet(command: Command) -> bool {
    match command {
        Command::Strip(args) => args.json,
        Command::Interactive(_) => true,
        _ => false,
    }
}

/// What a command line asks for.
pub open spec fn dispatched(cli: Cli) -> Dispatch {
    Dispatch {
        shows_title: !is_quiet(cli.command),
        dry_run: cli.dry_run,
        command: cli.command,
    }
}

/// What a command line asks for.
pub fn write(cli: Cli) -> (r: Dispatch)
    ensures
        r == dispatched(cli),
{
    let quiet = match &cli.command {
        Command::Strip(args) => args.json,
        Command::Interactive(_) => true,
        _ => false,
    };
    Dispatch { shows_title: !quiet, dry_run: cli.dry_run, command: cli.command }
}

/// How a check ends: it fails where it found errors.
pub fn check_command(output: &CheckOutput) -> (r: Result<(), CliError>)
    ensures
        match r {
            Ok(_) => errors_of(*output) == 0,
            Err(error) => errors_of(*output) > 0 && error is Failure,
        },
{
    if check_passed(output) {
        Ok(())
    } else {
        Err(CliError::Failure)
    }
}

// ---------------------------------------------------------------------------
// Changes of files
// ---------------------------------------------------------------------------
/// What a command can ask to be done to a file.
pub enum FileChange {
    /// A metadata file is created.
    Create,
    /// An image loses metadata.
    Strip,
    /// Tags are written to an image.
    Write,
}

/// Whether the next step of a strip changes the file.
pub open spec fn strips_file(next: NextView) -> bool {
    next is ClearFile || next is ClearTiff || next is RemoveTags
}

/// Whether a strip may come to a step that changes a file.
pub open spec fn strip_may_change(dry_run: bool) -> bool {
    ||| exists|
        reading: Result<Seq<FieldView>, Seq<char>>,
        mode: StripMode,
        is_tiff: bool,
        verify: bool,
    |
        strips_file((#[trigger] strip_start(reading, mode, is_tiff, dry_run, verify)).1)
    ||| exists|result: StripView, failure: Option<Seq<char>>, verify: bool|
        strips_file((#[trigger] after_change(result, failure, verify)).1)
}

/// Whether setting tags may come to a file being written.
pub open spec fn write_may_change(dry_run: bool) -> bool {
    exists|pending: nat| #[trigger] writes_file(pending, dry_run)
}

/// Whether a new metadata file may be created.
pub open spec fn new_may_change(dry_run: bool) -> bool {
    exists|plan: NewPlan, metadata: FilePath, images: Seq<FilePath>, today: Seq<char>|
        #[trigger] is_new_plan(plan, metadata, images, today, dry_run) && plan is Create
}

/// Whether a command may ask for a change of a file.
pub open spec fn may_change(dispatch: Dispatch, change: FileChange) -> bool {
    match (dispatch.command, change) {
        (Command::New(_), FileChange::Create) => new_may_change(dispatch.dry_run),
        (Command::Strip(_), FileChange::Strip) => strip_may_change(dispatch.dry_run),
        (Command::Write(_), FileChange::Strip) => strip_may_change(dispatch.dry_run),
        (Command::Write(_), FileChange::Write) => write_may_change(dispatch.dry_run),
        (Command::Interactive(_), FileChange::Write) => write_may_change(dispatch.dry_run),
        _ => false,
    }
}

/// A dry run of any command asks for no change of a file.
pub proof fn law_dry_run_changes_no_file(cli: Cli, change: FileChange)
    requires
        cli.dry_run,
    ensures
        !may_change(dispatched(cli), change),
{
}

} // verus!
