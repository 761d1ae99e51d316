//! The command line.

use exifmeta::cli::{CheckArgs, Cli, Command, ReadFormat};
use exifmeta::grammar::LineError;
use std::path::PathBuf;

fn parse(line: &[&str]) -> Result<Cli, LineError> {
    Cli::try_parse_from(line.iter().map(|word| word.to_string()).collect())
}

#[test]
fn help_lists_commands_in_documented_order() {
    let mut command = Cli::command();
    let help = command.render_help().to_string();
    let expected_order = ["new", "check", "read", "write", "strip", "interactive"];
    let mut previous_position = 0;

    for expected_command in expected_order {
        let position = help
            .find(&format!("  {expected_command}"))
            .unwrap_or_else(|| panic!("expected help to list {expected_command} command"));

        assert!(
            position >= previous_position,
            "expected {expected_command} to appear after previous command in help:\n{help}"
        );

        previous_position = position;
    }

    let help_position = help
        .find("  help")
        .expect("expected help to list generated help command");
    assert!(
        help_position >= previous_position,
        "expected generated help command to appear after app commands:\n{help}"
    );
}

#[test]
fn help_lists_readme_command_descriptions() {
    let mut command = Cli::command();
    let help = command.render_help().to_string();
    let expected_descriptions = [
        "Create metadata.yml file",
        "Checks metadata.yml file is valid",
        "Read an image file's EXIF tags",
        "Writes EXIF tags defined in metadata.yml to target image files",
        "Tool to remove all (or a select few) EXIF tags from target image files",
        "Interactively browse folders and read image EXIF tags",
    ];

    for expected_description in expected_descriptions {
        assert!(
            help.contains(expected_description),
            "expected help to include README command description {expected_description:?}:\n{help}"
        );
    }
}

#[test]
fn parses_each_readme_command() {
    for command in ["new", "check", "write", "strip", "interactive"] {
        assert!(
            parse(&["exifmeta", command]).is_ok(),
            "expected {command} to parse"
        );
    }

    assert!(parse(&["exifmeta", "read", "image.jpg"]).is_ok());
}

#[test]
fn parses_new_default_path() {
    let cli = parse(&["exifmeta", "new"]).expect("new should parse");

    let Command::New(args) = cli.command else {
        panic!("expected new command");
    };

    assert_eq!(args.path, PathBuf::from("."));
}

#[test]
fn parses_new_path() {
    let cli = parse(&["exifmeta", "new", "some/other/directory"])
        .expect("new path should parse");

    let Command::New(args) = cli.command else {
        panic!("expected new command");
    };

    assert_eq!(args.path, PathBuf::from("some/other/directory"));
}

#[test]
fn parses_interactive_default_path() {
    let cli =
        parse(&["exifmeta", "interactive"]).expect("interactive should parse");

    let Command::Interactive(args) = cli.command else {
        panic!("expected interactive command");
    };

    assert_eq!(args.path, PathBuf::from("."));
}

#[test]
fn parses_interactive_path() {
    let cli = parse(&["exifmeta", "interactive", "some/photos"])
        .expect("interactive path should parse");

    let Command::Interactive(args) = cli.command else {
        panic!("expected interactive command");
    };

    assert_eq!(args.path, PathBuf::from("some/photos"));
}

#[test]
fn parses_read_default_format() {
    let cli = parse(&["exifmeta", "read", "image.jpg"])
        .expect("read command should parse");

    let Command::Read(args) = cli.command else {
        panic!("expected read command");
    };

    assert_eq!(args.image, PathBuf::from("image.jpg"));
    assert_eq!(args.format, ReadFormat::Pretty);
}

#[test]
fn parses_read_raw_format() {
    let cli = parse(&["exifmeta", "read", "image.jpg", "--format", "raw"])
        .expect("read raw format should parse");

    let Command::Read(args) = cli.command else {
        panic!("expected read command");
    };

    assert_eq!(args.format, ReadFormat::Raw);
}

#[test]
fn rejects_invalid_read_format() {
    assert!(
        parse(&["exifmeta", "read", "image.jpg", "--format", "json"]).is_err()
    );
}

#[test]
fn rejects_write_flags_on_read() {
    assert!(parse(&["exifmeta", "read", "image.jpg", "--recursive"]).is_err());
}

#[test]
fn parses_write_flags() {
    let cli = parse(&[
        "exifmeta",
        "--dry-run",
        "write",
        "--strip",
        "--no-overwrite",
        "--extensions",
        "jpg,tiff",
        "--recursive",
    ])
    .expect("write flags should parse");

    assert!(cli.dry_run);

    let Command::Write(args) = cli.command else {
        panic!("expected write command");
    };

    assert!(args.strip);
    assert!(args.keep.is_empty());
    assert!(args.remove.is_empty());
    assert!(!args.privacy);
    assert!(args.no_overwrite);
    assert!(args.recursive);
    assert_eq!(args.extensions, ["jpg", "tiff"]);
}

#[test]
fn parses_write_keep() {
    let cli = parse(&["exifmeta", "write", "--keep", "Make,Model"])
        .expect("write keep should parse");

    let Command::Write(args) = cli.command else {
        panic!("expected write command");
    };

    assert!(!args.strip);
    assert_eq!(args.keep, ["Make", "Model"]);
    assert!(args.remove.is_empty());
    assert!(!args.privacy);
}

#[test]
fn parses_write_repeated_remove_values() {
    let cli = parse(&[
        "exifmeta",
        "write",
        "--remove",
        "GPSLatitude,GPSLongitude",
        "--remove",
        "UserComment",
    ])
    .expect("write repeated remove values should parse");

    let Command::Write(args) = cli.command else {
        panic!("expected write command");
    };

    assert_eq!(args.remove, ["GPSLatitude", "GPSLongitude", "UserComment"]);
}

#[test]
fn parses_write_remove_with_privacy() {
    let cli = parse(&["exifmeta", "write", "--privacy", "--remove", "FNumber"])
        .expect("write remove should compose with privacy");

    let Command::Write(args) = cli.command else {
        panic!("expected write command");
    };

    assert!(args.privacy);
    assert_eq!(args.remove, ["FNumber"]);
}

#[test]
fn rejects_conflicting_write_strip_modes() {
    assert!(parse(&["exifmeta", "write", "--privacy", "--keep", "Make"]).is_err());
    assert!(parse(&["exifmeta", "write", "--strip", "--keep", "Make"]).is_err());
    assert!(parse(&["exifmeta", "write", "--strip", "--remove", "Make"]).is_err());
    assert!(parse(&["exifmeta", "write", "--strip", "--privacy"]).is_err());
}

#[test]
fn parses_strip_default_args() {
    let cli = parse(&["exifmeta", "strip"]).expect("strip should parse");

    let Command::Strip(args) = cli.command else {
        panic!("expected strip command");
    };

    assert_eq!(args.targets, None);
    assert!(args.keep.is_empty());
    assert!(args.remove.is_empty());
    assert!(args.extensions.is_empty());
    assert!(!args.recursive);
    assert!(!args.verify);
    assert!(!args.privacy);
    assert!(!args.json);
}

#[test]
fn parses_strip_flags() {
    let cli = parse(&[
        "exifmeta",
        "--dry-run",
        "strip",
        "photos/*.jpg",
        "--keep",
        "Make,Model",
        "--recursive",
        "--extensions",
        "jpg,png",
        "--verify",
        "--json",
    ])
    .expect("strip flags should parse");

    assert!(cli.dry_run);

    let Command::Strip(args) = cli.command else {
        panic!("expected strip command");
    };

    assert_eq!(args.targets, Some("photos/*.jpg".to_string()));
    assert_eq!(args.keep, ["Make", "Model"]);
    assert!(args.remove.is_empty());
    assert_eq!(args.extensions, ["jpg", "png"]);
    assert!(args.recursive);
    assert!(args.verify);
    assert!(!args.privacy);
    assert!(args.json);
}

#[test]
fn parses_strip_repeated_remove_values() {
    let cli = parse(&[
        "exifmeta",
        "strip",
        "--remove",
        "GPSLatitude,GPSLongitude",
        "--remove",
        "UserComment",
    ])
    .expect("strip repeated remove values should parse");

    let Command::Strip(args) = cli.command else {
        panic!("expected strip command");
    };

    assert_eq!(args.remove, ["GPSLatitude", "GPSLongitude", "UserComment"]);
}

#[test]
fn parses_strip_remove_with_keep() {
    let cli = parse(&["exifmeta", "strip", "--keep", "Make", "--remove", "Model"])
        .expect("strip remove should compose with keep");

    let Command::Strip(args) = cli.command else {
        panic!("expected strip command");
    };

    assert_eq!(args.keep, ["Make"]);
    assert_eq!(args.remove, ["Model"]);
}

#[test]
fn parses_strip_remove_with_privacy() {
    let cli = parse(&["exifmeta", "strip", "--privacy", "--remove", "FNumber"])
        .expect("strip remove should compose with privacy");

    let Command::Strip(args) = cli.command else {
        panic!("expected strip command");
    };

    assert!(args.privacy);
    assert_eq!(args.remove, ["FNumber"]);
}

#[test]
fn rejects_conflicting_strip_modes() {
    assert!(parse(&["exifmeta", "strip", "--privacy", "--keep", "Make"]).is_err());
}

#[test]
fn parses_global_dry_run_after_subcommand() {
    let cli = parse(&["exifmeta", "check", "--dry-run"])
        .expect("global dry-run should parse after subcommands");

    assert!(cli.dry_run);
    assert_eq!(cli.command, Command::Check(CheckArgs { path: None }));
}

#[test]
fn parses_check_default_path() {
    let cli = parse(&["exifmeta", "check"]).expect("check should parse");

    let Command::Check(args) = cli.command else {
        panic!("expected check command");
    };

    assert_eq!(args.path, None);
}

#[test]
fn parses_check_path() {
    let cli = parse(&["exifmeta", "check", "some/metadata.yml"])
        .expect("check path should parse");

    let Command::Check(args) = cli.command else {
        panic!("expected check command");
    };

    assert_eq!(args.path, Some(PathBuf::from("some/metadata.yml")));
}

#[test]
fn rejects_unknown_commands() {
    assert!(parse(&["exifmeta", "unknown"]).is_err());
}

#[test]
fn rejects_renamed_commands() {
    for command in ["run", "init", "validate"] {
        assert!(
            parse(&["exifmeta", command]).is_err(),
            "expected old {command} command to be rejected"
        );
    }

    assert!(parse(&["exifmeta", "inspect", "image.jpg"]).is_err());
}

#[test]
fn help_is_told_without_an_error_code() {
    let told = parse(&["exifmeta", "--help"]).expect_err("help should not be a command");
    assert!(!told.is_error);
    assert_eq!(told.exit_code, 0);
    assert!(told.text.contains("Simulate actions without changing files"));

    let refused = parse(&["exifmeta", "write", "--unheard-of"]).expect_err("should be refused");
    assert!(refused.is_error);
    assert_eq!(refused.exit_code, 2);
    assert!(refused.text.contains("--unheard-of"));
}

#[test]
fn version_is_told_for_subcommands_too() {
    let told = parse(&["exifmeta", "--version"]).expect_err("version should not be a command");
    assert_eq!(told.text, "exifmeta 0.1.0\n");
    let told = parse(&["exifmeta", "strip", "--version"]).expect_err("version is propagated");
    assert!(told.text.contains("0.1.0"));
}

#[test]
fn rejects_an_empty_path() {
    assert!(parse(&["exifmeta", "new", ""]).is_err());
    assert!(parse(&["exifmeta", "read", ""]).is_err());
}

#[test]
fn needs_a_command_and_an_image() {
    assert!(parse(&["exifmeta"]).is_err());
    assert!(parse(&["exifmeta", "read"]).is_err());
}

#[test]
fn parses_short_extensions() {
    let cli = parse(&["exifmeta", "write", "-e", "jpg,.TIF", "album", "*.jpg"])
        .expect("short extensions should parse");
    let Command::Write(args) = cli.command else {
        panic!("expected write command");
    };
    assert_eq!(args.extensions, ["jpg", ".TIF"]);
    assert_eq!(args.metadata_or_targets, Some(PathBuf::from("album")));
    assert_eq!(args.targets, Some("*.jpg".to_string()));
    assert!(!cli.dry_run);
}

#[test]
fn matches_of_other_grammars_are_no_command() {
    let bare = clap::Command::new("other").get_matches_from(["other"]);
    assert!(Cli::from_matches(&bare).is_none());

    let named = |name: &'static str| {
        clap::Command::new("other")
            .subcommand(clap::Command::new(name))
            .get_matches_from(["other", name])
    };
    for name in ["new", "read", "interactive", "copy"] {
        assert!(Cli::from_matches(&named(name)).is_none());
    }
    for name in ["check", "write", "strip"] {
        assert!(Cli::from_matches(&named(name)).is_some());
    }

    let matches = Cli::command().get_matches_from(["exifmeta", "read", "one.jpg"]);
    assert!(matches!(
        Cli::from_matches(&matches).map(|cli| cli.command),
        Some(Command::Read(args)) if args.image.to_str() == Some("one.jpg")
    ));
}
