use std::path::PathBuf;

use exifmeta::check::{
    check_metadata_file, CheckReport, FrameReport, FrameSurroundings, LocationLookup,
    LocationMatch, LookupOutcome,
};
use exifmeta::check_output::{
    build_check_output, check_frame_title, check_passed, format_check_output, parse_metadata,
    CheckOutput, MetadataRead,
};
use exifmeta::commands::check_command;
use exifmeta::error::CliError;
use exifmeta::lookups::{frame_file_names, frame_location_names};
use exifmeta::metadata_path::{
    check_image_path, resolve_metadata_path, resolve_metadata_path_in_directory, MetadataLookup,
    MetadataPathResolution,
};
use exifmeta::new_file::{new_command, render_metadata_template, NewPlan};
use exifmeta::path::{
    directory_name, file_extension, is_current_directory_file, paths_equal, FilePath,
};
use exifmeta::report::{format_check_frame_error, format_check_warning};
use exifmeta::style::{Styled, Tone};
use exifmeta::tags::{is_known_metadata_tag, TagCounts};
use exifmeta::targets::{
    explicit_path_target, looks_like_metadata_path, matching_targets, resolve_explicit_targets,
    resolve_write_targets, supported_image_files, ImageCandidate, ListedImage, PathKind,
    PathTarget, TargetQuery,
};

fn strip_ansi_codes(value: &str) -> String {
    let mut output = String::new();
    let mut chars = value.chars().peekable();
    while let Some(char) = chars.next() {
        if char == '\u{1b}' && chars.peek() == Some(&'[') {
            chars.next();
            for char in chars.by_ref() {
                if char == 'm' {
                    break;
                }
            }
        } else {
            output.push(char);
        }
    }
    output
}

fn path(text: &str) -> FilePath {
    FilePath::from_path(PathBuf::from(text))
}

fn london() -> LocationMatch {
    LocationMatch {
        name: "London".to_string(),
        country_code: "GB".to_string(),
        latitude: "51.50853".to_string(),
        longitude: "-0.12574".to_string(),
    }
}

fn surroundings(images: &[&str]) -> FrameSurroundings {
    FrameSurroundings {
        images: Ok(images.iter().map(|name| path(&format!("roll/{name}"))).collect()),
        geonames: Ok(vec![
            LocationLookup {
                name: "London".to_string(),
                outcome: LookupOutcome::Found(london()),
            },
            LocationLookup {
                name: "DefinitelyNotARealPlace".to_string(),
                outcome: LookupOutcome::NotFound,
            },
            LocationLookup {
                name: "Broken".to_string(),
                outcome: LookupOutcome::Failed("closed".to_string()),
            },
        ]),
        existing_files: images.iter().map(|name| name.to_string()).collect(),
    }
}

fn check(document: &str, images: &[&str]) -> Result<CheckReport, String> {
    let yaml = parse_metadata(document).expect("test YAML should parse");
    check_metadata_file(&yaml, &surroundings(images))
}

fn check_output(document: &str, images: &[&str]) -> CheckOutput {
    let resolution =
        MetadataPathResolution { path: path("roll/metadata.yml"), warnings: Vec::new() };
    let read = match parse_metadata(document) {
        Ok(yaml) => MetadataRead::Document(yaml),
        Err(error) => MetadataRead::Invalid(error),
    };
    build_check_output(Ok(resolution), read, &surroundings(images))
}

fn plain(output: &CheckOutput) -> String {
    strip_ansi_codes(&format_check_output(output).render())
}

#[test]
fn check_metadata_rejects_bad_structure() {
    let result = check("- not\n- a mapping", &[]);

    assert!(matches!(result, Err(message) if message.contains("root must be a mapping")));
}

#[test]
fn check_metadata_counts_standard_and_unknown_exif_tags() {
    let report = check(
        r#"
exif:
  Make: Nikon
  ISOSpeedRatings: 400
  CreateDate: 2026-05-22
  NotARealExifTag: value
"#,
        &[],
    )
    .expect("metadata should pass checks");

    assert_eq!(report.exif_tags.standard, 3);
    assert_eq!(report.exif_tags.unknown, 1);
    assert_eq!(report.exif_tags.unknown_names, ["NotARealExifTag"]);
    assert!(report
        .exif_warnings
        .iter()
        .any(|warning| warning == "exif tag is non-standard `NotARealExifTag`"));
}

#[test]
fn check_metadata_counts_frame_tags_and_location_special_key() {
    let report = check(
        r#"
frames:
  1:
    - ExposureTime: 1/500
    - $Location: London
    - NotARealExifTag: value
"#,
        &["image.jpg"],
    )
    .expect("metadata should pass checks");

    assert_eq!(report.frame_tags.standard, 2);
    assert_eq!(report.frame_tags.unknown, 1);
    assert_eq!(report.frame_tags.unknown_names, ["NotARealExifTag"]);
    assert!(report.location_matches.iter().any(|found| found.name == "London"));
    assert!(!report.warnings.iter().any(|warning| warning.contains("$Location")));
}

#[test]
fn check_metadata_accepts_null_frames_and_null_frame_values() {
    let report = check("\nframes:\n  \"one.jpg\":\n", &["one.jpg"])
        .expect("metadata should pass checks");

    assert_eq!(report.frame_tags, TagCounts::default());
    assert_eq!(report.frames.frames.len(), 1);
    assert!(report.frames.frames[0].errors.is_empty());
    assert!(report.frames.frames[0].warnings.is_empty());

    let report = check("\nframes:\n", &["one.jpg"]).expect("metadata should pass checks");

    assert_eq!(report.frames.file_count, 1);
    assert!(report.frames.frames.is_empty());
}

#[test]
fn check_metadata_warns_when_location_is_not_found() {
    let report = check(
        "\nframes:\n  1:\n    - $Location: DefinitelyNotARealPlace\n",
        &["image.jpg"],
    )
    .expect("metadata should pass checks");

    assert!(report.location_matches.is_empty());
    assert!(report.warnings.iter().any(|warning| warning.contains("DefinitelyNotARealPlace")));
}

#[test]
fn check_metadata_fails_when_a_lookup_fails() {
    let result = check("\nframes:\n  1:\n    - $Location: Broken\n", &["image.jpg"]);
    assert!(matches!(result, Err(message) if message.contains("closed")));
}

#[test]
fn formats_missing_location_warning_in_red() {
    colored::control::set_override(true);

    let output = format_check_warning(
        "$Location: no match found in database [for <DefinitelyNotARealPlace>]",
    )
    .render();

    assert!(output.starts_with("\u{1b}[31mwarning:"));
}

#[test]
fn formats_missing_frame_file_error_with_error_label() {
    colored::control::set_override(true);

    let output = format_check_frame_error("file does not exist").render();

    assert_eq!(output, "\u{1b}[31merror: file does not exist\u{1b}[0m");
}

#[test]
fn formats_other_check_warnings_with_yellow_label() {
    colored::control::set_override(true);

    let output = format_check_warning("ignored metadata.yml").render();

    assert!(output.starts_with("\u{1b}[33mwarning\u{1b}[0m:"));
}

#[test]
fn painted_text_is_plain_where_colours_are_off() {
    let mut text = Styled::of("a ");
    text.push_painted(Tone::Red, "b");
    colored::control::set_override(false);
    assert_eq!(text.render(), "a b");
    colored::control::set_override(true);
    assert_eq!(text.render(), "a \u{1b}[31mb\u{1b}[0m");
}

#[test]
fn check_metadata_ignores_blank_and_null_locations() {
    let report = check(
        "\nframes:\n  1:\n    - $Location:\n  2:\n    - $Location: \" \"\n",
        &["one.jpg", "two.jpg"],
    )
    .expect("metadata should pass checks");

    assert!(report.location_matches.is_empty());
    assert!(!report.warnings.iter().any(|warning| warning.contains("$Location")));
}

#[test]
fn check_metadata_warns_when_location_value_is_not_a_string() {
    let report = check("\nframes:\n  1:\n    - $Location: [London]\n", &["image.jpg"])
        .expect("metadata should pass checks");

    assert!(report.location_matches.is_empty());
    assert!(report
        .warnings
        .iter()
        .any(|warning| warning.contains("$Location value must be a string")));
}

#[test]
fn check_metadata_errors_for_missing_frame_references() {
    let report = check(
        r#"
frames:
  2:
    - ExposureTime: 1/500
  "missing.tif":
    - FNumber: 2.8
"#,
        &["image.jpg"],
    )
    .expect("metadata should pass checks");

    assert!(!report.warnings.iter().any(|warning| warning.contains("frame reference `2`")));
    assert!(!report.warnings.iter().any(|warning| warning == "file does not exist"));
    assert!(report
        .frames
        .frames
        .iter()
        .any(|frame| frame.errors.iter().any(|error| error.contains("frame reference `2`"))));
    assert!(report
        .frames
        .frames
        .iter()
        .any(|frame| frame.errors.iter().any(|error| error == "file does not exist")));
}

#[test]
fn check_output_groups_are_rendered_in_order() {
    let output = check_output(
        r#"
exif:
  Make: Nikon
frames:
  "image.jpg":
    - FNumber: 2.8
"#,
        &["image.jpg"],
    );
    let rendered = plain(&output);

    let file = rendered.find("file ").expect("file group should render");
    let exif = rendered.find("exif ").expect("exif group should render");
    let frames = rendered.find("frames ").expect("frames group should render");
    let overview = rendered.find("overview ").expect("overview group should render");
    assert!(file < exif);
    assert!(exif < frames);
    assert!(frames < overview);
    assert!(rendered.starts_with("file "));
    assert!(rendered.contains("YAML format: ok\n\nexif "));
    assert!(rendered.contains("standard tags: 1\nunknown tags: 0\n\nframes "));
    assert!(rendered.contains("unknown tags: 0\n\noverview "));
    assert!(rendered.contains("metadata file: found "));
    assert!(rendered.contains("YAML format: ok"));
    assert!(rendered.contains("validation: success"));
    assert!(check_passed(&output));
    assert!(check_command(&output).is_ok());
}

#[test]
fn check_overview_renders_success_without_warnings() {
    let rendered = plain(&CheckOutput::default());

    assert!(rendered.contains("errors      0"));
    assert!(rendered.contains("warnings    0"));
    assert!(rendered.contains("validation: success"));
    assert!(!rendered.contains("(with warnings)"));
}

#[test]
fn check_overview_renders_success_with_warnings() {
    let output = CheckOutput {
        file_warnings: vec!["metadata.yaml ignored because metadata.yml exists".to_string()],
        ..CheckOutput::default()
    };
    let rendered = plain(&output);

    assert!(rendered.contains("errors      0"));
    assert!(rendered.contains("warnings    1"));
    assert!(rendered.contains("validation: success (with warnings)"));
}

#[test]
fn check_overview_renders_error_when_errors_exist() {
    let output = CheckOutput {
        file_errors: vec!["failed to parse metadata.yml".to_string()],
        file_warnings: vec!["metadata.yaml ignored because metadata.yml exists".to_string()],
        ..CheckOutput::default()
    };
    let rendered = plain(&output);

    assert!(rendered.contains("errors      1"));
    assert!(rendered.contains("warnings    1"));
    assert!(rendered.contains("validation: error"));
    assert!(!rendered.contains("validation: success"));
    assert!(matches!(check_command(&output), Err(CliError::Failure)));
}

#[test]
fn check_overview_counts_missing_frame_file_as_error() {
    let output =
        check_output("\nframes:\n  \"missing.tif\":\n    - FNumber: 2.8\n", &["image.jpg"]);
    let rendered = plain(&output);

    assert!(rendered.contains("errors      1"));
    assert!(rendered.contains("warnings    0"));
    assert!(rendered.contains("error: file does not exist"));
    assert!(rendered.contains("validation: error"));
    assert!(!rendered.contains("warning: file does not exist"));
}

#[test]
fn check_overview_colours_success_with_warnings() {
    colored::control::set_override(true);

    let output = CheckOutput {
        file_warnings: vec!["metadata.yaml ignored because metadata.yml exists".to_string()],
        ..CheckOutput::default()
    };
    let rendered = format_check_output(&output).render();

    assert!(rendered.contains("validation: \u{1b}[32msuccess\u{1b}[0m"));
    assert!(rendered.contains("\u{1b}[32msuccess\u{1b}[0m (with warnings)"));
}

#[test]
fn check_overview_colours_nonzero_counts_only() {
    colored::control::set_override(true);

    let output = CheckOutput {
        file_errors: vec!["failed to parse metadata.yml".to_string()],
        file_warnings: vec!["metadata.yaml ignored because metadata.yml exists".to_string()],
        ..CheckOutput::default()
    };
    let rendered = format_check_output(&output).render();
    let clean = format_check_output(&CheckOutput::default()).render();

    assert!(rendered.contains("errors      \u{1b}[31m1\u{1b}[0m"));
    assert!(rendered.contains("warnings    \u{1b}[33m1\u{1b}[0m"));
    assert!(clean.contains("errors      0"));
    assert!(clean.contains("warnings    0"));
    assert!(!clean.contains("\u{1b}[31m0\u{1b}[0m"));
    assert!(!clean.contains("\u{1b}[33m0\u{1b}[0m"));
}

#[test]
fn check_output_renders_frame_blocks_in_yaml_order() {
    let output = check_output(
        r#"
frames:
  2:
    - FNumber: 2.8
  "image.jpg":
    - ExposureTime: 1/500
"#,
        &["image.jpg", "one.jpg"],
    );
    let rendered = plain(&output);
    let frame_two = rendered.find("← 2").expect("frame 2 should render");
    let frame_image =
        rendered.find("\nimage.jpg\n").expect("frame image.jpg should render");

    assert!(frame_two < frame_image);
}

#[test]
fn check_output_prints_numeric_frame_summary_and_resolved_file() {
    let output = check_output("\nframes:\n  1:\n    - FNumber: 2.8\n", &["01.jpg"]);
    let rendered = plain(&output);

    assert!(rendered.contains("frame numbers: 1"));
    assert!(rendered.contains("files: 1"));
    let frame = rendered.find("01.jpg ← 1").expect("frame should render");
    let standard_tags = rendered[frame..]
        .find("standard tags:")
        .map(|index| frame + index)
        .expect("standard tags should render");
    let unknown_tags = rendered[frame..]
        .find("unknown tags:")
        .map(|index| frame + index)
        .expect("unknown tags should render");

    assert!(frame < standard_tags);
    assert!(standard_tags < unknown_tags);
    assert!(!rendered.contains("file: roll/01.jpg"));
}

#[test]
fn check_output_warns_when_numeric_frames_exceed_files() {
    let output = check_output(
        "\nframes:\n  1:\n    - FNumber: 2.8\n  2:\n    - ExposureTime: 1/500\n",
        &["01.jpg"],
    );
    let rendered = plain(&output);

    assert!(rendered.contains("frame numbers: 2"));
    assert!(rendered.contains("files: 1"));
    assert!(rendered.contains("warning: there are more frame numbers (2) than image files (1)"));
    assert!(rendered.contains("\nframe 2\n"));
    assert!(rendered.contains("error: frame reference `2` does not match an image file"));
    assert!(!rendered.contains("warning: frame reference `2`"));
}

#[test]
fn check_output_does_not_warn_when_files_exceed_numeric_frames() {
    let output = check_output("\nframes:\n  1:\n    - FNumber: 2.8\n", &["01.jpg", "02.jpg"]);
    let rendered = plain(&output);

    assert!(rendered.contains("frame numbers: 1"));
    assert!(rendered.contains("files: 2"));
    assert!(!rendered.contains("warning: supported image files"));
    assert!(!rendered.contains("warning: there are more frame numbers"));
}

#[test]
fn check_output_omits_numeric_summary_for_filename_frames() {
    let output =
        check_output("\nframes:\n  \"image.jpg\":\n    - FNumber: 2.8\n", &["image.jpg"]);
    let rendered = plain(&output);

    assert!(!rendered.contains("frame numbers:"));
    assert!(!rendered.contains("files:"));
    assert!(!rendered.contains("\nfile: "));
}

#[test]
fn check_output_skips_later_groups_after_parse_error() {
    let rendered = plain(&check_output("exif: [", &[]));

    assert!(rendered.contains("YAML format: skipped"));
    assert!(rendered.contains("exif "));
    assert!(rendered.contains("frames "));
    assert_eq!(rendered.matches("skipped").count(), 3);
    assert!(rendered.contains("errors      1"));
    assert!(rendered.contains("validation: error"));
}

#[test]
fn check_output_uses_expected_colours() {
    colored::control::set_override(true);

    let output =
        check_output("\nframes:\n  \"image.jpg\":\n    - $Location: London\n", &["image.jpg"]);
    let rendered = format_check_output(&output).render();

    assert!(rendered.contains("\u{1b}[94mfile "));
    assert!(rendered.contains("\u{1b}[32mfound "));
    assert!(rendered.contains("\u{1b}[96mimage.jpg"));
    assert!(rendered.contains("location: \u{1b}[32mmatch found\u{1b}[0m [London"));
}

#[test]
fn check_frame_titles_stay_light_blue_with_warnings_or_errors() {
    colored::control::set_override(true);

    let warning_frame = FrameReport {
        key: "image.jpg".to_string(),
        warnings: vec!["ignored malformed trailing field".to_string()],
        ..FrameReport::default()
    };
    let error_frame = FrameReport {
        key: "2".to_string(),
        is_numeric: true,
        warnings: vec!["ignored malformed trailing field".to_string()],
        errors: vec!["frame reference `2` does not match an image file".to_string()],
        ..FrameReport::default()
    };
    let title =
        |frame: &FrameReport| Styled::of_painted(Tone::BrightCyan, &check_frame_title(frame));

    assert_eq!(title(&warning_frame).render(), "\u{1b}[96mimage.jpg\u{1b}[0m");
    assert_eq!(title(&error_frame).render(), "\u{1b}[96mframe 2\u{1b}[0m");
}

#[test]
fn known_tags_are_known() {
    assert!(is_known_metadata_tag("Make"));
    assert!(is_known_metadata_tag("$Location"));
    assert!(!is_known_metadata_tag("make"));
}

#[test]
fn rejects_missing_image_path() {
    assert_eq!(
        check_image_path(&path("definitely-missing-image.tif"), false, false),
        Err("image does not exist: definitely-missing-image.tif".to_string())
    );
}

#[test]
fn rejects_directory_image_path() {
    assert_eq!(
        check_image_path(&path("."), true, false),
        Err("image path is not a file: .".to_string())
    );
}

fn resolve_in_roll(yml: bool, yaml: bool) -> Result<MetadataPathResolution, String> {
    resolve_metadata_path_in_directory(
        "roll",
        path("roll/metadata.yml"),
        yml,
        path("roll/metadata.yaml"),
        yaml,
    )
}

#[test]
fn resolve_metadata_path_prefers_yml_over_legacy_yaml() {
    let resolution = resolve_in_roll(true, true).expect("metadata path should resolve");

    assert_eq!(resolution.path.text, "roll/metadata.yml");
    assert_eq!(resolution.warnings.len(), 1);
    assert!(resolution.warnings[0].contains("metadata.yaml"));
}

#[test]
fn resolve_metadata_path_falls_back_to_legacy_yaml() {
    let resolution = resolve_in_roll(false, true).expect("metadata path should resolve");

    assert_eq!(resolution.path.text, "roll/metadata.yaml");
    assert!(resolution.warnings.is_empty());
}

#[test]
fn resolve_metadata_path_errors_when_missing() {
    let result = resolve_in_roll(false, false);

    assert!(matches!(result, Err(message) if message.contains("no metadata.yml")));
}

#[test]
fn resolve_metadata_path_follows_its_argument() {
    assert!(matches!(resolve_metadata_path(None), MetadataLookup::CurrentDirectory));
    assert!(matches!(
        resolve_metadata_path(Some((path("roll"), PathKind::Directory))),
        MetadataLookup::Directory(_)
    ));
    assert!(matches!(
        resolve_metadata_path(Some((path("roll/metadata.yml"), PathKind::File))),
        MetadataLookup::File(_)
    ));
    assert!(matches!(
        resolve_metadata_path(Some((path("nowhere.yml"), PathKind::Missing))),
        MetadataLookup::Failed(_)
    ));
}

#[test]
fn renders_metadata_template_values() {
    let image_files = vec![path("01.tif"), path("1_result.jpg")];
    let output = render_metadata_template("2026-05-22", &image_files);

    assert!(output.contains("date: 2026-05-22"));
    assert!(output.contains("date_end: 2026-05-22"));
    assert!(output.contains("frame_count: 2"));
    assert!(output.contains("frames:\n    \"01.tif\":\n    \"1_result.jpg\":"));
    assert!(!output.contains("image-file.tif"));
    assert!(!output.contains("ExposureTime:"));
    assert!(!output.contains("<today>"));
    assert!(!output.contains("<image-count-in-directory>"));
    assert!(!output.contains("<frames>"));
}

fn new_in_roll(
    images: &[&str],
    metadata_is_present: bool,
    dry_run: bool,
) -> Result<NewPlan, CliError> {
    new_command(
        &path("roll"),
        true,
        true,
        &path("roll/metadata.yml"),
        metadata_is_present,
        &Ok(images.iter().map(|name| path(&format!("roll/{name}"))).collect()),
        "2026-05-22",
        dry_run,
    )
}

#[test]
fn new_creates_metadata_file() {
    match new_in_roll(&[], false, false) {
        Ok(NewPlan::Create(output)) => {
            assert!(output.contains("date: 2026-05-22"));
            assert!(output.contains("frame_count: 0"));
            assert!(output.contains("frames:\n\n"));
            assert!(!output.contains("frames: {}"));
        }
        _ => panic!("new should create metadata file"),
    }
}

#[test]
fn new_refuses_to_overwrite_existing_metadata_file() {
    assert!(matches!(
        new_in_roll(&[], true, false),
        Err(CliError::Warning(message)) if message.contains("metadata.yml already exists")
    ));
}

#[test]
fn new_dry_run_does_not_create_metadata_file() {
    assert!(matches!(new_in_roll(&["a.jpg"], false, true), Ok(NewPlan::Report(_))));
}

#[test]
fn new_counts_supported_images_non_recursively() {
    let names = [
        "a.JPG", "b.jpeg", "c.jxl", "d.heif", "e.hif", "f.heic", "g.avif", "h.png", "i.tiff",
        "j.webp",
    ];
    let mut candidates = names.iter().map(|name| candidate(name, &[])).collect::<Vec<_>>();
    candidates.push(candidate("notes.txt", &[]));
    let images = supported_image_files(candidates);
    let images = images.iter().map(|image| image.text.as_str()).collect::<Vec<_>>();
    let images = images.iter().map(|text| &text["roll/".len()..]).collect::<Vec<_>>();

    match new_in_roll(&images, false, false) {
        Ok(NewPlan::Create(output)) => {
            assert!(output.contains("frame_count: 10"));
            for name in names {
                assert!(output.contains(&format!("    \"{name}\":")));
            }
            assert!(!output.contains("notes.txt"));
        }
        _ => panic!("new should create metadata file"),
    }
}

fn candidate(name: &str, signature: &[u8]) -> ImageCandidate {
    ImageCandidate {
        path: path(&format!("roll/{name}")),
        signature: Some(signature.to_vec()),
    }
}

#[test]
fn write_targets_filter_default_images_by_extension() {
    let candidates = vec![
        candidate("a.jpg", &[0xff, 0xd8, 0xff, 0xd9]),
        candidate("b.tif", &[0x49, 0x49, 0x2a, 0x00]),
    ];

    let targets = resolve_write_targets(candidates, &vec!["jpg".to_string()]);

    let targets = targets.iter().map(|target| target.text.as_str()).collect::<Vec<_>>();
    assert_eq!(targets, ["roll/a.jpg"]);
}

#[test]
fn explicit_targets_are_paths_or_patterns() {
    assert!(matches!(
        resolve_explicit_targets("a.jpg"),
        TargetQuery::Path(target) if target == "a.jpg"
    ));
    assert!(matches!(
        resolve_explicit_targets("**/*.jpg"),
        TargetQuery::Matching { recursive: true, .. }
    ));
    assert!(matches!(
        resolve_explicit_targets("*.jpg"),
        TargetQuery::Matching { recursive: false, .. }
    ));
    assert!(matches!(
        explicit_path_target(path("roll"), PathKind::Directory, false),
        PathTarget::Directory(_, false)
    ));
    assert!(matches!(
        explicit_path_target(path("roll"), PathKind::Directory, true),
        PathTarget::Directory(_, true)
    ));
    assert!(matches!(
        explicit_path_target(path("nowhere"), PathKind::Missing, true),
        PathTarget::Nothing
    ));
}

#[test]
fn patterns_match_names_and_relative_paths() {
    let listed = |text: &str, relative: &str| ListedImage {
        path: path(text),
        relative: Some(relative.to_string()),
    };
    let images = || {
        vec![
            listed("roll/b.jpg", "b.jpg"),
            listed("roll/a.jpg", "a.jpg"),
            listed("roll/deep/c.jpg", "deep/c.jpg"),
            listed("roll/d.tif", "d.tif"),
        ]
    };
    let matches = |pattern: &str| {
        matching_targets(images(), pattern, false)
            .iter()
            .map(|target| target.text.clone())
            .collect::<Vec<_>>()
    };
    assert_eq!(matches("**/*.jpg"), ["roll/b.jpg", "roll/a.jpg", "roll/deep/c.jpg"]);
    assert_eq!(matches("deep/*"), ["roll/deep/c.jpg"]);
}

#[test]
fn metadata_paths_are_told_by_extension_or_directory() {
    assert!(looks_like_metadata_path(&path("roll/metadata.yml"), false));
    assert!(looks_like_metadata_path(&path("roll/other.YAML"), false));
    assert!(looks_like_metadata_path(&path("roll"), true));
    assert!(!looks_like_metadata_path(&path("*.jpg"), false));
}

#[test]
fn frames_tell_what_has_to_be_looked_up() {
    let document = parse_metadata(
        r#"
exif:
  $Location: Nowhere
frames:
  1:
    - $Location: " London "
    - Make: Nikon
  "one.jpg":
    $Location: Paris
  "two.jpg":
    - $Location: [Rome]
"#,
    )
    .expect("test YAML should parse");

    assert_eq!(frame_location_names(&document), ["London", "Paris"]);
    assert_eq!(frame_file_names(&document), ["one.jpg", "two.jpg"]);
}

#[test]
fn lookups_that_no_frame_asks_for_change_nothing() {
    let document = "\nframes:\n  \"image.jpg\":\n    - $Location: London\n";
    let yaml = parse_metadata(document).expect("test YAML should parse");
    let mut few = surroundings(&["image.jpg"]);
    few.geonames = Ok(vec![LocationLookup {
        name: "London".to_string(),
        outcome: LookupOutcome::Found(london()),
    }]);
    let many = surroundings(&["image.jpg"]);

    let with_few = check_metadata_file(&yaml, &few).expect("metadata should pass checks");
    let with_many = check_metadata_file(&yaml, &many).expect("metadata should pass checks");

    assert_eq!(with_few.location_matches, with_many.location_matches);
    assert_eq!(with_few.warnings, with_many.warnings);
}

#[test]
fn paths_are_read_off() {
    let image = path("roll/./Deep/Image.JPG");
    assert_eq!(image.text, "roll/./Deep/Image.JPG");
    assert_eq!(image.file_name.as_deref(), Some("Image.JPG"));
    assert_eq!(image.extension.as_deref(), Some("JPG"));
    assert_eq!(file_extension(&image).as_deref(), Some("jpg"));
    assert_eq!(directory_name(&image), "roll/./Deep");
    assert!(paths_equal(&image, &path("roll//Deep/Image.JPG")));
    assert!(!paths_equal(&image, &path("roll/deep/Image.JPG")));
    assert!(is_current_directory_file(&path("a.jpg")));
    assert!(is_current_directory_file(&path("./a.jpg")));
    assert!(!is_current_directory_file(&path("b/a.jpg")));
    assert_eq!(directory_name(&path("a.jpg")), ".");
}

#[test]
fn targets_are_sorted_and_named_once() {
    let candidates = ["b.jpg", "a.jpg", "b.jpg", "notes.txt"]
        .iter()
        .map(|name| candidate(name, &[]))
        .collect();
    let targets = resolve_write_targets(candidates, &Vec::new());
    let targets = targets.iter().map(|target| target.text.as_str()).collect::<Vec<_>>();
    assert_eq!(targets, ["roll/a.jpg", "roll/b.jpg"]);
}
