use std::collections::HashSet;
use std::path::PathBuf;

use little_exif::exif_tag::ExifTag;
use little_exif::filetype::FileExtension;
use little_exif::ifd::{ExifTagGroup, ImageFileDirectory};
use little_exif::metadata::Metadata;
use serde_yaml::Value as YamlValue;

use exifmeta::check::FrameSurroundings;
use exifmeta::check_output::{parse_metadata, MetadataRead};
use exifmeta::cli::WriteArgs;
use exifmeta::convert::{
    clean_numeric_string, parse_u32, writable_exif_tag, yaml_datetime, GpsPosition, Measured,
    PlaceLookup,
};
use exifmeta::double::{format_file_size, format_write_duration};
use exifmeta::exif_data::{read_exif, ExifData};
use exifmeta::metadata_path::MetadataPathResolution;
use exifmeta::path::FilePath;
use exifmeta::payload::{custom_tags_from_bytes, encode_custom_tags, CustomTag};
use exifmeta::plan::{build_write_plan, normalize_iso_aliases, FrameFile, WriteTag};
use exifmeta::strip::{StripMode, StripRemovalTarget};
use exifmeta::strip_run::{
    remove_targets, strip_cleared, strip_metadata_from_image, strip_tiff_full_metadata,
    strip_unreadable, strip_written, StripFileResult, StripNext,
};
use exifmeta::targets::WriteRequest;
use exifmeta::writable::{
    ByteTag, RatioTag, ShortTag, TagGroup, TextTag, UnsignedRatio, WritableTag,
};
use exifmeta::write_output::{
    format_write_file_header_output, format_write_file_output, format_write_file_result_output,
    format_write_output, format_write_overview_output, write_command, ImageStep, WriteFileOutput,
    WriteInputs, WriteOutput, WriteSummary,
};
use exifmeta::write_run::{
    apply_tags_to_image, can_take_tags, dedupe_writable_tags, empty_metadata, file_written,
    prepare_edit, prepare_tags, tags_applied, try_write_tags, write_tags, MeasuredTag, PreparedTags,
    WriteFileResult,
};

const USER_COMMENT_ASCII_PREFIX: &[u8] = b"ASCII\0\0\0";
const LEGACY_CUSTOM_TAG_PAYLOAD_PREFIX: &[u8] = b"exifmeta-custom-tags-v1\n";
const CUSTOM_TAG_PAYLOAD_MARKER: &str = "exifmeta-v0.1.0\n";

fn strip_ansi_codes(value: &str) -> String {
    let mut output = String::new();
    let mut chars = value.chars().peekable();
    while let Some(char) = chars.next() {
        if char == '\u{1b}' && chars.peek() == Some(&'[') {
            chars.next();
            for char in chars.by_ref() {
                if char == 'm' {
                    break;
                }
            }
        } else {
            output.push(char);
        }
    }
    output
}

fn path(text: &str) -> FilePath {
    FilePath::from_path(PathBuf::from(text))
}

fn yaml(text: &str) -> YamlValue {
    parse_metadata(text).expect("test YAML should parse")
}

fn default_write_args() -> WriteArgs {
    WriteArgs {
        metadata_or_targets: None,
        targets: None,
        strip: false,
        keep: Vec::new(),
        remove: Vec::new(),
        privacy: false,
        no_overwrite: false,
        extensions: Vec::new(),
        recursive: false,
    }
}

fn rational(value: f64, denominator: u32) -> UnsignedRatio {
    let numerator = (value.max(0.0) * f64::from(denominator)).round() as u32;
    UnsignedRatio { numerator, denominator }
}

fn degrees(decimal: f64) -> Vec<UnsignedRatio> {
    let degrees = decimal.trunc();
    let minutes = (decimal - degrees) * 60.0;
    vec![
        rational(degrees, 1_000_000),
        rational(minutes.trunc(), 1_000_000),
        rational((minutes - minutes.trunc()) * 60.0, 10_000),
    ]
}

fn measured(value: &YamlValue) -> Measured {
    let number = match value {
        YamlValue::Number(number) => number.as_f64(),
        YamlValue::String(text) => clean_numeric_string(text).parse::<f64>().ok(),
        _ => None,
    };
    Measured {
        ratio: number.map(|number| rational(number, 1_000_000)),
        degrees: number.map(|number| degrees(number.abs())),
    }
}

fn tag(name: &str, value: YamlValue) -> WriteTag {
    WriteTag { name: name.to_string(), value }
}

fn text_tag(name: &str, value: &str) -> WriteTag {
    tag(name, YamlValue::String(value.to_string()))
}

fn measured_tags(tags: Vec<WriteTag>) -> Vec<MeasuredTag> {
    tags.into_iter()
        .map(|tag| MeasuredTag {
            measured: measured(&tag.value),
            tag,
            place: PlaceLookup::NotFound,
        })
        .collect()
}

fn reading(image: &Vec<u8>) -> Result<ExifData, String> {
    read_exif("image.jpg", image).map(|(exif, _)| exif)
}

fn tag_names(image: &Vec<u8>) -> HashSet<String> {
    let exif = reading(image).expect("EXIF metadata should be readable");
    exif.fields.into_iter().map(|field| field.name).collect()
}

/// Strips a JPEG that is held in memory, as a write does before it writes.
fn strip_jpeg(image: &mut Vec<u8>, dry_run: bool, mode: &StripMode) -> StripFileResult {
    let (mut result, next) =
        strip_metadata_from_image(&reading(image), mode, false, dry_run, false);
    match next {
        StripNext::ClearFile => {
            let outcome = Metadata::clear_metadata(image, FileExtension::JPEG)
                .map_err(|error| error.to_string());
            strip_cleared(result, outcome, false).0
        }
        StripNext::RemoveTags(targets) => {
            match Metadata::new_from_vec(image, FileExtension::JPEG) {
                Ok(mut metadata) => {
                    remove_targets(&mut metadata, &targets, &mut result);
                    let outcome = metadata
                        .write_to_vec(image, FileExtension::JPEG)
                        .map_err(|error| error.to_string());
                    strip_written(result, outcome, false).0
                }
                Err(error) => strip_unreadable(result, &error.to_string()),
            }
        }
        _ => result,
    }
}

/// Writes tags to a JPEG that is held in memory.
fn write_jpeg(
    image: &mut Vec<u8>,
    tags: Vec<WriteTag>,
    dry_run: bool,
    args: &WriteArgs,
) -> WriteFileResult {
    let prepared = prepare_tags(&measured_tags(tags));
    let mode = StripMode::from_write_args(args).expect("write strip mode should parse");
    let strip = mode.map(|mode| strip_jpeg(image, dry_run, &mode));
    let (mut result, go_on) = apply_tags_to_image(&prepared, &strip);
    if !go_on {
        return result;
    }
    let mut metadata = Metadata::new_from_vec(image, FileExtension::JPEG)
        .unwrap_or_else(|_| empty_metadata());
    let pending = try_write_tags(
        &mut metadata,
        prepared.writable,
        prepared.custom_count,
        args.no_overwrite,
        &mut result,
    )
    .expect("metadata that was read takes tags");
    let (result, write_file) = tags_applied(result, pending, dry_run);
    if !write_file {
        return result;
    }
    let outcome =
        metadata.write_to_vec(image, FileExtension::JPEG).map_err(|error| error.to_string());
    file_written(result, pending, outcome)
}

fn jpeg_with(tags: &[(&str, &str)]) -> Vec<u8> {
    let mut image = vec![0xff, 0xd8, 0xff, 0xd9];
    let tags = tags.iter().map(|(name, value)| text_tag(name, value)).collect();
    let result = write_jpeg(&mut image, tags, false, &default_write_args());
    assert!(result.errors.is_empty(), "{:?}", result.errors);
    image
}

#[test]
fn write_request_treats_single_non_metadata_argument_as_targets() {
    let args = WriteArgs {
        metadata_or_targets: Some(PathBuf::from("*.jpg")),
        ..default_write_args()
    };

    let request = WriteRequest::from_args(&args, false);

    assert!(request.metadata.is_none());
    assert_eq!(request.targets, Some("*.jpg".to_string()));
}

#[test]
fn write_request_takes_metadata_before_targets() {
    let args = WriteArgs {
        metadata_or_targets: Some(PathBuf::from("roll/metadata.yml")),
        targets: Some("*.tif".to_string()),
        ..default_write_args()
    };

    let request = WriteRequest::from_args(&args, false);

    assert_eq!(request.metadata.map(|path| path.text), Some("roll/metadata.yml".to_string()));
    assert_eq!(request.targets, Some("*.tif".to_string()));
}

#[test]
fn write_strip_clears_existing_tags_before_writing() {
    let mut image = jpeg_with(&[("Make", "Nikon"), ("Model", "F3")]);
    let args = WriteArgs { strip: true, ..default_write_args() };

    let tags = vec![text_tag("Artist", "Harry Merritt")];
    let result = write_jpeg(&mut image, tags, false, &args);

    assert!(result.errors.is_empty(), "{:?}", result.errors);
    assert!(result.stripped);
    assert_eq!(result.written, 1);
    let names = tag_names(&image);
    assert!(!names.contains("Make"));
    assert!(!names.contains("Model"));
    assert!(names.contains("Artist"));
}

#[test]
fn write_keep_preserves_named_tags_before_writing() {
    let mut image =
        jpeg_with(&[("Make", "Nikon"), ("Model", "F3"), ("Artist", "Harry Merritt")]);
    let args = WriteArgs { keep: vec!["Make".to_string()], ..default_write_args() };

    let result = write_jpeg(&mut image, vec![text_tag("FNumber", "5.6")], false, &args);

    assert!(result.errors.is_empty(), "{:?}", result.errors);
    assert!(result.stripped);
    assert_eq!(result.removed_tags, 2);
    assert_eq!(result.written, 1);
    let names = tag_names(&image);
    assert!(names.contains("Make"));
    assert!(!names.contains("Model"));
    assert!(!names.contains("Artist"));
    assert!(names.contains("FNumber"));
}

#[test]
fn write_remove_removes_named_tags_before_writing() {
    let mut image =
        jpeg_with(&[("Make", "Nikon"), ("Model", "F3"), ("Artist", "Harry Merritt")]);
    let args = WriteArgs { remove: vec!["Model".to_string()], ..default_write_args() };

    let result = write_jpeg(&mut image, vec![text_tag("FNumber", "5.6")], false, &args);

    assert!(result.errors.is_empty(), "{:?}", result.errors);
    assert!(result.stripped);
    assert_eq!(result.removed_tags, 1);
    let names = tag_names(&image);
    assert!(names.contains("Make"));
    assert!(!names.contains("Model"));
    assert!(names.contains("Artist"));
    assert!(names.contains("FNumber"));
}

#[test]
fn write_privacy_removes_sensitive_tags_before_writing() {
    let mut image = jpeg_with(&[
        ("Make", "Nikon"),
        ("Artist", "Harry Merritt"),
        ("DateTimeOriginal", "2026-05-22"),
        ("FNumber", "5.6"),
    ]);
    let args = WriteArgs { privacy: true, ..default_write_args() };

    let result = write_jpeg(&mut image, vec![text_tag("Model", "F3")], false, &args);

    assert!(result.errors.is_empty(), "{:?}", result.errors);
    assert!(result.stripped);
    assert_eq!(result.removed_tags, 2);
    let names = tag_names(&image);
    assert!(names.contains("Make"));
    assert!(names.contains("FNumber"));
    assert!(names.contains("Model"));
    assert!(!names.contains("Artist"));
    assert!(!names.contains("DateTimeOriginal"));
}

#[test]
fn write_privacy_with_remove_removes_extra_tag_before_writing() {
    let mut image = jpeg_with(&[
        ("Make", "Nikon"),
        ("Artist", "Harry Merritt"),
        ("DateTimeOriginal", "2026-05-22"),
        ("FNumber", "5.6"),
    ]);
    let args = WriteArgs {
        privacy: true,
        remove: vec!["FNumber".to_string()],
        ..default_write_args()
    };

    let result = write_jpeg(&mut image, vec![text_tag("Model", "F3")], false, &args);

    assert!(result.errors.is_empty(), "{:?}", result.errors);
    assert!(result.stripped);
    assert_eq!(result.removed_tags, 3);
    let names = tag_names(&image);
    assert!(names.contains("Make"));
    assert!(names.contains("Model"));
    assert!(!names.contains("FNumber"));
    assert!(!names.contains("Artist"));
    assert!(!names.contains("DateTimeOriginal"));
}

#[test]
fn write_remove_allows_no_overwrite_to_write_removed_tag() {
    let mut image = jpeg_with(&[("Model", "F3")]);
    let args = WriteArgs {
        remove: vec!["Model".to_string()],
        no_overwrite: true,
        ..default_write_args()
    };

    let result = write_jpeg(&mut image, vec![text_tag("Model", "FM2")], false, &args);

    assert!(result.errors.is_empty(), "{:?}", result.errors);
    assert!(result.skipped.is_empty(), "{:?}", result.skipped);
    assert!(result.stripped);
    assert_eq!(result.removed_tags, 1);
    assert_eq!(result.written, 1);
    assert!(tag_names(&image).contains("Model"));
}

#[test]
fn write_without_overwriting_spares_held_tags() {
    let mut image = jpeg_with(&[("Model", "F3")]);
    let args = WriteArgs { no_overwrite: true, ..default_write_args() };

    let tags = vec![text_tag("Model", "FM2"), text_tag("Make", "Nikon")];
    let result = write_jpeg(&mut image, tags, false, &args);

    assert_eq!(result.skipped, vec!["Model already exists".to_string()]);
    assert_eq!(result.written, 1);
    let exif = reading(&image).expect("EXIF metadata should be readable");
    let model = exif.fields.iter().find(|field| field.name == "Model").expect("Model stays");
    assert!(model.shown.contains("F3"));
}

#[test]
fn write_strip_dry_run_reports_without_modifying_file() {
    let mut image = jpeg_with(&[("Make", "Nikon")]);
    let before = image.clone();
    let args = WriteArgs { remove: vec!["Make".to_string()], ..default_write_args() };

    let result = write_jpeg(&mut image, vec![text_tag("Model", "F3")], true, &args);

    assert!(result.errors.is_empty(), "{:?}", result.errors);
    assert!(result.stripped);
    assert_eq!(result.removed_tags, 1);
    assert_eq!(result.written, 1);
    assert_eq!(image, before);
}

#[test]
fn write_plan_merges_global_and_frame_tags() {
    let image = path("roll/one.jpg");
    let yaml = yaml(
        r#"
exif:
  Make: Nikon
  Model: F3
frames:
  1:
    - Model: FM2
    - ExposureTime: 1/500
"#,
    );

    let plan = build_write_plan(&yaml, &Vec::new(), &vec![image.duplicate()])
        .expect("write plan should build");
    let frame = plan.frame_for_image(&image).expect("image should have merged tags");
    let tags = frame.tags;

    assert_eq!(tags.len(), 3);
    assert_eq!(frame.label, "one.jpg ← frame 1");
    assert!(tags.iter().any(|tag| tag.name == "Make" && tag.value.as_str() == Some("Nikon")));
    assert!(tags.iter().any(|tag| tag.name == "Model" && tag.value.as_str() == Some("FM2")));
}

#[test]
fn write_plan_expands_iso_aliases_after_frame_overrides() {
    let image = path("roll/one.jpg");
    let yaml = yaml(
        r#"
exif:
  ISO: 400
frames:
  1:
    - ISOSpeed: 800
"#,
    );

    let plan = build_write_plan(&yaml, &Vec::new(), &vec![image.duplicate()])
        .expect("write plan should build");
    let tags = plan.frame_for_image(&image).expect("image should have merged tags").tags;

    for name in ["ISO", "ISOSpeed", "ISOSpeedRatings"] {
        assert!(
            tags.iter().any(|tag| tag.name == name && tag.value.as_i64() == Some(800)),
            "{name} should be expanded with the frame override"
        );
    }
}

#[test]
fn film_speed_of_a_frame_overrides_every_global_name() {
    let image = path("roll/one.jpg");
    let files = vec![FrameFile { name: "one.jpg".to_string(), identity: image.identity.clone() }];
    let speeds = |document: &str| {
        let plan = build_write_plan(&yaml(document), &files, &vec![image.duplicate()])
            .expect("write plan should build");
        let tags = plan.frame_for_image(&image).expect("image should have tags").tags;
        ["ISO", "ISOSpeed", "ISOSpeedRatings"].map(|name| {
            let named = tags.iter().filter(|tag| tag.name == name).collect::<Vec<_>>();
            assert_eq!(named.len(), 1);
            named[0].value.as_i64()
        })
    };
    let global = "exif:\n  ISO: 400\n  ISOSpeedRatings: 400\nframes:\n  \"one.jpg\":\n";
    assert_eq!(speeds(&format!("{global}    ISO: 800\n")), [Some(800); 3]);
    assert_eq!(speeds(&format!("{global}    Make: Nikon\n")), [Some(400); 3]);
}

#[test]
fn iso_names_share_the_last_value() {
    let tags = normalize_iso_aliases(vec![
        tag("ISO", YamlValue::Number(100.into())),
        text_tag("Make", "Nikon"),
        tag("ISOSpeedRatings", YamlValue::Number(200.into())),
    ]);
    for name in ["ISO", "ISOSpeed", "ISOSpeedRatings"] {
        let named = tags.iter().filter(|tag| tag.name == name).collect::<Vec<_>>();
        assert_eq!(named.len(), 1);
        assert_eq!(named[0].value.as_i64(), Some(200));
    }
}

#[test]
fn write_plan_labels_filename_frame_keys_with_file_name() {
    let image = path("roll/2.jpg");
    let yaml = yaml("\nframes:\n  \"2.jpg\":\n    Make: Nikon\n");
    let files =
        vec![FrameFile { name: "2.jpg".to_string(), identity: image.identity.clone() }];

    let plan = build_write_plan(&yaml, &files, &vec![image.duplicate()])
        .expect("write plan should build");
    let frame = plan.frame_for_image(&image).expect("filename frame should match image");

    assert_eq!(frame.label, "2.jpg");
}

#[test]
fn write_plan_accepts_null_frames_and_null_frame_values() {
    let image = path("roll/one.jpg");
    let files =
        vec![FrameFile { name: "one.jpg".to_string(), identity: image.identity.clone() }];
    let targets = vec![image.duplicate()];

    let plan = build_write_plan(
        &yaml("\nexif:\n  Make: Nikon\nframes:\n  \"one.jpg\":\n"),
        &files,
        &targets,
    )
    .expect("write plan should build");
    let frame =
        plan.frame_for_image(&image).expect("global tags should apply to the null frame");

    assert_eq!(frame.label, "one.jpg");
    assert!(frame
        .tags
        .iter()
        .any(|tag| tag.name == "Make" && tag.value.as_str() == Some("Nikon")));

    let plan = build_write_plan(&yaml("\nexif:\n  Make: Nikon\nframes:\n"), &files, &targets)
        .expect("write plan should build");
    assert!(plan.frame_for_image(&image).is_some());
}

#[test]
fn images_without_tags_are_skipped() {
    let plan = build_write_plan(&yaml("frames:\n"), &Vec::new(), &Vec::new())
        .expect("write plan should build");
    assert!(plan.frame_for_image(&path("one.jpg")).is_none());
}

fn file_output(label: &str, image: &str, result: WriteFileResult, elapsed_ms: u64) -> WriteFileOutput {
    WriteFileOutput {
        label: label.to_string(),
        image: path(image),
        result,
        elapsed_ms,
        dry_run: false,
    }
}

#[test]
fn write_output_renders_file_groups_and_overview() {
    colored::control::set_override(true);
    let output = WriteOutput {
        metadata_path: path("metadata.yml"),
        dry_run: true,
        target_count: 3,
        file_warnings: Vec::new(),
        files: vec![
            file_output(
                "frame 1 (image.jpg)",
                "image.jpg",
                WriteFileResult {
                    written: 2,
                    warnings: vec!["skipping unsupported writer tag `FilmRoll`".to_string()],
                    ..WriteFileResult::default()
                },
                42,
            ),
            file_output(
                "2.jpg",
                "2.jpg",
                WriteFileResult { written: 1, ..WriteFileResult::default() },
                1501,
            ),
        ],
        skipped_files: vec![path("missing.jpg")],
    };
    let mut summary = WriteSummary::default();
    summary.add(&output.files[0].result);
    summary.add(&output.files[1].result);
    summary.skipped_files = output.skipped_files.len() as u128;
    summary.elapsed_ms = 42;

    let rendered = format_write_output(&output, &summary).render();
    let plain = strip_ansi_codes(&rendered);

    assert!(plain.starts_with("write "));
    assert!(plain.contains("mode: dry-run\n\nframes "));
    assert!(plain.contains("frames "));
    assert!(plain.contains("frame 1 (image.jpg)\nwrote 2 tags\ntook 42ms"));
    assert!(rendered.contains("\u{1b}[94mframes"));
    assert!(rendered.contains("\u{1b}[96mframe 1 (image.jpg)"));
    assert!(rendered.contains("\u{1b}[96m2.jpg"));
    assert!(!plain.contains("file: image.jpg"));
    assert!(!plain.contains("\ntags:"));
    assert!(!plain.contains("\nskipped: 0"));
    assert!(plain.contains("warning: skipping unsupported writer tag `FilmRoll`"));
    assert!(plain.contains(
        "warning: skipping unsupported writer tag `FilmRoll`\n2.jpg\nwrote 1 tags\ntook 1.5s"
    ));
    assert!(plain.contains("missing.jpg\nskipped: no metadata"));
    assert!(plain.contains("skipped: no metadata\n\noverview "));
    assert!(rendered.contains("\u{1b}[94moverview"));
    assert!(plain.contains("errors         0"));
    assert!(plain.contains("warnings       1"));
    assert!(plain.contains("written        3"));
    assert!(plain.contains("stripped       0"));
    assert!(plain.contains("removed tags   0"));
    assert!(plain.contains("skipped        0"));
    assert!(plain.contains("files skipped  1"));
    assert!(plain.contains("took           42ms"));
    assert!(plain.contains("status         success (with warnings)"));
    assert!(!plain.contains("write:"));
    assert!(rendered.contains("status         \u{1b}[32msuccess\u{1b}[0m (with warnings)"));
}

#[test]
fn write_output_prints_path_for_non_current_directory_files() {
    colored::control::set_override(true);
    let output = WriteOutput {
        metadata_path: path("metadata.yml"),
        dry_run: true,
        target_count: 1,
        file_warnings: Vec::new(),
        files: vec![WriteFileOutput {
            label: "image.jpg".to_string(),
            image: FilePath::from_path(PathBuf::from("nested").join("image.jpg")),
            result: WriteFileResult { written: 1, ..WriteFileResult::default() },
            elapsed_ms: 0,
            dry_run: false,
        }],
        skipped_files: Vec::new(),
    };
    let mut summary = WriteSummary::default();
    summary.add(&output.files[0].result);

    let rendered = format_write_output(&output, &summary).render();
    let plain = strip_ansi_codes(&rendered);

    assert!(rendered.contains("\u{1b}[96mimage.jpg"));
    assert!(
        plain.contains("file: nested\\image.jpg") || plain.contains("file: nested/image.jpg")
    );
}

#[test]
fn write_file_output_renders_strip_status_before_write_status() {
    let file = file_output(
        "image.jpg",
        "image.jpg",
        WriteFileResult {
            written: 2,
            strip_attempted: true,
            stripped: true,
            removed_tags: 3,
            ..WriteFileResult::default()
        },
        12,
    );

    let rendered = strip_ansi_codes(&format_write_file_output(&file).render());

    assert!(rendered.contains("image.jpg\nstripped EXIF: 3 tags\nwrote 2 tags\ntook 12ms"));
}

#[test]
fn write_file_output_renders_dry_run_strip_status() {
    let mut file = file_output(
        "image.jpg",
        "image.jpg",
        WriteFileResult {
            written: 1,
            strip_attempted: true,
            stripped: true,
            removed_tags: 1,
            ..WriteFileResult::default()
        },
        12,
    );
    file.dry_run = true;

    let rendered = strip_ansi_codes(&format_write_file_output(&file).render());

    assert!(rendered.contains("image.jpg\nwould strip EXIF: 1 tags\nwould write 1 tags"));
}

#[test]
fn write_overview_status_omits_warning_suffix_without_warnings() {
    colored::control::set_override(true);
    let summary = WriteSummary { written_tags: 1, ..WriteSummary::default() };

    let rendered = format_write_overview_output(&summary).render();
    let plain = strip_ansi_codes(&rendered);

    assert!(plain.contains("warnings       0"));
    assert!(plain.contains("status         success\n"));
    assert!(!plain.contains("(with warnings)"));
    assert!(rendered.contains("status         \u{1b}[32msuccess"));
}

#[test]
fn write_overview_status_fail_takes_precedence_over_warning_suffix() {
    colored::control::set_override(true);
    let summary = WriteSummary { warnings: 1, errors: 1, ..WriteSummary::default() };

    let rendered = format_write_overview_output(&summary).render();
    let plain = strip_ansi_codes(&rendered);

    assert!(plain.contains("status         fail\n"));
    assert!(!plain.contains("(with warnings)"));
    assert!(rendered.contains("status         \u{1b}[31mfail"));
}

#[test]
fn write_file_output_can_render_header_before_result() {
    colored::control::set_override(true);
    let file = file_output(
        "frame 1 (image.jpg)",
        "image.jpg",
        WriteFileResult {
            written: 2,
            skipped: vec!["ISO already exists".to_string()],
            ..WriteFileResult::default()
        },
        1500,
    );

    let header = format_write_file_header_output(&file).render();
    let result = format_write_file_result_output(&file).render();
    let combined = format_write_file_output(&file).render();

    assert_eq!(combined, format!("{header}{result}"));
    assert_eq!(strip_ansi_codes(&header), "frame 1 (image.jpg)\n");
    assert!(!strip_ansi_codes(&header).contains("tags:"));
    assert_eq!(
        strip_ansi_codes(&result),
        "wrote 2 tags\ntook 1500ms\nwarning: skipped ISO already exists\n"
    );
}

#[test]
fn write_file_output_always_prints_zero_written_completion_line() {
    let file = file_output(
        "frame 1 (image.jpg)",
        "image.jpg",
        WriteFileResult {
            skipped: vec!["ISO already exists".to_string()],
            ..WriteFileResult::default()
        },
        17,
    );

    assert_eq!(
        strip_ansi_codes(&format_write_file_result_output(&file).render()),
        "wrote 0 tags\ntook 17ms\nwarning: skipped ISO already exists\n"
    );
}

#[test]
fn write_file_output_labels_dry_run_completion_as_would_write() {
    let mut file = file_output(
        "frame 1 (image.jpg)",
        "image.jpg",
        WriteFileResult { written: 2, ..WriteFileResult::default() },
        9,
    );
    file.dry_run = true;

    assert_eq!(
        strip_ansi_codes(&format_write_file_result_output(&file).render()),
        "would write 2 tags\ntook 9ms\n"
    );
}

#[test]
fn write_duration_formats_milliseconds_until_threshold_then_seconds() {
    assert_eq!(format_write_duration(42), "42ms");
    assert_eq!(format_write_duration(1500), "1500ms");
    assert_eq!(format_write_duration(1501), "1.5s");
    assert_eq!(format_write_duration(2345), "2.3s");
}

fn double_size_text(bytes: u64) -> String {
    let units = ["bytes", "KB", "MB", "GB", "TB"];
    if bytes < 1000 {
        return format!("{bytes} bytes");
    }
    let mut value = bytes as f64;
    let mut unit = 0;
    while value >= 1000.0 && unit < units.len() - 1 {
        value /= 1000.0;
        unit += 1;
    }
    if value >= 10.0 {
        return format!("{value:.0} {}", units[unit]);
    }
    let text = format!("{value:.1}");
    format!("{} {}", text.trim_end_matches('0').trim_end_matches('.'), units[unit])
}

#[test]
fn durations_and_sizes_round_as_doubles_do() {
    let mut state: u64 = 0x9e37_79b9_7f4a_7c15;
    let mut values = vec![1501, 1549, 1550, 1551, 1650, 2250, 2350, u64::MAX, u64::MAX - 1];
    for index in 0..2000u32 {
        state = state.wrapping_mul(6_364_136_223_846_793_005).wrapping_add(1_442_695_040_888_963_407);
        values.push(state >> (index % 60));
    }
    for value in values {
        if value > 1500 {
            assert_eq!(format_write_duration(value), format!("{:.1}s", value as f64 / 1000.0));
        }
        assert_eq!(format_file_size(value), double_size_text(value));
    }
}

#[test]
fn custom_tag_payload_round_trips_yaml_values() {
    let tags = vec![
        CustomTag { name: "FilmRoll".to_string(), value: YamlValue::Number(35.into()) },
        CustomTag {
            name: "FilmName".to_string(),
            value: YamlValue::String("Kodak Double-X".to_string()),
        },
        CustomTag { name: "FilmNegative".to_string(), value: YamlValue::Bool(true) },
    ];

    let payload = encode_custom_tags(&tags).expect("custom tags should encode");
    let decoded = custom_tags_from_bytes(&payload).expect("custom tags should decode");
    let json = std::str::from_utf8(
        payload
            .strip_prefix(USER_COMMENT_ASCII_PREFIX)
            .expect("custom tags should use the EXIF ASCII UserComment prefix"),
    )
    .expect("custom tag JSON should be UTF-8");

    assert_eq!(decoded, tags);
    let unprefixed = &payload[USER_COMMENT_ASCII_PREFIX.len()..];
    assert_eq!(custom_tags_from_bytes(unprefixed).as_ref(), Some(&tags));
    let bare = &unprefixed[CUSTOM_TAG_PAYLOAD_MARKER.len()..];
    assert_eq!(bare[0], b'{');
    assert_eq!(custom_tags_from_bytes(bare).as_ref(), Some(&tags));
    assert!(!payload.starts_with(LEGACY_CUSTOM_TAG_PAYLOAD_PREFIX));
    assert!(json.starts_with(CUSTOM_TAG_PAYLOAD_MARKER));
    assert!(json.contains("exifmeta-v0.1.0"));
    assert!(json.contains(r#""FilmRoll":35"#));
    assert!(json.contains(r#""FilmName":"Kodak Double-X""#));
    assert!(json.contains(r#""FilmNegative":true"#));
}

#[test]
fn custom_tag_payload_decodes_marker_bare_json_and_legacy_yaml() {
    let bare_json = br#"{"FilmRoll":35,"FilmName":"Kodak Double-X"}"#;
    let mut marked_json = CUSTOM_TAG_PAYLOAD_MARKER.as_bytes().to_vec();
    marked_json.extend_from_slice(bare_json);
    let mut old_marked_json = b"exifmeta-v0.1.0\n".to_vec();
    old_marked_json.extend_from_slice(bare_json);
    let mut ascii_prefixed_json = USER_COMMENT_ASCII_PREFIX.to_vec();
    ascii_prefixed_json.extend_from_slice(bare_json);
    let mut ascii_prefixed_old_marked_json = USER_COMMENT_ASCII_PREFIX.to_vec();
    ascii_prefixed_old_marked_json.extend_from_slice(&old_marked_json);
    let mut legacy = LEGACY_CUSTOM_TAG_PAYLOAD_PREFIX.to_vec();
    legacy.extend_from_slice(b"FilmRoll: 35\nFilmName: Kodak Double-X\n");

    let bare_decoded = custom_tags_from_bytes(bare_json).expect("bare JSON should decode");
    let marked_decoded = custom_tags_from_bytes(&marked_json).expect("marked JSON should decode");
    let old_marked_decoded =
        custom_tags_from_bytes(&old_marked_json).expect("old marked JSON should decode");
    let ascii_prefixed_decoded =
        custom_tags_from_bytes(&ascii_prefixed_json).expect("ASCII-prefixed JSON should decode");
    let ascii_prefixed_old_marked_decoded =
        custom_tags_from_bytes(&ascii_prefixed_old_marked_json)
            .expect("ASCII-prefixed old marked JSON should decode");
    let legacy_decoded =
        custom_tags_from_bytes(&legacy).expect("legacy YAML payload should decode");

    assert_eq!(
        bare_decoded,
        vec![
            CustomTag { name: "FilmRoll".to_string(), value: YamlValue::Number(35.into()) },
            CustomTag {
                name: "FilmName".to_string(),
                value: YamlValue::String("Kodak Double-X".to_string()),
            },
        ]
    );
    assert_eq!(marked_decoded, bare_decoded);
    assert_eq!(old_marked_decoded, bare_decoded);
    assert_eq!(ascii_prefixed_decoded, bare_decoded);
    assert_eq!(ascii_prefixed_old_marked_decoded, bare_decoded);
    assert_eq!(legacy_decoded, bare_decoded);
    assert!(custom_tags_from_bytes(b"exifmeta-v0.1.0").is_none());
}

#[test]
fn write_dry_run_counts_custom_tags_without_warning() {
    let tags = vec![text_tag("Make", "Nikon"), tag("FilmRoll", YamlValue::Number(35.into()))];
    let mut image = Vec::new();

    let result = write_jpeg(&mut image, tags, true, &default_write_args());

    assert_eq!(result.written, 2);
    assert!(result.warnings.is_empty());
    assert!(result.errors.is_empty());
}

#[test]
fn written_custom_tags_are_read_back() {
    let mut image = jpeg_with(&[("FilmName", "Kodak Double-X")]);
    let exif = reading(&image).expect("EXIF metadata should be readable");
    assert_eq!(
        exifmeta::payload::custom_tags_from_exif(&exif.fields),
        vec![CustomTag {
            name: "FilmName".to_string(),
            value: YamlValue::String("Kodak Double-X".to_string()),
        }]
    );

    let tags = vec![tag("FilmRoll", YamlValue::Number(35.into()))];
    let result = write_jpeg(&mut image, tags, false, &default_write_args());
    assert!(result.warnings.is_empty(), "{:?}", result.warnings);
    assert_eq!(result.written, 1);
}

fn commented_metadata(comment: &[u8]) -> Metadata {
    let mut metadata = empty_metadata();
    metadata.set_tag(ExifTag::UserComment(comment.to_vec()));
    metadata
}

fn comment_of(metadata: &Metadata) -> Vec<u8> {
    match metadata.get_tag(&ExifTag::UserComment(Vec::new())).next() {
        Some(ExifTag::UserComment(bytes)) => bytes.clone(),
        _ => panic!("the comment should be there"),
    }
}

#[test]
fn foreign_user_comments_are_replaced_with_a_warning() {
    let mut metadata = commented_metadata(b"mine");
    let mut result = WriteFileResult::default();
    let prepared =
        prepare_tags(&measured_tags(vec![tag("FilmRoll", YamlValue::Number(35.into()))]));
    let pending = write_tags(&mut metadata, prepared.writable, 1, false, &mut result);
    assert_eq!(pending, 1);
    assert_eq!(
        result.warnings,
        vec!["replacing existing non-exifmeta UserComment".to_string()]
    );
    assert!(custom_tags_from_bytes(&comment_of(&metadata)).is_some());
}

#[test]
fn comments_are_not_overwritten_without_leave() {
    let mut metadata = commented_metadata(b"mine");
    let mut result = WriteFileResult::default();
    let prepared = prepare_tags(&measured_tags(vec![
        tag("FilmRoll", YamlValue::Number(35.into())),
        text_tag("Make", "Nikon"),
    ]));
    let pending = write_tags(&mut metadata, prepared.writable, 1, true, &mut result);
    assert_eq!(pending, 1);
    assert_eq!(result.skipped, vec!["UserComment already exists".to_string()]);
    assert!(result.warnings.is_empty());
    assert_eq!(comment_of(&metadata), b"mine");
}

/// Metadata with two directories of EXIF tags in the first image.
fn doubled_metadata() -> Metadata {
    let mut metadata = empty_metadata();
    metadata.set_tag(ExifTag::LensMake("first".to_string()));
    let copy = ImageFileDirectory::new_with_tags(
        vec![ExifTag::LensMake("second".to_string()), ExifTag::LensModel("kept".to_string())],
        ExifTagGroup::EXIF,
        0,
    );
    *metadata.get_ifd_mut(ExifTagGroup::GENERIC, 0) = copy;
    metadata
}

fn lens_makes(metadata: &Metadata) -> Vec<String> {
    metadata
        .get_tag(&ExifTag::LensMake(String::new()))
        .map(|tag| match tag {
            ExifTag::LensMake(text) => text.clone(),
            _ => panic!("the tag should be a text"),
        })
        .collect()
}

#[test]
fn doubled_directories_take_tags_in_the_first() {
    let mut metadata = doubled_metadata();
    assert_eq!(lens_makes(&metadata), ["second", "first"]);
    let mut result = WriteFileResult::default();
    let tags = || vec![WritableTag::Text(TextTag::LensMake, "new".to_string())];
    assert!(can_take_tags(&metadata, &tags()));
    let pending = try_write_tags(&mut metadata, tags(), 0, false, &mut result);
    assert_eq!(pending, Some(1));
    assert_eq!(lens_makes(&metadata), ["new", "first"]);

    let targets = vec![StripRemovalTarget {
        group: TagGroup::Exif,
        tag_id: 0xa433,
        name: "LensMake".to_string(),
    }];
    let mut stripped = StripFileResult::default();
    remove_targets(&mut metadata, &targets, &mut stripped);
    assert_eq!(lens_makes(&metadata), ["first"]);
    assert!(stripped.warnings.is_empty());
}

#[test]
fn doubled_directories_take_no_new_directory() {
    let mut metadata = doubled_metadata();
    let mut result = WriteFileResult::default();
    let tags = vec![WritableTag::Text(TextTag::Make, "Nikon".to_string())];
    assert_eq!(try_write_tags(&mut metadata, tags, 0, false, &mut result), None);
    assert_eq!(lens_makes(&metadata), ["second", "first"]);
}

#[test]
fn doubled_directories_are_cleared_in_a_full_strip() {
    let mut metadata = doubled_metadata();
    strip_tiff_full_metadata(&mut metadata);
    assert!(metadata.get_ifds().is_empty());
}

/// Metadata with tags in the first generic directory.
fn generic_metadata(tags: Vec<ExifTag>) -> Metadata {
    let mut metadata = empty_metadata();
    *metadata.get_ifd_mut(ExifTagGroup::GENERIC, 0) =
        ImageFileDirectory::new_with_tags(tags, ExifTagGroup::GENERIC, 0);
    metadata
}

fn generic_tags(metadata: &Metadata) -> Vec<ExifTag> {
    metadata.get_ifds().iter().flat_map(|directory| directory.get_tags().clone()).collect()
}

#[test]
fn last_layout_tag_of_a_number_survives_a_full_strip() {
    let mut metadata = generic_metadata(vec![
        ExifTag::Orientation(vec![1]),
        ExifTag::Orientation(vec![6]),
        ExifTag::Make("Nikon".to_string()),
    ]);
    strip_tiff_full_metadata(&mut metadata);
    assert_eq!(generic_tags(&metadata), [ExifTag::Orientation(vec![6])]);
}

#[test]
fn thumbnails_survive_a_full_strip() {
    let mut metadata = generic_metadata(vec![
        ExifTag::ThumbnailOffset(vec![8], vec![1, 2]),
        ExifTag::ThumbnailLength(vec![2]),
        ExifTag::Software("lab".to_string()),
    ]);
    strip_tiff_full_metadata(&mut metadata);
    assert_eq!(
        generic_tags(&metadata),
        [ExifTag::ThumbnailOffset(vec![8], vec![1, 2]), ExifTag::ThumbnailLength(vec![2])]
    );
}

#[test]
fn tags_kept_by_number_only_leave_the_minimum() {
    let unknown = |number: u16| ExifTag::UnknownINT8U(vec![1], number, ExifTagGroup::GENERIC);
    let mut metadata = generic_metadata(vec![
        unknown(0x0202),
        ExifTag::ThumbnailLength(vec![2]),
        unknown(0x0112),
    ]);
    strip_tiff_full_metadata(&mut metadata);
    assert_eq!(generic_tags(&metadata), [unknown(0x0112)]);
}

fn film_tags() -> Vec<CustomTag> {
    vec![
        CustomTag { name: "FilmRoll".to_string(), value: YamlValue::Number(35.into()) },
        CustomTag { name: "Photographer".to_string(), value: YamlValue::Bool(true) },
    ]
}

fn edit(name: &str, value: YamlValue) -> MeasuredTag {
    MeasuredTag {
        measured: measured(&value),
        tag: WriteTag { name: name.to_string(), value },
        place: PlaceLookup::NotFound,
    }
}

#[test]
fn edits_of_exif_tags_leave_the_custom_tags() {
    for name in ["Make", "Photographer"] {
        let prepared = prepare_edit(&edit(name, "Harry".into()), film_tags());
        assert_eq!(prepared.custom_count, 0);
        assert_eq!(prepared.writable.len(), 1);
        assert!(matches!(&prepared.writable[0], WritableTag::Text(_, text) if text == "Harry"));
    }
    let prepared = prepare_edit(&edit("ISOSpeedRatings", 400.into()), film_tags());
    assert!(matches!(prepared.writable[..], [WritableTag::Short(ShortTag::Iso, 400)]));
    let prepared = prepare_edit(&edit("$Location", "Nowhere".into()), film_tags());
    assert!(prepared.writable.is_empty());
    assert_eq!(prepared.warnings.len(), 1);
}

#[test]
fn edits_of_custom_tags_take_the_others_along() {
    let carried = |prepared: &PreparedTags| match &prepared.writable[..] {
        [WritableTag::Bytes(ByteTag::UserComment, payload)] => {
            let mut tags = custom_tags_from_bytes(payload)
                .expect("the payload should be read back")
                .into_iter()
                .map(|tag| (tag.name, tag.value))
                .collect::<Vec<_>>();
            tags.sort_by(|one, other| one.0.cmp(&other.0));
            tags
        }
        _ => panic!("the payload alone should be written"),
    };

    let prepared = prepare_edit(&edit("Lab", "home".into()), film_tags());
    assert_eq!(prepared.custom_count, 1);
    assert_eq!(
        carried(&prepared),
        [
            ("FilmRoll".to_string(), YamlValue::Number(35.into())),
            ("Lab".to_string(), "home".into()),
            ("Photographer".to_string(), YamlValue::Bool(true)),
        ]
    );

    let prepared = prepare_edit(&edit("FilmRoll", 36.into()), film_tags());
    assert_eq!(
        carried(&prepared),
        [
            ("FilmRoll".to_string(), YamlValue::Number(36.into())),
            ("Photographer".to_string(), YamlValue::Bool(true)),
        ]
    );

    // A value that the EXIF tag of its name cannot hold makes it a custom one.
    let prepared = prepare_edit(&edit("Flash", "often".into()), Vec::new());
    assert_eq!(carried(&prepared), [("Flash".to_string(), "often".into())]);
}

#[test]
fn write_tag_parser_supports_fraction_and_unit_values() {
    let parse = |name: &str, text: &str| {
        let value = YamlValue::String(text.to_string());
        writable_exif_tag(name, &value, &measured(&value))
    };
    let exposure = parse("ExposureTime", "1/500").expect("exposure tag should parse");
    let focal_length = parse("FocalLength", "75mm").expect("focal length tag should parse");
    let aperture = parse("FNumber", "f/5.6").expect("aperture tag should parse");

    assert!(
        matches!(exposure, WritableTag::Ratios(RatioTag::ExposureTime, values) if values[0].numerator == 1 && values[0].denominator == 500)
    );
    assert!(
        matches!(focal_length, WritableTag::Ratios(RatioTag::FocalLength, values) if values[0].numerator == 75_000_000 && values[0].denominator == 1_000_000)
    );
    assert!(
        matches!(aperture, WritableTag::Ratios(RatioTag::FNumber, values) if values[0].numerator == 5_600_000 && values[0].denominator == 1_000_000)
    );
}

#[test]
fn write_tag_parser_reads_dates_and_numbers() {
    assert_eq!(
        yaml_datetime(&YamlValue::String("2026-05-22".to_string())),
        Some("2026:05:22 00:00:00".to_string())
    );
    assert_eq!(parse_u32("400"), Some(400));
    assert_eq!(parse_u32("4294967296"), None);
    assert_eq!(parse_u32(""), None);
    assert_eq!(parse_u32("-1"), None);
    assert_eq!(clean_numeric_string(" f/2.8 "), "2.8");
    assert_eq!(clean_numeric_string("50mm"), "50");
}

#[test]
fn last_tag_of_a_slot_wins() {
    let tags = dedupe_writable_tags(vec![
        WritableTag::Text(TextTag::Make, "Nikon".to_string()),
        WritableTag::Short(ShortTag::Flash, 1),
        WritableTag::Text(TextTag::Make, "Leica".to_string()),
    ]);
    assert_eq!(tags.len(), 2);
    assert!(matches!(&tags[0], WritableTag::Text(TextTag::Make, text) if text == "Leica"));
    assert!(matches!(tags[1], WritableTag::Short(ShortTag::Flash, 1)));
}

#[test]
fn located_tags_become_a_position() {
    let place = |south: bool| {
        PlaceLookup::Found(GpsPosition {
            south,
            latitude: degrees(51.5),
            west: true,
            longitude: degrees(0.125),
            altitude: None,
        })
    };
    let located = |place: PlaceLookup| {
        prepare_tags(&vec![MeasuredTag {
            tag: text_tag("$Location", "London"),
            measured: Measured { ratio: None, degrees: None },
            place,
        }])
    };
    let prepared = located(place(false));
    assert_eq!(prepared.writable.len(), 5);
    assert!(matches!(
        &prepared.writable[0],
        WritableTag::Text(TextTag::GpsLatitudeRef, text) if text == "N"
    ));
    assert!(matches!(
        &prepared.writable[2],
        WritableTag::Text(TextTag::GpsLongitudeRef, text) if text == "W"
    ));
    assert_eq!(
        located(PlaceLookup::NotFound).warnings,
        vec!["$Location: no match found in database [for <London>]".to_string()]
    );
    assert_eq!(
        located(PlaceLookup::Failed("closed".to_string())).warnings,
        vec!["$Location lookup failed: closed".to_string()]
    );
}

fn write_inputs(document: &str, targets: Vec<FilePath>) -> WriteInputs {
    WriteInputs {
        resolution: Ok(MetadataPathResolution {
            path: path("roll/metadata.yml"),
            warnings: Vec::new(),
        }),
        read: MetadataRead::Document(yaml(document)),
        surroundings: FrameSurroundings {
            images: Ok(targets.iter().map(|target| target.duplicate()).collect()),
            geonames: Ok(Vec::new()),
            existing_files: vec!["one.jpg".to_string()],
        },
        targets: Ok(targets),
        files: vec![FrameFile {
            name: "one.jpg".to_string(),
            identity: path("roll/one.jpg").identity,
        }],
    }
}

#[test]
fn write_run_takes_each_image_and_adds_it_up() {
    let document = "frames:\n  \"one.jpg\":\n    Make: Nikon\n";
    let targets = vec![path("roll/one.jpg"), path("roll/two.jpg")];
    let mut run = write_command(&default_write_args(), true, write_inputs(document, targets))
        .expect("the metadata is valid");

    match run.take_image(path("roll/one.jpg")) {
        ImageStep::Write(mut file, tags) => {
            assert_eq!(file.label, "one.jpg");
            assert_eq!(tags.len(), 1);
            file.result.written = 1;
            run.record(file);
        }
        ImageStep::Skipped => panic!("the frame has a tag"),
    }
    assert!(matches!(run.take_image(path("roll/two.jpg")), ImageStep::Skipped));
    assert_eq!(run.summary.written_tags, 1);
    assert_eq!(run.summary.skipped_files, 1);
    assert!(run.outcome().is_ok());
}

#[test]
fn write_command_refuses_bad_metadata_and_missing_targets() {
    let message = |document: &str, targets: Vec<FilePath>| {
        write_command(&default_write_args(), true, write_inputs(document, targets))
            .map(|_| ())
            .expect_err("the write should be refused")
    };
    assert_eq!(message("exif: {}", Vec::new()), "no target images matched");
    assert!(message("exif: []", vec![path("roll/one.jpg")]).contains("exif"));
    assert!(message("- list", vec![path("roll/one.jpg")]).contains("root must be a mapping"));
}

#[test]
fn only_the_tags_to_write_change() {
    let mut image = jpeg_with(&[("Make", "Nikon"), ("Model", "F3")]);

    let tags = vec![text_tag("Model", "FM2"), text_tag("Artist", "Harry Merritt")];
    let result = write_jpeg(&mut image, tags, false, &default_write_args());

    assert_eq!(result.written, 2);
    let exif = reading(&image).expect("EXIF metadata should be readable");
    let shown = |name: &str| {
        exif.fields
            .iter()
            .filter(|field| field.name == name)
            .map(|field| field.shown.clone())
            .collect::<Vec<_>>()
    };
    assert_eq!(shown("Make"), ["\"Nikon\""]);
    assert_eq!(shown("Model"), ["\"FM2\""]);
    assert_eq!(shown("Artist"), ["\"Harry Merritt\""]);
}
