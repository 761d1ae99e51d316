use std::collections::HashSet;
use std::path::PathBuf;

use little_exif::filetype::FileExtension;
use little_exif::metadata::Metadata;

use exifmeta::cli::{StripArgs, WriteArgs};
use exifmeta::error::CliError;
use exifmeta::exif_data::{exif_data, read_exif, ExifData};
use exifmeta::path::FilePath;
use exifmeta::strip::{
    normalized_strip_tag_name, strip_removal_targets, StripMode, StripRemovalDecision,
    TagSelectorSet,
};
use exifmeta::strip_output::{
    format_strip_file_header_output, format_strip_file_output, format_strip_file_result_output,
    format_strip_json_output, format_strip_output, strip_command, strip_file_status,
    StripFileOutput, StripOutput, StripSummary,
};
use exifmeta::strip_run::{
    remove_targets, strip_cleared, strip_metadata_from_image, strip_tiff_full_metadata,
    strip_unreadable, strip_verified, strip_written, verify_strip_result, StripFileResult,
    StripNext,
};
use exifmeta::writable::{exif_tag, RatioTag, TextTag, UnsignedRatio, WritableTag};

fn tiff_data(
    first: &[[u8; 12]],
    nested: Option<(u16, &[[u8; 12]])>,
    offset_data: &[(u32, Vec<u8>)],
) -> Vec<u8> {
    let mut data = vec![0x4d, 0x4d, 0x00, 0x2a, 0x00, 0x00, 0x00, 0x08];
    let mut entries = first.to_vec();
    if let Some((pointer, _)) = nested {
        entries.push(tiff_long_entry(pointer, 100));
    }
    push_directory(&mut data, &entries, 0);
    if let Some((_, entries)) = nested {
        data.resize(100, 0);
        push_directory(&mut data, entries, 0);
    }
    let mut offset_data = offset_data.to_vec();
    offset_data.sort_by_key(|(offset, _)| *offset);
    for (offset, bytes) in offset_data {
        let offset = offset as usize;
        if data.len() < offset {
            data.resize(offset, 0);
        }
        data.extend_from_slice(&bytes);
    }
    data
}

fn push_directory(data: &mut Vec<u8>, entries: &[[u8; 12]], next: u32) {
    data.extend_from_slice(&(entries.len() as u16).to_be_bytes());
    for entry in entries {
        data.extend_from_slice(entry);
    }
    data.extend_from_slice(&next.to_be_bytes());
}

fn parse_data(data: Vec<u8>) -> ExifData {
    let exif = exif::Reader::new()
        .continue_on_error(true)
        .read_raw(data)
        .or_else(|error| error.distill_partial_result(|_| {}))
        .expect("test EXIF should parse");
    exif_data(&exif)
}

fn parse_raw_exif(entries: &[[u8; 12]]) -> ExifData {
    parse_data(tiff_data(entries, None, &[]))
}

fn tiff_entry(tag: u16, type_id: u16, count: usize) -> [u8; 12] {
    let mut entry = [0; 12];
    entry[0..2].copy_from_slice(&tag.to_be_bytes());
    entry[2..4].copy_from_slice(&type_id.to_be_bytes());
    entry[4..8].copy_from_slice(&(count as u32).to_be_bytes());
    entry
}

fn tiff_ascii_entry(tag: u16, value: &[u8]) -> [u8; 12] {
    let mut entry = tiff_entry(tag, 2, value.len());
    entry[8..(8 + value.len())].copy_from_slice(value);
    entry
}

fn tiff_long_entry(tag: u16, value: u32) -> [u8; 12] {
    let mut entry = tiff_entry(tag, 4, 1);
    entry[8..12].copy_from_slice(&value.to_be_bytes());
    entry
}

fn tiff_short_entry(tag: u16, value: u16) -> [u8; 12] {
    let mut entry = tiff_entry(tag, 3, 1);
    entry[8..10].copy_from_slice(&value.to_be_bytes());
    entry
}

fn tiff_offset_entry(tag: u16, type_id: u16, length: usize, offset: u32) -> [u8; 12] {
    let mut entry = tiff_entry(tag, type_id, length);
    entry[8..12].copy_from_slice(&offset.to_be_bytes());
    entry
}

fn tiff_rational_entry(tag: u16, values: &[(u32, u32)], offset: u32) -> ([u8; 12], Vec<u8>) {
    let mut data = Vec::new();
    for &(numerator, denominator) in values {
        data.extend_from_slice(&numerator.to_be_bytes());
        data.extend_from_slice(&denominator.to_be_bytes());
    }
    (tiff_offset_entry(tag, 5, values.len(), offset), data)
}

fn strip_ansi_codes(value: &str) -> String {
    let mut output = String::new();
    let mut chars = value.chars().peekable();
    while let Some(char) = chars.next() {
        if char == '\u{1b}' && chars.peek() == Some(&'[') {
            chars.next();
            for char in chars.by_ref() {
                if char == 'm' {
                    break;
                }
            }
        } else {
            output.push(char);
        }
    }
    output
}

fn path(text: &str) -> FilePath {
    FilePath::from_path(PathBuf::from(text))
}

fn selectors(names: &[&str]) -> TagSelectorSet {
    let names = names.iter().map(|name| name.to_string()).collect::<Vec<_>>();
    TagSelectorSet::from_values(&names).expect("selector should parse")
}

fn default_write_args() -> WriteArgs {
    WriteArgs {
        metadata_or_targets: None,
        targets: None,
        strip: false,
        keep: Vec::new(),
        remove: Vec::new(),
        privacy: false,
        no_overwrite: false,
        extensions: Vec::new(),
        recursive: false,
    }
}

fn text(tag: TextTag, value: &str) -> WritableTag {
    WritableTag::Text(tag, value.to_string())
}

fn f_number() -> WritableTag {
    WritableTag::Ratios(
        RatioTag::FNumber,
        vec![UnsignedRatio { numerator: 5_600_000, denominator: 1_000_000 }],
    )
}

fn jpeg_with(tags: Vec<WritableTag>) -> Vec<u8> {
    let mut image = vec![0xff, 0xd8, 0xff, 0xd9];
    let mut metadata = Metadata::new();
    for tag in tags {
        metadata.set_tag(exif_tag(tag));
    }
    metadata.write_to_vec(&mut image, FileExtension::JPEG).expect("test JPEG should be written");
    image
}

fn reading(image: &Vec<u8>) -> Result<ExifData, String> {
    read_exif("image.jpg", image).map(|(exif, _)| exif)
}

fn tag_names(image: &Vec<u8>) -> HashSet<String> {
    let exif = reading(image).expect("EXIF metadata should be readable");
    exif.fields.into_iter().map(|field| field.name).collect()
}

fn tag_ids(image: &Vec<u8>) -> HashSet<u16> {
    let exif = reading(image).expect("EXIF metadata should be readable");
    exif.fields.into_iter().map(|field| field.number).collect()
}

/// Strips an image that is held in memory.
fn strip_image(
    image: &mut Vec<u8>,
    extension: FileExtension,
    is_tiff: bool,
    dry_run: bool,
    verify: bool,
    mode: &StripMode,
) -> StripFileResult {
    let (mut result, mut next) =
        strip_metadata_from_image(&reading(image), mode, is_tiff, dry_run, verify);
    loop {
        match next {
            StripNext::Done => return result,
            StripNext::ClearFile => {
                let outcome = Metadata::clear_metadata(image, extension)
                    .map_err(|error| error.to_string());
                (result, next) = strip_cleared(result, outcome, verify);
            }
            StripNext::ClearTiff => {
                let outcome = Metadata::new_from_vec(image, extension)
                    .and_then(|mut metadata| {
                        strip_tiff_full_metadata(&mut metadata);
                        metadata.write_to_vec(image, extension)
                    })
                    .map_err(|error| error.to_string());
                (result, next) = strip_cleared(result, outcome, verify);
            }
            StripNext::RemoveTags(targets) => match Metadata::new_from_vec(image, extension) {
                Ok(mut metadata) => {
                    remove_targets(&mut metadata, &targets, &mut result);
                    let outcome = metadata
                        .write_to_vec(image, extension)
                        .map_err(|error| error.to_string());
                    (result, next) = strip_written(result, outcome, verify);
                }
                Err(error) => return strip_unreadable(result, &error.to_string()),
            },
            StripNext::Verify => {
                let outcome = verify_strip_result(&reading(image), mode, is_tiff);
                return strip_verified(result, outcome);
            }
        }
    }
}

fn strip_jpeg(image: &mut Vec<u8>, mode: &StripMode) -> StripFileResult {
    strip_image(image, FileExtension::JPEG, false, false, true, mode)
}

#[test]
fn strip_dry_run_reports_without_modifying_file() {
    let mut image = vec![0xff, 0xd8, 0xff, 0xd9];

    let result =
        strip_image(&mut image, FileExtension::JPEG, false, true, true, &StripMode::all());

    assert!(result.stripped);
    assert!(!result.verified);
    assert!(result.warnings.is_empty());
    assert!(result.errors.is_empty());
    assert_eq!(image, [0xff, 0xd8, 0xff, 0xd9]);
}

#[test]
fn strip_unsupported_clear_format_reports_per_file_error() {
    let (result, next) = strip_metadata_from_image(
        &Err("unreadable".to_string()),
        &StripMode::all(),
        false,
        false,
        false,
    );
    assert!(matches!(next, StripNext::ClearFile));

    let (result, next) = strip_cleared(result, Err("unsupported format".to_string()), false);

    assert!(matches!(next, StripNext::Done));
    assert!(!result.stripped);
    assert_eq!(result.errors.len(), 1);
    assert!(result.errors[0].contains("failed to strip EXIF metadata"));
}

#[test]
fn strip_unreadable_image_is_an_error_unless_all_goes_unverified() {
    let unreadable = Err("broken".to_string());
    let expected = vec!["failed to read EXIF metadata: broken".to_string()];
    let (result, next) =
        strip_metadata_from_image(&unreadable, &StripMode::all(), false, false, true);
    assert_eq!(result.errors, expected);
    assert!(matches!(next, StripNext::Done));
    let (result, next) =
        strip_metadata_from_image(&unreadable, &StripMode::privacy(), false, false, false);
    assert_eq!(result.errors, expected);
    assert!(matches!(next, StripNext::Done));
}

#[test]
fn strip_output_renders_pretty_summary() {
    let output = StripOutput {
        dry_run: true,
        mode: "all",
        target_count: 1,
        files: vec![StripFileOutput {
            label: "image.jpg".to_string(),
            image: path("image.jpg"),
            result: StripFileResult {
                stripped: true,
                verified: false,
                removed_tags: 0,
                warnings: Vec::new(),
                errors: Vec::new(),
            },
            elapsed_ms: 17,
            dry_run: true,
        }],
    };
    let mut summary = StripSummary::default();
    summary.add(&output.files[0].result);
    summary.elapsed_ms = 17;

    let rendered = strip_ansi_codes(&format_strip_output(&output, &summary).render());

    assert!(rendered.contains("strip "));
    assert!(rendered.contains("mode: all"));
    assert!(rendered.contains("targets: 1"));
    assert!(rendered.contains("image.jpg\nwould strip EXIF\nremoved 0 tags\ntook 17ms"));
    assert!(rendered.contains("would strip    1"));
    assert!(rendered.contains("status         success"));
}

#[test]
fn strip_json_output_is_machine_readable() {
    let output = StripOutput {
        dry_run: false,
        mode: "all",
        target_count: 1,
        files: vec![StripFileOutput {
            label: "image.jpg".to_string(),
            image: path("image.jpg"),
            result: StripFileResult {
                stripped: true,
                verified: true,
                removed_tags: 3,
                warnings: Vec::new(),
                errors: Vec::new(),
            },
            elapsed_ms: 12,
            dry_run: false,
        }],
    };
    let mut summary = StripSummary::default();
    summary.add(&output.files[0].result);
    summary.elapsed_ms = 12;

    let value: serde_json::Value =
        serde_json::from_str(&format_strip_json_output(&output, &summary))
            .expect("strip JSON should parse");

    assert_eq!(value["command"], "strip");
    assert_eq!(value["mode"], "all");
    assert_eq!(value["dry_run"], false);
    assert_eq!(value["target_count"], 1);
    assert_eq!(value["files"][0]["status"], "verified");
    assert_eq!(value["files"][0]["removed_tags"], 3);
    assert_eq!(value["summary"]["files_stripped"], 1);
    assert_eq!(value["summary"]["tags_removed"], 3);
    assert_eq!(value["summary"]["files_verified"], 1);
    assert_eq!(value["status"], "success");
}

#[test]
fn strip_json_lists_warnings_and_errors() {
    let output = StripOutput {
        dry_run: false,
        mode: "remove",
        target_count: 1,
        files: vec![StripFileOutput {
            label: "image.jpg".to_string(),
            image: path("nested/image.jpg"),
            result: StripFileResult {
                stripped: false,
                verified: false,
                removed_tags: 1,
                warnings: vec!["first".to_string()],
                errors: vec!["second \"quoted\"".to_string()],
            },
            elapsed_ms: 12,
            dry_run: false,
        }],
    };
    let mut summary = StripSummary::default();
    summary.add(&output.files[0].result);

    let value: serde_json::Value =
        serde_json::from_str(&format_strip_json_output(&output, &summary))
            .expect("strip JSON should parse");

    assert_eq!(value["files"][0]["warnings"][0], "first");
    assert_eq!(value["files"][0]["errors"][0], "second \"quoted\"");
    assert_eq!(value["files"][0]["status"], strip_file_status(&output.files[0]));
    assert_eq!(value["summary"]["errors"], 1);
    assert_eq!(value["status"], "fail");
}

#[test]
fn strip_file_report_is_its_header_and_its_result() {
    colored::control::set_override(true);
    let file = StripFileOutput {
        label: "image.jpg".to_string(),
        image: path("nested/image.jpg"),
        result: StripFileResult {
            stripped: true,
            verified: true,
            removed_tags: 2,
            warnings: vec!["careful".to_string()],
            errors: Vec::new(),
        },
        elapsed_ms: 2345,
        dry_run: false,
    };
    let header = format_strip_file_header_output(&file).render();
    let result = format_strip_file_result_output(&file).render();
    assert_eq!(format_strip_file_output(&file).render(), format!("{header}{result}"));
    assert!(header.contains('\u{1b}'));
    assert!(strip_ansi_codes(&result).contains("took 2.3s"));
}

#[test]
fn strip_keep_preserves_named_tags_and_removes_others() {
    let mut image = jpeg_with(vec![
        text(TextTag::Make, "Nikon"),
        text(TextTag::Model, "F3"),
        text(TextTag::Artist, "Harry Merritt"),
    ]);

    let result = strip_jpeg(&mut image, &StripMode::keep(selectors(&["Make"])));

    assert!(result.errors.is_empty(), "{:?}", result.errors);
    assert!(result.stripped);
    assert!(result.verified);
    assert_eq!(result.removed_tags, 2);
    let names = tag_names(&image);
    assert!(names.contains("Make"));
    assert!(!names.contains("Model"));
    assert!(!names.contains("Artist"));
}

#[test]
fn strip_keep_with_remove_prefers_explicit_remove() {
    let mut image = jpeg_with(vec![
        text(TextTag::Make, "Nikon"),
        text(TextTag::Model, "F3"),
        text(TextTag::Artist, "Harry Merritt"),
    ]);

    let mode = StripMode::keep_with_remove(selectors(&["Make"]), selectors(&["Make"]));
    let result = strip_jpeg(&mut image, &mode);

    assert!(result.errors.is_empty(), "{:?}", result.errors);
    assert!(result.stripped);
    assert!(result.verified);
    assert_eq!(result.removed_tags, 3);
    let names = tag_names(&image);
    assert!(!names.contains("Make"));
    assert!(!names.contains("Model"));
    assert!(!names.contains("Artist"));
}

#[test]
fn strip_remove_only_removes_named_tags() {
    let mut image = jpeg_with(vec![
        text(TextTag::Make, "Nikon"),
        text(TextTag::Model, "F3"),
        text(TextTag::Artist, "Harry Merritt"),
    ]);

    let result = strip_jpeg(&mut image, &StripMode::remove(selectors(&["Model"])));

    assert!(result.errors.is_empty(), "{:?}", result.errors);
    assert!(result.stripped);
    assert!(result.verified);
    assert_eq!(result.removed_tags, 1);
    let names = tag_names(&image);
    assert!(names.contains("Make"));
    assert!(!names.contains("Model"));
    assert!(names.contains("Artist"));
}

#[test]
fn strip_privacy_removes_sensitive_tags_and_keeps_technical_tags() {
    let mut image = jpeg_with(vec![
        text(TextTag::Make, "Nikon"),
        text(TextTag::Artist, "Harry Merritt"),
        text(TextTag::DateTimeOriginal, "2026:05:22 00:00:00"),
        f_number(),
    ]);

    let result = strip_jpeg(&mut image, &StripMode::privacy());

    assert!(result.errors.is_empty(), "{:?}", result.errors);
    assert!(result.stripped);
    assert!(result.verified);
    assert_eq!(result.removed_tags, 2);
    let names = tag_names(&image);
    assert!(names.contains("Make"));
    assert!(names.contains("FNumber"));
    assert!(!names.contains("Artist"));
    assert!(!names.contains("DateTimeOriginal"));
}

#[test]
fn strip_privacy_with_remove_removes_extra_tag() {
    let mut image = jpeg_with(vec![
        text(TextTag::Make, "Nikon"),
        text(TextTag::Artist, "Harry Merritt"),
        text(TextTag::DateTimeOriginal, "2026:05:22 00:00:00"),
        f_number(),
    ]);

    let mode = StripMode::privacy_with_remove(selectors(&["FNumber"]));
    let result = strip_jpeg(&mut image, &mode);

    assert!(result.errors.is_empty(), "{:?}", result.errors);
    assert!(result.stripped);
    assert!(result.verified);
    assert_eq!(result.removed_tags, 3);
    let names = tag_names(&image);
    assert!(names.contains("Make"));
    assert!(!names.contains("FNumber"));
    assert!(!names.contains("Artist"));
    assert!(!names.contains("DateTimeOriginal"));
}

#[test]
fn strip_full_leaves_nothing_in_a_jpeg() {
    let mut image = jpeg_with(vec![text(TextTag::Make, "Nikon"), f_number()]);
    assert!(tag_names(&image).contains("Make"));

    let result = strip_jpeg(&mut image, &StripMode::all());

    assert!(result.errors.is_empty(), "{:?}", result.errors);
    assert!(result.stripped);
    assert!(result.verified);
    assert!(tag_names(&image).is_empty());
}

#[test]
fn strip_privacy_preserves_unknown_tags_and_required_tiff_tags() {
    let exif = parse_raw_exif(&[
        tiff_long_entry(0x0100, 640),
        tiff_ascii_entry(0x010f, b"N\0"),
        tiff_short_entry(0xfde8, 42),
    ]);

    let planned = strip_removal_targets(&exif.fields, &StripMode::privacy(), true);
    let tag_ids = planned.targets.iter().map(|target| target.tag_id).collect::<HashSet<_>>();
    let names = planned.targets.into_iter().map(|target| target.name).collect::<HashSet<_>>();

    assert!(planned.warnings.is_empty(), "{:?}", planned.warnings);
    assert!(planned.errors.is_empty(), "{:?}", planned.errors);
    assert!(!tag_ids.contains(&0xfde8));
    assert!(!names.contains("ImageWidth"));
    assert!(!names.contains("Make"));
}

#[test]
fn strip_selective_tiff_preserves_required_structural_tags() {
    let exif = parse_raw_exif(&[
        tiff_long_entry(0x0100, 640),
        tiff_long_entry(0x0101, 480),
        tiff_short_entry(0x0102, 8),
        tiff_ascii_entry(0x010e, b"A\0"),
        tiff_ascii_entry(0x013b, b"B\0"),
        tiff_short_entry(0x013d, 2),
    ]);
    let mode = StripMode::keep(selectors(&["Make"]));

    let planned = strip_removal_targets(&exif.fields, &mode, true);
    let tag_ids = planned.targets.iter().map(|target| target.tag_id).collect::<HashSet<_>>();
    let names = planned.targets.into_iter().map(|target| target.name).collect::<HashSet<_>>();

    assert!(planned.warnings.is_empty(), "{:?}", planned.warnings);
    assert!(planned.errors.is_empty(), "{:?}", planned.errors);
    assert!(!names.contains("ImageWidth"));
    assert!(!names.contains("ImageLength"));
    assert!(!names.contains("BitsPerSample"));
    assert!(names.contains("ImageDescription"));
    assert!(names.contains("Artist"));
    assert!(!tag_ids.contains(&0x013d));
}

#[test]
fn strip_all_tiff_preserves_visual_structural_tags_and_removes_metadata_tags() {
    let (xres_entry, xres_data) = tiff_rational_entry(0x011a, &[(300, 1)], 200);
    let (yres_entry, yres_data) = tiff_rational_entry(0x011b, &[(300, 1)], 208);
    let exif = parse_data(tiff_data(
        &[
            tiff_long_entry(0x0100, 640),
            tiff_long_entry(0x0101, 480),
            tiff_short_entry(0x0102, 8),
            tiff_short_entry(0x0103, 5),
            tiff_short_entry(0x0106, 2),
            tiff_ascii_entry(0x010f, b"N\0"),
            tiff_ascii_entry(0x0110, b"F3\0"),
            tiff_long_entry(0x0111, 256),
            tiff_short_entry(0x0112, 1),
            tiff_short_entry(0x0115, 3),
            tiff_long_entry(0x0116, 1),
            tiff_long_entry(0x0117, 4),
            xres_entry,
            yres_entry,
            tiff_short_entry(0x011c, 1),
            tiff_short_entry(0x0128, 2),
            tiff_offset_entry(0x0131, 2, 6, 216),
            tiff_offset_entry(0x0132, 2, 20, 222),
            tiff_short_entry(0x013d, 2),
            tiff_offset_entry(0x02bc, 7, 4, 242),
            tiff_offset_entry(0x83bb, 7, 4, 246),
            tiff_long_entry(0x8769, 300),
            tiff_offset_entry(0x8773, 7, 4, 254),
        ],
        None,
        &[
            (200, xres_data),
            (208, yres_data),
            (216, b"soft\0\0".to_vec()),
            (222, b"2026:05:27 12:00:00\0".to_vec()),
            (242, b"xmp!".to_vec()),
            (246, b"iptc".to_vec()),
            (254, b"icc!".to_vec()),
            (300, vec![0, 0, 0, 0, 0, 0]),
        ],
    ));

    let planned = strip_removal_targets(&exif.fields, &StripMode::all(), true);
    let target_ids = planned.targets.iter().map(|target| target.tag_id).collect::<HashSet<_>>();

    assert!(planned.warnings.is_empty(), "{:?}", planned.warnings);
    assert!(planned.errors.is_empty(), "{:?}", planned.errors);
    for protected in [
        0x0100, 0x0101, 0x0102, 0x0103, 0x0106, 0x0111, 0x0112, 0x0115, 0x0116, 0x0117, 0x011a,
        0x011b, 0x011c, 0x0128, 0x013d, 0x8773,
    ] {
        assert!(
            !target_ids.contains(&protected),
            "protected TIFF tag 0x{protected:04x} should not be removed"
        );
    }
    for removable in [0x010f, 0x0110, 0x0131, 0x0132, 0x02bc, 0x83bb, 0x8769] {
        assert!(
            target_ids.contains(&removable),
            "metadata TIFF tag 0x{removable:04x} should be removed"
        );
    }
}

#[test]
fn strip_remove_required_tiff_structural_tag_fails_before_write() {
    let exif =
        parse_raw_exif(&[tiff_long_entry(0x0100, 640), tiff_ascii_entry(0x010e, b"A\0")]);
    let mode = StripMode::remove(selectors(&["ImageWidth"]));

    let planned = strip_removal_targets(&exif.fields, &mode, true);

    assert!(planned.warnings.is_empty(), "{:?}", planned.warnings);
    assert!(planned.targets.is_empty());
    assert_eq!(
        planned.errors,
        vec!["cannot remove required TIFF tag `ImageWidth`: TIFF cannot be written without it"]
    );
}

#[test]
fn strip_remove_predictor_fails_before_write() {
    let exif = parse_raw_exif(&[tiff_short_entry(0x013d, 2), tiff_ascii_entry(0x010e, b"A\0")]);
    let mode = StripMode::remove(selectors(&["Predictor"]));

    let planned = strip_removal_targets(&exif.fields, &mode, true);

    assert!(planned.warnings.is_empty(), "{:?}", planned.warnings);
    assert!(planned.targets.is_empty());
    assert_eq!(
        planned.errors,
        vec!["cannot remove required TIFF tag `0x013D`: TIFF cannot be written without it"]
    );
}

/// A little picture with a predictor and a colour profile.
fn synthetic_tiff_with_predictor() -> Vec<u8> {
    let short = |value: u16| value.to_be_bytes().to_vec();
    let long = |value: u32| value.to_be_bytes().to_vec();
    let resolution = [0, 0, 1, 44, 0, 0, 0, 1].to_vec();
    let mut entries: Vec<(u16, u16, u32, Vec<u8>)> = vec![
        (0x0100, 4, 1, long(1)),
        (0x0101, 4, 1, long(1)),
        (0x0102, 3, 3, [0, 8, 0, 8, 0, 8].to_vec()),
        (0x0103, 3, 1, short(5)),
        (0x0106, 3, 1, short(2)),
        (0x010f, 2, 6, b"Nikon\0".to_vec()),
        (0x0110, 2, 3, b"F3\0".to_vec()),
        (0x0111, 4, 1, long(0)),
        (0x0112, 3, 1, short(1)),
        (0x0115, 3, 1, short(3)),
        (0x0116, 4, 1, long(1)),
        (0x0117, 4, 1, long(4)),
        (0x011a, 5, 1, resolution.clone()),
        (0x011b, 5, 1, resolution),
        (0x011c, 3, 1, short(1)),
        (0x0128, 3, 1, short(2)),
        (0x0131, 2, 14, b"test software\0".to_vec()),
        (0x0132, 2, 20, b"2026:05:27 12:00:00\0".to_vec()),
        (0x013d, 3, 1, short(2)),
        (0x8773, 7, 4, vec![1, 2, 3, 4]),
    ];
    let base = 8 + 2 + entries.len() * 12 + 4;
    let outside =
        entries.iter().filter(|entry| entry.3.len() > 4).map(|entry| entry.3.len()).sum::<usize>();
    let pixels = (base + outside) as u32;
    for entry in &mut entries {
        if entry.0 == 0x0111 {
            entry.3 = pixels.to_be_bytes().to_vec();
        }
    }
    let mut data = vec![0x4d, 0x4d, 0x00, 0x2a, 0x00, 0x00, 0x00, 0x08];
    data.extend_from_slice(&(entries.len() as u16).to_be_bytes());
    let mut chunks = Vec::new();
    let mut offset = base as u32;
    for (tag, type_id, count, value) in entries {
        data.extend_from_slice(&tag.to_be_bytes());
        data.extend_from_slice(&type_id.to_be_bytes());
        data.extend_from_slice(&count.to_be_bytes());
        if value.len() <= 4 {
            data.extend_from_slice(&value);
            data.resize(data.len() + (4 - value.len()), 0);
        } else {
            data.extend_from_slice(&offset.to_be_bytes());
            offset += value.len() as u32;
            chunks.extend_from_slice(&value);
        }
    }
    data.extend_from_slice(&[0, 0, 0, 0]);
    data.extend_from_slice(&chunks);
    data.extend_from_slice(&[0x80, 0x00, 0x00, 0x00]);
    data
}

#[test]
fn strip_all_tiff_preserves_predictor_when_writing() {
    let mut image = synthetic_tiff_with_predictor();

    let result = strip_image(
        &mut image,
        FileExtension::TIFF,
        true,
        false,
        true,
        &StripMode::all(),
    );

    assert!(result.errors.is_empty(), "{:?}", result.errors);
    assert!(result.stripped);
    assert!(result.verified);
    let ids = tag_ids(&image);
    let names = tag_names(&image);
    assert!(ids.contains(&0x013d));
    assert!(ids.contains(&0x8773));
    assert!(!names.contains("Make"));
    assert!(!names.contains("Model"));
    assert!(!names.contains("Software"));
    assert!(!names.contains("DateTime"));
}

#[test]
fn write_privacy_preserves_unknown_tags_unless_explicitly_removed() {
    let args = WriteArgs { privacy: true, ..default_write_args() };
    let mode = StripMode::from_write_args(&args)
        .expect("write privacy mode should parse")
        .expect("write privacy should create a strip mode");
    let exif =
        parse_raw_exif(&[tiff_ascii_entry(0x013b, b"A\0"), tiff_short_entry(0xfde8, 42)]);

    let planned = strip_removal_targets(&exif.fields, &mode, true);
    let tag_ids = planned.targets.iter().map(|target| target.tag_id).collect::<HashSet<_>>();
    let names = planned.targets.into_iter().map(|target| target.name).collect::<HashSet<_>>();

    assert!(planned.warnings.is_empty(), "{:?}", planned.warnings);
    assert!(planned.errors.is_empty(), "{:?}", planned.errors);
    assert!(names.contains("Artist"));
    assert!(!tag_ids.contains(&0xfde8));
}

#[test]
fn write_without_strip_options_has_no_strip_mode() {
    assert!(StripMode::from_write_args(&default_write_args())
        .expect("no strip option is fine")
        .is_none());
}

#[test]
fn selectors_ignore_case_and_separators() {
    assert_eq!(normalized_strip_tag_name("  Date-Time Original_"), "datetimeoriginal");
    let exif = parse_raw_exif(&[tiff_ascii_entry(0x010f, b"N\0")]);
    let mode = StripMode::remove(selectors(&["MAKE"]));
    assert_eq!(mode.removal_decision(&exif.fields[0]), StripRemovalDecision::Explicit);
    assert!(TagSelectorSet::from_values(&vec![" , ".to_string()]).is_err());
}

fn strip_args() -> StripArgs {
    StripArgs {
        targets: None,
        keep: Vec::new(),
        remove: Vec::new(),
        extensions: Vec::new(),
        recursive: false,
        verify: false,
        privacy: false,
        json: false,
    }
}

#[test]
fn strip_command_fails_without_targets_and_with_bad_selectors() {
    match strip_command(&strip_args(), false, &Ok(Vec::new())) {
        Err(CliError::Error(message)) => assert_eq!(message, "no target images matched"),
        _ => panic!("a strip needs a target"),
    }
    match strip_command(&strip_args(), false, &Err("unreadable folder".to_string())) {
        Err(CliError::Error(message)) => assert_eq!(message, "unreadable folder"),
        _ => panic!("a failed search is reported"),
    }
    let bad = StripArgs { remove: vec![" , ".to_string()], ..strip_args() };
    assert!(matches!(
        strip_command(&bad, false, &Ok(vec![path("image.jpg")])),
        Err(CliError::Error(_))
    ));
}

#[test]
fn strip_run_adds_up_its_files() {
    let mut run = strip_command(&strip_args(), true, &Ok(vec![path("a.jpg"), path("b.jpg")]))
        .expect("two targets are enough");
    for name in ["a.jpg", "b.jpg"] {
        let mut file = run.begin_file(path(name));
        file.result.stripped = true;
        file.result.removed_tags = 2;
        run.record(file);
    }
    assert_eq!(run.summary.stripped_files, 2);
    assert_eq!(run.summary.removed_tags, 4);
    assert!(run.outcome().is_ok());

    let mut file = run.begin_file(path("c.jpg"));
    file.result.errors.push("broken".to_string());
    run.record(file);
    assert!(run.outcome().is_err());
}
