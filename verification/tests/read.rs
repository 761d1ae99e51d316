use std::path::PathBuf;

use serde_yaml::Value as YamlValue;

use exifmeta::cli::ReadFormat;
use exifmeta::exif_data::{
    empty_exif, exif_data, interpret_reading, read_exif, ContainerReading, ExifData, TagContext,
};
use exifmeta::file_kind::{detect_file_kind, is_supported_image_file, is_tiff_image};
use exifmeta::glob::{glob_matches, wildcard_match};
use exifmeta::labels::{
    classify_info_label, is_camera_label, is_exposure_label, is_file_label, is_film_label,
    normalized_label, normalized_label_starts_with, title_case_tag_name, PrettyReadGroup,
};
use exifmeta::location::{
    candidate_query, continue_search, nearest_locations, sort_locations_by_distance, GeoLocation,
    NearestStep, LOCATIONS_BY_NAME_QUERY,
};
use exifmeta::path::FilePath;
use exifmeta::payload::{encode_custom_tags, CustomTag};
use exifmeta::read_output::{
    exposure_denominator, format_read_output, pretty_exposure_time, pretty_read_value,
    pretty_unknown_value_omitted_message, FieldFigures, NearestPlaces, ReadMetadata,
};
use exifmeta::rows::{
    decimal_gps_coordinate, file_info, format_known_field_value, format_permissions,
    gps_coordinates, FileFacts, GpsReading, ReadInfoRow, ReadRow,
    PRETTY_KNOWN_VALUE_DISPLAY_LIMIT, PRETTY_UNKNOWN_VALUE_DISPLAY_LIMIT,
};
use exifmeta::text::text_lower;

const OMITTED_LABEL: &str = "<long value omitted>";
const OMITTED_HINT: &str = " (use `--format raw` to view)";

fn tiff_data(
    first: &[[u8; 12]],
    nested: Option<(u16, &[[u8; 12]])>,
    offset_data: &[(u32, Vec<u8>)],
) -> Vec<u8> {
    let mut data = vec![0x4d, 0x4d, 0x00, 0x2a, 0x00, 0x00, 0x00, 0x08];
    let mut entries = first.to_vec();
    if let Some((pointer, _)) = nested {
        entries.push(tiff_long_entry(pointer, 100));
    }
    push_directory(&mut data, &entries, 0);
    if let Some((_, entries)) = nested {
        data.resize(100, 0);
        push_directory(&mut data, entries, 0);
    }
    let mut offset_data = offset_data.to_vec();
    offset_data.sort_by_key(|(offset, _)| *offset);
    for (offset, bytes) in offset_data {
        let offset = offset as usize;
        if data.len() < offset {
            data.resize(offset, 0);
        }
        data.extend_from_slice(&bytes);
    }
    data
}

fn push_directory(data: &mut Vec<u8>, entries: &[[u8; 12]], next: u32) {
    data.extend_from_slice(&(entries.len() as u16).to_be_bytes());
    for entry in entries {
        data.extend_from_slice(entry);
    }
    data.extend_from_slice(&next.to_be_bytes());
}

fn parse_data(data: Vec<u8>) -> ExifData {
    let exif = exif::Reader::new()
        .continue_on_error(true)
        .read_raw(data)
        .or_else(|error| error.distill_partial_result(|_| {}))
        .expect("test EXIF should parse");
    exif_data(&exif)
}

fn parse_raw_exif(entries: &[[u8; 12]]) -> ExifData {
    parse_data(tiff_data(entries, None, &[]))
}

fn tiff_entry(tag: u16, type_id: u16, count: usize) -> [u8; 12] {
    let mut entry = [0; 12];
    entry[0..2].copy_from_slice(&tag.to_be_bytes());
    entry[2..4].copy_from_slice(&type_id.to_be_bytes());
    entry[4..8].copy_from_slice(&(count as u32).to_be_bytes());
    entry
}

fn tiff_ascii_entry(tag: u16, value: &[u8]) -> [u8; 12] {
    let mut entry = tiff_entry(tag, 2, value.len());
    entry[8..(8 + value.len())].copy_from_slice(value);
    entry
}

fn tiff_long_entry(tag: u16, value: u32) -> [u8; 12] {
    let mut entry = tiff_entry(tag, 4, 1);
    entry[8..12].copy_from_slice(&value.to_be_bytes());
    entry
}

fn tiff_short_entry(tag: u16, value: u16) -> [u8; 12] {
    let mut entry = tiff_entry(tag, 3, 1);
    entry[8..10].copy_from_slice(&value.to_be_bytes());
    entry
}

fn tiff_offset_entry(tag: u16, type_id: u16, length: usize, offset: u32) -> [u8; 12] {
    let mut entry = tiff_entry(tag, type_id, length);
    entry[8..12].copy_from_slice(&offset.to_be_bytes());
    entry
}

fn tiff_rational_entry(tag: u16, values: &[(u32, u32)], offset: u32) -> ([u8; 12], Vec<u8>) {
    let mut data = Vec::new();
    for &(numerator, denominator) in values {
        data.extend_from_slice(&numerator.to_be_bytes());
        data.extend_from_slice(&denominator.to_be_bytes());
    }
    (tiff_offset_entry(tag, 5, values.len(), offset), data)
}

fn strip_ansi_codes(value: &str) -> String {
    let mut output = String::new();
    let mut chars = value.chars().peekable();
    while let Some(char) = chars.next() {
        if char == '\u{1b}' && chars.peek() == Some(&'[') {
            chars.next();
            for char in chars.by_ref() {
                if char == 'm' {
                    break;
                }
            }
        } else {
            output.push(char);
        }
    }
    output
}

fn path(text: &str) -> FilePath {
    FilePath::from_path(PathBuf::from(text))
}

fn parse_raw_exif_with_exif_entries(
    entries: &[[u8; 12]],
    offset_data: &[(u32, Vec<u8>)],
) -> ExifData {
    parse_data(tiff_data(&[], Some((0x8769, entries)), offset_data))
}

fn parse_raw_exif_with_gps_entries(
    entries: &[[u8; 12]],
    offset_data: &[(u32, Vec<u8>)],
) -> ExifData {
    parse_data(tiff_data(&[], Some((0x8825, entries)), offset_data))
}

fn parse_raw_exif_with_ifd1(first: &[[u8; 12]], second: &[[u8; 12]]) -> ExifData {
    let mut data = vec![0x4d, 0x4d, 0x00, 0x2a, 0x00, 0x00, 0x00, 0x08];
    push_directory(&mut data, first, 100);
    data.resize(100, 0);
    push_directory(&mut data, second, 0);
    parse_data(data)
}

fn decimal(reading: &GpsReading) -> Option<f64> {
    let value = |(numerator, denominator): (u32, u32)| {
        f64::from(numerator) / f64::from(denominator)
    };
    let decimal =
        value(reading.degrees) + value(reading.minutes) / 60.0 + value(reading.seconds) / 3600.0;
    if !decimal.is_finite() {
        return None;
    }
    Some(if reading.negative { -decimal } else { decimal })
}

fn decimal_text(value: f64) -> String {
    format!("{value:.6}").trim_end_matches('0').trim_end_matches('.').to_string()
}

fn rounded(value: &str) -> Option<String> {
    let denominator = exposure_denominator(value)?.parse::<f64>().ok()?;
    if denominator.is_finite() {
        Some(format!("{:.0}", denominator.round()))
    } else {
        None
    }
}

fn exposure(value: &str) -> Option<String> {
    pretty_exposure_time(value, &rounded(value))
}

fn metadata(exif: ExifData, info: &[(&str, &str)]) -> ReadMetadata {
    let figures = exif
        .fields
        .iter()
        .map(|field| FieldFigures {
            decimal: decimal_gps_coordinate(&exif.fields, field)
                .and_then(|reading| decimal(&reading))
                .map(decimal_text),
            rounded_denominator: rounded(&format_known_field_value(field)),
        })
        .collect();
    ReadMetadata {
        exif,
        figures,
        nearest: None,
        warnings: Vec::new(),
        file_info: info.iter().map(|(name, value)| ReadInfoRow::new(name, value)).collect(),
    }
}

fn place(name: &str, distance: &str, distance_rank: i64) -> GeoLocation {
    GeoLocation {
        name: name.to_string(),
        country_code: "GB".to_string(),
        latitude_bits: distance_rank as u64,
        longitude_bits: 0,
        population: 1000,
        elevation: None,
        distance: distance.to_string(),
        distance_rank,
        within_radius: true,
    }
}

fn test_gps_metadata() -> ReadMetadata {
    let (latitude_entry, latitude_data) =
        tiff_rational_entry(0x0002, &[(52, 1), (21, 1), (101952, 10000)], 200);
    let (longitude_entry, longitude_data) =
        tiff_rational_entry(0x0004, &[(1, 1), (18, 1), (1471968, 100000)], 224);
    let exif = parse_raw_exif_with_gps_entries(
        &[
            tiff_ascii_entry(0x0001, b"N\0"),
            latitude_entry,
            tiff_ascii_entry(0x0003, b"W\0"),
            longitude_entry,
        ],
        &[(200, latitude_data), (224, longitude_data)],
    );
    let mut metadata = metadata(exif, &[]);
    metadata.nearest = Some(NearestPlaces {
        locations: Ok(vec![
            place("Dunchurch", "1.9 km", 1),
            place("Long Lawford", "3.2 km", 2),
            place("Rugby", "4.2 km", 3),
            place("Braunston", "7.4 km", 4),
            place("Wolston", "8 km", 5),
        ]),
        city: Ok(vec![place("Coventry", "15.3 km", 6)]),
    });
    metadata
}

fn test_coventry_gps_metadata() -> ReadMetadata {
    let mut metadata = test_gps_metadata();
    metadata.nearest = Some(NearestPlaces {
        locations: Ok(vec![
            place("Coventry", "0 m", 1),
            place("Foleshill", "2.9 km", 2),
            place("Stoke", "3 km", 3),
            place("Keresley", "4.9 km", 4),
            place("Baginton", "5 km", 5),
        ]),
        city: Ok(vec![place("Coventry", "0 m", 1)]),
    });
    metadata
}

#[test]
fn formats_empty_pretty_read_output() {
    colored::control::set_override(true);

    assert_eq!(
        format_read_output(&metadata(parse_raw_exif(&[]), &[]), ReadFormat::Pretty),
        "\u{1b}[33m<No EXIF metadata found>\u{1b}[0m"
    );
}

#[test]
fn formats_empty_raw_read_output() {
    let metadata = metadata(parse_raw_exif(&[]), &[("File Name", "image.tif")]);

    assert_eq!(format_read_output(&metadata, ReadFormat::Raw), "<No EXIF metadata found>");
}

#[test]
fn formats_raw_read_output_with_unknown_rows_at_the_bottom() {
    let mut metadata = metadata(
        parse_raw_exif(&[
            tiff_ascii_entry(0x010f, b"Z\0"),
            tiff_short_entry(0xfde8, 42),
            tiff_ascii_entry(0x0110, b"E\0"),
        ]),
        &[("File Name", "image.tif")],
    );
    metadata.warnings.push("ignored malformed trailing field".to_string());

    let output = format_read_output(&metadata, ReadFormat::Raw);

    assert!(!output.contains("KNOWN"));
    assert!(!output.contains("UNKNOWN"));
    assert!(output.contains("IFD"));
    assert!(!output.contains("File Name"));
    assert!(output.contains("0x010F"));
    assert!(output.contains("0x0110"));
    assert!(output.contains("0xFDE8"));
    assert!(output.contains("Warnings:"));
    assert!(output.contains("warning: ignored malformed trailing field"));
    assert!(output.find("0x0110").unwrap() < output.find("0xFDE8").unwrap());
}

#[test]
fn formats_pretty_read_output_without_raw_columns() {
    let mut metadata = metadata(
        parse_raw_exif(&[
            tiff_ascii_entry(0x010f, b"Z\0"),
            tiff_short_entry(0xfde8, 42),
            tiff_ascii_entry(0x0110, b"E\0"),
        ]),
        &[("File Name", "image.tif")],
    );
    metadata.warnings.push("ignored malformed trailing field".to_string());

    let output = format_read_output(&metadata, ReadFormat::Pretty);
    let plain_output = strip_ansi_codes(&output);

    assert!(plain_output.contains("file "));
    assert!(plain_output.contains("File Name  image.tif"));
    assert!(plain_output.contains("camera "));
    assert!(plain_output.contains("Make   Z\nModel  E"));
    assert!(!plain_output.contains("unknown "));
    assert!(!plain_output.contains("Unknown Tiff Tag"));
    assert!(!plain_output.contains("tags were omitted for not being human-readable"));
    assert!(output.contains("Warnings:"));
    assert!(output.contains("warning: ignored malformed trailing field"));
    assert!(plain_output.find("file ").unwrap() < plain_output.find("camera ").unwrap());
    assert!(plain_output.find("camera ").unwrap() < plain_output.find("Warnings:").unwrap());
    assert!(!output.contains("IFD"));
    assert!(!output.contains("Tiff  "));
    assert!(!output.contains("0x010F"));
    assert!(!output.contains("0x0110"));
    assert!(!output.contains("0xFDE8"));
}

#[test]
fn pretty_read_output_omits_non_human_readable_tags_without_notice() {
    colored::control::set_override(true);
    let metadata = metadata(
        parse_raw_exif(&[
            tiff_ascii_entry(0x010f, b"Z\0"),
            tiff_long_entry(0x0111, 12345),
            tiff_long_entry(0x0117, 67890),
        ]),
        &[],
    );

    let pretty = format_read_output(&metadata, ReadFormat::Pretty);
    let plain_pretty = strip_ansi_codes(&pretty);
    let raw = strip_ansi_codes(&format_read_output(&metadata, ReadFormat::Raw));

    assert!(plain_pretty.contains("Make  Z"));
    assert!(!plain_pretty.contains("Strip Offsets"));
    assert!(!plain_pretty.contains("Strip Byte Counts"));
    assert!(!plain_pretty.contains("12345"));
    assert!(!plain_pretty.contains("67890"));
    assert!(!plain_pretty.contains("Warnings:"));
    assert!(!plain_pretty.contains("warning:"));
    assert!(!plain_pretty.contains("tags were omitted for not being human-readable"));
    assert!(!pretty.contains("tags were omitted for not being human-readable"));
    assert!(raw.contains("StripOffsets"));
    assert!(raw.contains("StripByteCounts"));
    assert!(raw.contains("Make"));
    assert!(raw.contains("\"Z\""));
    assert!(raw.contains("12345"));
    assert!(raw.contains("67890"));
}

#[test]
fn pretty_read_output_omits_unknown_values() {
    colored::control::set_override(true);
    let long_value = "x".repeat(160);
    let mut raw_value = long_value.clone().into_bytes();
    raw_value.push(0);
    let entry = tiff_offset_entry(0xfde8, 2, raw_value.len(), 200);
    let metadata = metadata(parse_data(tiff_data(&[entry], None, &[(200, raw_value)])), &[]);

    let pretty = format_read_output(&metadata, ReadFormat::Pretty);
    let plain_pretty = strip_ansi_codes(&pretty);
    let raw = strip_ansi_codes(&format_read_output(&metadata, ReadFormat::Raw));
    let omitted_message = format!("{OMITTED_LABEL}{OMITTED_HINT}");

    assert!(!plain_pretty.contains("unknown "));
    assert!(!plain_pretty.contains("Unknown Tiff Tag"));
    assert!(!plain_pretty.contains(&omitted_message));
    assert!(!plain_pretty.contains("tags were omitted for not being human-readable"));
    assert!(!pretty.contains("tags were omitted for not being human-readable"));
    assert!(!plain_pretty.contains(&long_value));
    assert!(raw.contains(&long_value));
    assert!(!raw.contains(&omitted_message));
}

#[test]
fn pretty_read_output_keeps_unknown_values_at_display_limit() {
    let value = "x".repeat(PRETTY_UNKNOWN_VALUE_DISPLAY_LIMIT);
    let row = ReadRow {
        is_unknown: true,
        ifd: 0,
        context: "Tiff".to_string(),
        tag_id: 0xfde8,
        name: "Tag(Tiff, 0xFDE8)".to_string(),
        pretty_name: "Unknown Tiff Tag".to_string(),
        value: value.clone(),
        rounded_denominator: None,
    };

    assert_eq!(pretty_read_value(&row, &pretty_unknown_value_omitted_message()), value);
}

#[test]
fn pretty_read_output_masks_long_known_exif_values() {
    colored::control::set_override(true);
    let long_value = "x".repeat(PRETTY_KNOWN_VALUE_DISPLAY_LIMIT + 1);
    let mut raw_value = b"ASCII\0\0\0".to_vec();
    raw_value.extend_from_slice(long_value.as_bytes());
    let entry = tiff_offset_entry(0x9286, 7, raw_value.len(), 200);
    let metadata =
        metadata(parse_raw_exif_with_exif_entries(&[entry], &[(200, raw_value)]), &[]);

    let pretty = format_read_output(&metadata, ReadFormat::Pretty);
    let plain_pretty = strip_ansi_codes(&pretty);
    let raw = strip_ansi_codes(&format_read_output(&metadata, ReadFormat::Raw));
    let omitted_message = format!("{OMITTED_LABEL}{OMITTED_HINT}");

    assert!(plain_pretty.contains("User Comment"));
    assert!(plain_pretty.contains(&omitted_message));
    assert!(pretty.contains(&format!("\u{1b}[33m{OMITTED_LABEL}\u{1b}[0m{OMITTED_HINT}")));
    assert!(!plain_pretty.contains(&long_value));
    assert!(raw.contains(&long_value));
    assert!(!raw.contains(&omitted_message));
}

#[test]
fn pretty_read_output_keeps_known_exif_values_at_display_limit() {
    let value = "x".repeat(PRETTY_KNOWN_VALUE_DISPLAY_LIMIT);
    let row = ReadRow {
        is_unknown: false,
        ifd: 0,
        context: "Exif".to_string(),
        tag_id: 0x9286,
        name: "UserComment".to_string(),
        pretty_name: "User Comment".to_string(),
        value: value.clone(),
        rounded_denominator: None,
    };

    assert_eq!(pretty_read_value(&row, &pretty_unknown_value_omitted_message()), value);
}

#[test]
fn pretty_read_output_omits_empty_groups() {
    let metadata = metadata(parse_raw_exif(&[tiff_ascii_entry(0x010f, b"Z\0")]), &[]);

    let output = format_read_output(&metadata, ReadFormat::Pretty);
    let plain_output = strip_ansi_codes(&output);

    assert!(plain_output.starts_with("camera "));
    assert!(!plain_output.contains("file "));
    assert!(!plain_output.contains("film "));
    assert!(!plain_output.contains("exposure "));
    assert!(!plain_output.contains("gps "));
    assert!(!plain_output.contains("misc "));
    assert!(!plain_output.contains("unknown "));
}

#[test]
fn pretty_read_group_heading_uses_check_style_blue_rule() {
    colored::control::set_override(true);
    let metadata = metadata(parse_raw_exif(&[tiff_ascii_entry(0x010f, b"Z\0")]), &[]);

    let output = format_read_output(&metadata, ReadFormat::Pretty);
    let expected = format!("\u{1b}[94mcamera {}\u{1b}[0m", "─".repeat(43));

    assert_eq!(output.lines().next(), Some(expected.as_str()));
}

#[test]
fn classifies_extra_file_info_rows_as_file() {
    for name in [
        "File Access Date/Time",
        "fileaccessdate/time",
        "File Creation Date/Time",
        "File Permissions",
        "File Type",
        "File Type Extension",
        "file type extension",
        "MIME Type",
        "MIMEType",
    ] {
        assert_eq!(classify_info_label(name), PrettyReadGroup::File);
    }
}

#[test]
fn classifies_extra_camera_and_exposure_labels() {
    for label in [
        "FocalLengthIn35mmFilm",
        "Focal Length In 35mm Film",
        "focal length in 35mm film",
        "focallengthin35mmfilm",
    ] {
        assert!(is_camera_label(label));
    }

    for label in [
        "ExposureMode",
        "Exposure Mode",
        "exposure mode",
        "ExposureProgram",
        "Exposure Program",
        "exposureprogram",
        "PhotographicSensitivity",
        "Photographic Sensitivity",
        "SensitivityType",
        "Sensitivity Type",
        "sensitivity type",
    ] {
        assert!(is_exposure_label(label));
    }
}

#[test]
fn normalized_label_classifiers_ignore_spacing_and_case() {
    assert!(is_file_label("file type"));
    assert!(!is_file_label("File Source"));
    assert!(is_camera_label("lens model"));
    assert!(is_camera_label("CAMERA SERIAL NUMBER"));
    assert!(is_film_label("Analogue Data Film Name"));
    assert!(is_film_label("analoguedatafilmname"));
    assert!(is_exposure_label("shutter speed value"));
    assert!(normalized_label_starts_with("G P S Latitude", "gps"));
}

#[test]
fn pretty_read_output_deduplicates_identical_ifd_0_and_1_rows_only() {
    let metadata = metadata(
        parse_raw_exif_with_ifd1(
            &[tiff_ascii_entry(0x010f, b"A\0")],
            &[tiff_ascii_entry(0x010f, b"A\0"), tiff_ascii_entry(0x0110, b"B\0")],
        ),
        &[],
    );

    let output = format_read_output(&metadata, ReadFormat::Pretty);

    assert_eq!(output.matches("Make").count(), 1);
    assert_eq!(output.matches("A").count(), 1);
    assert!(output.contains("Model  B"));
}

#[test]
fn pretty_read_output_keeps_ifd_0_and_1_rows_with_different_values() {
    let metadata = metadata(
        parse_raw_exif_with_ifd1(
            &[tiff_ascii_entry(0x010f, b"A\0")],
            &[tiff_ascii_entry(0x010f, b"B\0")],
        ),
        &[],
    );

    let output = format_read_output(&metadata, ReadFormat::Pretty);

    assert_eq!(output.matches("Make").count(), 2);
    assert!(output.contains("Make  A"));
    assert!(output.contains("Make  B"));
}

#[test]
fn pretty_read_output_omits_photographic_sensitivity_duplicate_of_iso_speed() {
    let metadata = metadata(
        parse_raw_exif_with_exif_entries(
            &[tiff_short_entry(0x8827, 400), tiff_long_entry(0x8833, 400)],
            &[],
        ),
        &[],
    );

    let pretty = strip_ansi_codes(&format_read_output(&metadata, ReadFormat::Pretty));
    let raw = strip_ansi_codes(&format_read_output(&metadata, ReadFormat::Raw));

    assert!(pretty.contains("ISO Speed"));
    assert!(!pretty.contains("Photographic Sensitivity"));
    assert!(raw.contains("PhotographicSensitivity"));
    assert!(raw.contains("ISOSpeed"));
}

#[test]
fn pretty_read_output_keeps_photographic_sensitivity_when_iso_speed_differs() {
    let metadata = metadata(
        parse_raw_exif_with_exif_entries(
            &[tiff_short_entry(0x8827, 400), tiff_long_entry(0x8833, 800)],
            &[],
        ),
        &[],
    );

    let pretty = strip_ansi_codes(&format_read_output(&metadata, ReadFormat::Pretty));

    assert!(pretty.contains("Photographic Sensitivity  400"));
    assert!(pretty.contains("ISO Speed                 800"));
}

#[test]
fn pretty_read_output_keeps_photographic_sensitivity_without_iso_speed() {
    let metadata = metadata(
        parse_raw_exif_with_exif_entries(&[tiff_short_entry(0x8827, 400)], &[]),
        &[],
    );

    let pretty = strip_ansi_codes(&format_read_output(&metadata, ReadFormat::Pretty));

    assert!(pretty.contains("Photographic Sensitivity  400"));
}

#[test]
fn de_camelcases_tag_names_for_pretty_output() {
    assert_eq!(title_case_tag_name("GPSLatitude"), "GPS Latitude");
    assert_eq!(title_case_tag_name("DateTimeOriginal"), "Date Time Original");
    assert_eq!(title_case_tag_name("FocalLengthIn35mmFilm"), "Focal Length In 35mm Film");
}

#[test]
fn formats_exposure_time_for_pretty_output() {
    assert_eq!(exposure("1/1439.2133835330962 s"), Some("1/1439".to_string()));
    assert_eq!(exposure("1/1439.2133835330962"), Some("1/1439".to_string()));
    assert_eq!(exposure("1/500 s"), Some("1/500".to_string()));
    assert_eq!(exposure("0.5 s"), None);
}

#[test]
fn raw_output_omits_exposure_time_unit() {
    let (exposure_entry, exposure_data) = tiff_rational_entry(0x829a, &[(1, 1439)], 200);
    let metadata = metadata(
        parse_raw_exif_with_exif_entries(&[exposure_entry], &[(200, exposure_data)]),
        &[],
    );

    let output = format_read_output(&metadata, ReadFormat::Raw);

    assert!(output.contains("ExposureTime"));
    assert!(output.contains("1/1439"));
    assert!(!output.contains("1/1439 s"));
}

#[test]
fn pretty_output_rounds_exposure_time_reciprocal_denominator() {
    let (exposure_entry, exposure_data) =
        tiff_rational_entry(0x829a, &[(10_000, 14_392_134)], 200);
    let metadata = metadata(
        parse_raw_exif_with_exif_entries(&[exposure_entry], &[(200, exposure_data)]),
        &[],
    );

    let output = format_read_output(&metadata, ReadFormat::Pretty);

    assert!(output.contains("Exposure Time"));
    assert!(output.contains("1/1439"));
    assert!(!output.contains("1/1439.2134"));
    assert!(!output.contains("1/1439 s"));
}

#[test]
fn reads_unknown_tags_without_failing() {
    let exif = parse_raw_exif(&[tiff_short_entry(0xfde8, 42)]);

    assert_eq!(exif.fields.len(), 1);
    assert_eq!(exif.fields[0].context, TagContext::Tiff);
    assert_eq!(exif.fields[0].number, 0xfde8);
    assert!(!exif.fields[0].is_described);
}

#[test]
fn read_decodes_custom_tags_from_user_comment() {
    colored::control::set_override(true);
    let payload = encode_custom_tags(&vec![
        CustomTag { name: "FilmRoll".to_string(), value: YamlValue::Number(35.into()) },
        CustomTag {
            name: "FilmName".to_string(),
            value: YamlValue::String("Kodak Double-X".to_string()),
        },
    ])
    .expect("custom tags should encode");
    let entry = tiff_offset_entry(0x9286, 7, payload.len(), 200);
    let metadata = metadata(
        parse_raw_exif_with_exif_entries(&[entry], &[(200, payload)]),
        &[("Image Width", "100 px")],
    );

    let pretty = strip_ansi_codes(&format_read_output(&metadata, ReadFormat::Pretty));
    let raw = strip_ansi_codes(&format_read_output(&metadata, ReadFormat::Raw));

    assert!(pretty.contains("custom "));
    assert!(pretty.contains("Film Roll  35"));
    assert!(pretty.contains("Film Name  Kodak Double-X"));
    assert!(pretty.contains("misc "));
    assert!(pretty.contains("Image Width  100 px"));
    assert!(pretty.find("custom ").unwrap() < pretty.find("misc ").unwrap());
    assert!(!pretty.contains("User Comment"));
    assert!(raw.contains("0x9286"));
    assert!(raw.contains("UserComment"));
    assert!(raw.contains("exifmeta-v0.1.0"));
    assert!(raw.contains("FilmRoll"));
    assert!(raw.contains("Kodak Double-X"));
    assert!(!raw.contains("IFD exifmeta  Custom  0x0000"));
}

#[test]
fn file_info_reports_file_and_exif_metadata() {
    let image = path("folder/file-info.jpg");
    let facts = FileFacts {
        size: 3,
        modified: Some("2026-05-22 10:00:00".to_string()),
        accessed: None,
        created: None,
        permissions: format_permissions(0o100644, false),
    };
    let kind = detect_file_kind(&image, &Some(vec![0xff, 0xd8, 0xff]));
    let rows = file_info(&image, &facts, &kind, false);
    let value = |name: &str| {
        rows.iter().find(|row| row.name == name).map(|row| row.value.as_str())
    };

    assert!(value("Exifmeta Version Number").is_none());
    assert_eq!(value("File Name"), Some("file-info.jpg"));
    assert_eq!(value("Directory"), Some("folder"));
    assert_eq!(value("File Size"), Some("3 bytes"));
    assert_eq!(value("File Permissions"), Some("-rw-r--r--"));
    assert_eq!(value("File Type"), Some("JPEG"));
    assert_eq!(value("File Type Extension"), Some("jpg"));
    assert_eq!(value("MIME Type"), Some("image/jpeg"));
    assert_eq!(value("Exif Byte Order"), Some("Big-endian (Motorola, MM)"));
}

#[test]
fn file_kinds_follow_signatures_before_extensions() {
    let tiff = Some(vec![0x49, 0x49, 0x2a, 0x00]);
    assert!(is_tiff_image(&path("a.jpg"), &tiff));
    assert!(is_supported_image_file(&path("a.txt"), &None) == false);
    assert!(is_supported_image_file(&path("a.WEBP"), &None));
    assert_eq!(detect_file_kind(&path("a.bin"), &None).extension, "bin");
}

#[test]
fn appends_signed_decimal_gps_coordinates() {
    let metadata = test_gps_metadata();

    let output = format_read_output(&metadata, ReadFormat::Pretty);
    let plain_output = strip_ansi_codes(&output);

    assert!(output.contains("GPS Latitude"));
    assert!(output.contains("(52.352832) 52 deg 21 min 10.1952 sec N"));
    assert!(output.contains("GPS Longitude"));
    assert!(output.contains("(-1.304089) 1 deg 18 min 14.71968 sec W"));
    assert!(!output.contains("GPS Latitude Ref"));
    assert!(!output.contains("GPS Longitude Ref"));
    assert!(!plain_output.contains("tags were omitted for not being human-readable"));
}

#[test]
fn extracts_signed_gps_coordinates() {
    let metadata = test_gps_metadata();

    let (latitude, longitude) =
        gps_coordinates(&metadata.exif.fields).expect("GPS coordinates should be extracted");
    let latitude = decimal(&latitude).expect("latitude should be finite");
    let longitude = decimal(&longitude).expect("longitude should be finite");
    assert!((latitude - 52.352832).abs() < 0.000001);
    assert!((longitude + 1.3040888).abs() < 0.000001);
}

#[test]
fn pretty_read_output_appends_nearest_locations() {
    colored::control::set_override(true);
    let metadata = test_gps_metadata();

    let output = format_read_output(&metadata, ReadFormat::Pretty);
    let plain_output = strip_ansi_codes(&output);

    assert!(plain_output.contains("gps "));
    assert_eq!(plain_output.matches("GPS Nearest Location").count(), 5);
    assert_eq!(plain_output.matches("GPS Nearest City").count(), 1);
    assert_eq!(plain_output.matches("GPS Nearest Large City").count(), 0);
    assert!(plain_output.contains("GPS Nearest Location 1  (1.9 km) Dunchurch, GB"));
    assert!(plain_output.contains("GPS Nearest Location 2  (3.2 km) Long Lawford, GB"));
    assert!(plain_output.contains("GPS Nearest City        (15.3 km) Coventry, GB"));
    assert!(
        plain_output
            .find("GPS Nearest Location 5")
            .expect("nearest location rows should be present")
            < plain_output
                .find("GPS Nearest City")
                .expect("nearest city rows should be present")
    );
    assert!(output.contains("\u{1b}[32mGPS Nearest Location 1\u{1b}[0m"));
    assert!(output.contains("\u{1b}[32mGPS Nearest City\u{1b}[0m"));
    assert!(!output.contains("\u{1b}[32mGPS Nearest Large City\u{1b}[0m"));
}

#[test]
fn pretty_read_output_omits_nearest_city_when_it_duplicates_nearest_location() {
    let metadata = test_coventry_gps_metadata();

    let output = format_read_output(&metadata, ReadFormat::Pretty);
    let plain_output = strip_ansi_codes(&output);

    assert_eq!(plain_output.matches("GPS Nearest Location").count(), 5);
    assert_eq!(plain_output.matches("GPS Nearest City").count(), 0);
    assert_eq!(plain_output.matches("Coventry, GB").count(), 1);
    assert!(plain_output.contains("GPS Nearest Location 1  (0 m) Coventry, GB"));
}

#[test]
fn raw_read_output_omits_nearest_locations() {
    let metadata = test_gps_metadata();

    let output = format_read_output(&metadata, ReadFormat::Raw);

    assert!(output.contains("GPSLatitude"));
    assert!(output.contains("GPSLatitudeRef"));
    assert!(output.contains("GPSLongitudeRef"));
    assert!(!output.contains("GPS Nearest Location"));
    assert!(!output.contains("GPS Nearest City"));
    assert!(!output.contains("GPS Nearest Large City"));
    assert!(!output.contains("Dunchurch"));
    assert!(!output.contains("Coventry"));
}

#[test]
fn appends_unsigned_decimal_gps_coordinate_when_ref_is_missing() {
    let (latitude_entry, latitude_data) =
        tiff_rational_entry(0x0002, &[(10, 1), (30, 1), (0, 1)], 200);
    let metadata = metadata(
        parse_raw_exif_with_gps_entries(&[latitude_entry], &[(200, latitude_data)]),
        &[],
    );

    let output = format_read_output(&metadata, ReadFormat::Pretty);

    assert!(output.contains("GPS Latitude"));
    assert!(output.contains("[GPSLatitudeRef missing]"));
    assert!(output.contains("(10.5) 10 deg 30 min 0 sec [GPSLatitudeRef missing]"));
    assert!(!output.contains("GPS Nearest Location"));
}

#[test]
fn nearest_places_are_searched_in_growing_circles() {
    assert!(matches!(nearest_locations(0), NearestStep::Found(places) if places.is_empty()));
    assert!(matches!(nearest_locations(2), NearestStep::Search(25)));

    let far = GeoLocation { within_radius: false, ..place("Far", "30 km", 30) };
    assert!(matches!(
        continue_search(25, 2, vec![place("Near", "1 km", 1), far]),
        NearestStep::Search(50)
    ));
    match continue_search(
        50,
        2,
        vec![place("C", "3 km", 3), place("A", "1 km", 1), place("B", "2 km", 2)],
    ) {
        NearestStep::Found(places) => {
            let names = places.iter().map(|place| place.name.as_str()).collect::<Vec<_>>();
            assert_eq!(names, ["A", "B"]);
        }
        NearestStep::Search(_) => panic!("two places are near enough"),
    }
}

#[test]
fn places_are_sorted_by_distance() {
    let sorted = sort_locations_by_distance(vec![
        place("B", "2 km", 2),
        place("C", "1 km", 1),
        place("A", "1 km", 1),
    ]);
    let names = sorted.iter().map(|place| place.name.as_str()).collect::<Vec<_>>();
    assert_eq!(names, ["A", "C", "B"]);
}

fn test_geonames_connection(rows: &str) -> rusqlite::Connection {
    let connection =
        rusqlite::Connection::open_in_memory().expect("test database should open");
    connection
        .execute_batch(&format!(
            "
            CREATE TABLE locations (
                geoname_id INTEGER NOT NULL,
                name TEXT NOT NULL,
                country_code TEXT NOT NULL,
                latitude REAL NOT NULL,
                longitude REAL NOT NULL,
                population INTEGER NOT NULL,
                elevation INTEGER
            );
            INSERT INTO locations VALUES {rows};
            "
        ))
        .expect("test locations should be inserted");
    connection
}

const NAMED_PLACES: &str = "
    (1, 'London', 'GB', 51.50853, -0.12574, 8961989, 25),
    (2, 'London', 'CA', 42.98339, -81.23304, 383822, 251),
    (3, 'Paris', 'FR', 48.85341, 2.3488, 2138551, 42)";

fn locations_by_name(name: &str) -> Vec<(String, String, f64, f64)> {
    let connection = test_geonames_connection(NAMED_PLACES);
    let mut statement =
        connection.prepare(LOCATIONS_BY_NAME_QUERY).expect("the query should be valid");
    let rows = statement
        .query_map([name], |row| Ok((row.get(0)?, row.get(1)?, row.get(2)?, row.get(3)?)))
        .expect("location lookup should succeed");
    rows.collect::<Result<Vec<_>, _>>().expect("location rows should be readable")
}

#[test]
fn locations_by_name_matches_case_insensitively() {
    let locations = locations_by_name("london");

    assert_eq!(locations.len(), 2);
    assert_eq!(
        locations[0],
        ("London".to_string(), "GB".to_string(), 51.50853, -0.12574)
    );
}

#[test]
fn locations_by_name_sorts_matches_by_population_descending() {
    let locations = locations_by_name("London");
    let countries = locations.iter().map(|location| location.1.as_str()).collect::<Vec<_>>();

    assert_eq!(countries, ["GB", "CA"]);
}

#[test]
fn locations_by_name_returns_empty_list_when_no_match_exists() {
    assert!(locations_by_name("Nowhere").is_empty());
}

#[test]
fn candidate_locations_filters_by_strict_minimum_population() {
    let connection = test_geonames_connection(
        "
        (1, 'Small Place', 'AA', 0.0, 0.0, 199999, NULL),
        (2, 'Equal Place', 'AA', 0.0, 0.1, 200000, NULL),
        (3, 'City', 'AA', 0.0, 0.2, 200001, NULL),
        (4, 'Larger City', 'AA', 0.0, 0.3, 300000, NULL)",
    );
    let mut statement = connection
        .prepare(&candidate_query(false, true))
        .expect("the query should be valid");
    let rows = statement
        .query_map((-0.5, 0.5, -0.5, 0.5, 200_000), |row| {
            Ok((row.get::<_, String>(0)?, row.get::<_, i64>(4)?))
        })
        .expect("population-filtered query should succeed");
    let locations = rows.collect::<Result<Vec<_>, _>>().expect("rows should be readable");

    let names = locations.iter().map(|location| location.0.as_str()).collect::<Vec<_>>();
    assert_eq!(names, ["City", "Larger City"]);
    assert!(locations.iter().all(|location| location.1 > 200_000));
}

#[test]
fn candidates_are_found_across_the_date_line() {
    let connection = test_geonames_connection(
        "
        (1, 'West', 'AA', 0.0, 179.9, 1, NULL),
        (2, 'East', 'AA', 0.0, -179.9, 1, NULL),
        (3, 'Middle', 'AA', 0.0, 0.0, 1, NULL)",
    );
    let mut statement = connection
        .prepare(&candidate_query(true, false))
        .expect("the query should be valid");
    let rows = statement
        .query_map((-0.5, 0.5, 179.5, -179.5), |row| row.get::<_, String>(0))
        .expect("query should succeed");
    let names = rows.collect::<Result<Vec<_>, _>>().expect("rows should be readable");
    assert_eq!(names, ["West", "East"]);
}

#[test]
fn reads_jpeg_without_exif_as_empty_metadata() {
    colored::control::set_override(true);

    let (exif, warnings) = read_exif("image.jpg", &vec![0xff, 0xd8, 0xff, 0xd9])
        .expect("missing EXIF should not fail read");
    assert!(warnings.is_empty());
    let metadata = metadata(exif, &[]);

    assert_eq!(
        format_read_output(&metadata, ReadFormat::Pretty),
        "\u{1b}[33m<No EXIF metadata found>\u{1b}[0m"
    );
    assert_eq!(format_read_output(&metadata, ReadFormat::Raw), "<No EXIF metadata found>");
}

#[test]
fn empty_readings_are_what_an_empty_directory_reads_as() {
    let parsed = parse_data(vec![
        0x4d, 0x4d, 0x00, 0x2a, 0x00, 0x00, 0x00, 0x08, 0x00, 0x00, 0x00, 0x00, 0x00, 0x00,
    ]);
    let empty = empty_exif();
    assert_eq!(empty.fields.len(), parsed.fields.len());
    assert_eq!(empty.little_endian, parsed.little_endian);
}

#[test]
fn unreadable_images_are_errors() {
    assert!(read_exif("image.jpg", &b"not an image".to_vec()).is_err());
    assert!(matches!(
        interpret_reading("image.jpg", ContainerReading::Failed("broken".to_string())),
        Err(message) if message == "failed to read EXIF metadata from image.jpg: broken"
    ));
    assert!(interpret_reading("image.jpg", ContainerReading::NotFound).is_ok());
}

#[test]
fn fields_are_read_as_they_stand() {
    let exif = parse_raw_exif(&[tiff_ascii_entry(0x010f, b"Z\0")]);
    let field = &exif.fields[0];
    assert_eq!(field.name, "Make");
    assert_eq!(field.context_name, "Tiff");
    assert_eq!(field.number, 0x010f);
    assert_eq!(field.ifd, 0);
    assert_eq!(field.shown, "\"Z\"");
    assert!(field.is_described);
    assert!(!exif.little_endian);
}

#[test]
fn stars_match_within_and_across_folders() {
    assert!(wildcard_match(b"a*c?", b"abbcd"));
    assert!(!wildcard_match(b"a*c?", b"abbc"));
    assert!(glob_matches("**/*.jpg", "a/b/c.jpg"));
    assert!(glob_matches("**", "a/b"));
    assert!(!glob_matches("*.jpg", "a/b.jpg"));
    assert!(glob_matches("a/b.jpg", "a/b.jpg"));
}

#[test]
fn labels_are_lowered_beyond_ascii() {
    assert_eq!(normalized_label("Caf\u{c9} Name"), "caf\u{e9}name");
    assert_eq!(text_lower("Caf\u{c9}"), "caf\u{c9}");
}
