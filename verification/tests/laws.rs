use std::path::PathBuf;

use serde_yaml::Value as YamlValue;

use exifmeta::check::{check_metadata_file, FrameSurroundings};
use exifmeta::check_output::parse_metadata;
use exifmeta::cli::Cli;
use exifmeta::exif_data::{exif_data, ExifData};
use exifmeta::glob::{glob_matches, wildcard_match};
use exifmeta::order::{stable_sort, Ranking};
use exifmeta::path::{ByFileName, FilePath};
use exifmeta::plan::{build_write_plan, FrameFile};
use exifmeta::strip::{strip_removal_targets, StripMode, TagSelectorSet};
use exifmeta::strip_run::{strip_metadata_from_image, verify_strip_result, StripNext};
use exifmeta::tags::{check_tag_mapping, merge_tag_counts};
use exifmeta::text::{
    decimal_text, hex4_text, text_pad_right, text_replace, text_split, text_split_once, text_words,
};
use exifmeta::write_run::{tags_applied, WriteFileResult};
use exifmeta::yaml::{as_mapping, yaml_quoted_string};

fn path(text: &str) -> FilePath {
    FilePath::from_path(PathBuf::from(text))
}

fn entries(document: &str) -> Vec<(YamlValue, YamlValue)> {
    let document = parse_metadata(document).expect("test YAML should parse");
    as_mapping(&document).expect("test YAML should be a mapping")
}

/// The attributes of a big-endian TIFF file with entries of one short each.
fn shorts(entries: &[(u16, u16)]) -> ExifData {
    let mut data = vec![0x4d, 0x4d, 0x00, 0x2a, 0x00, 0x00, 0x00, 0x08];
    data.extend_from_slice(&(entries.len() as u16).to_be_bytes());
    for (tag, value) in entries {
        data.extend_from_slice(&tag.to_be_bytes());
        data.extend_from_slice(&[0, 3, 0, 0, 0, 1]);
        data.extend_from_slice(&value.to_be_bytes());
        data.extend_from_slice(&[0, 0]);
    }
    data.extend_from_slice(&[0, 0, 0, 0]);
    let exif = exif::Reader::new().read_raw(data).expect("test EXIF should parse");
    exif_data(&exif)
}

fn selectors(names: &str) -> TagSelectorSet {
    TagSelectorSet::from_values(&vec![names.to_string()]).expect("selector should parse")
}

#[test]
fn sorting_is_stable() {
    let sorted = stable_sort::<FilePath, ByFileName>(vec![
        path("2/b.jpg"),
        path("1/B.jpg"),
        path("3/a.jpg"),
        path("0/b.jpg"),
    ]);
    let texts = sorted.iter().map(|path| path.text.as_str()).collect::<Vec<_>>();
    assert_eq!(texts, ["3/a.jpg", "2/b.jpg", "1/B.jpg", "0/b.jpg"]);
    assert!(ByFileName::is_before(&path("a.jpg"), &path("B.jpg")));
}

#[test]
fn every_tag_is_counted_and_unknown_names_once() {
    let mut counts = check_tag_mapping(&entries("Make: a\nRoll: b\nFilm: c\n"), "exif")
        .expect("the keys are texts");
    assert_eq!(counts.standard, 1);
    assert_eq!(counts.unknown, 2);
    let more = check_tag_mapping(&entries("Roll: d\nModel: e\n"), "frames")
        .expect("the keys are texts");
    merge_tag_counts(&mut counts, &more);
    assert_eq!(counts.standard, 2);
    assert_eq!(counts.unknown, 3);
    assert_eq!(counts.unknown_names, ["Roll", "Film"]);
    assert!(check_tag_mapping(&entries("1: a\n"), "exif").is_err());
}

#[test]
fn letters_match_in_any_case_and_stars_stay_within_components() {
    assert!(wildcard_match(b"IMG.jpg", b"img.JPG"));
    assert!(!wildcard_match(b"img.jpg", b"img.jpeg"));
    assert!(!glob_matches("*", "a/b"));
    assert!(glob_matches("a/**", "a"));
    assert!(glob_matches("a/**/b", "a/c/d/b"));
}

#[test]
fn a_dry_run_foretells_the_strip() {
    let reading = Ok(shorts(&[(0x0112, 1), (0x0128, 2)]));
    let mode = StripMode::remove(selectors("Orientation"));
    let (planned, next) = strip_metadata_from_image(&reading, &mode, false, true, true);
    assert!(matches!(next, StripNext::Done));
    assert!(planned.stripped);
    let (started, next) = strip_metadata_from_image(&reading, &mode, false, false, true);
    assert_eq!(planned.removed_tags, started.removed_tags);
    match next {
        StripNext::RemoveTags(targets) => {
            assert_eq!(targets.len(), 1);
            assert_eq!(targets[0].tag_id, 0x0112);
        }
        _ => panic!("one tag is to be removed"),
    }
}

#[test]
fn errors_stop_a_strip() {
    let reading = Ok(shorts(&[(0x0100, 640)]));
    let mode = StripMode::remove(selectors("ImageWidth"));
    let (result, next) = strip_metadata_from_image(&reading, &mode, true, false, false);
    assert_eq!(result.errors.len(), 1);
    assert!(matches!(next, StripNext::Done));
}

#[test]
fn structure_stays_and_targets_are_distinct() {
    let exif = shorts(&[(0x0100, 640), (0x0112, 1), (0x8827, 400)]);
    let all = strip_removal_targets(&exif.fields, &StripMode::all(), true);
    assert!(all.targets.iter().all(|target| target.tag_id != 0x0100));
    let outside_tiff = strip_removal_targets(&exif.fields, &StripMode::all(), false);
    assert!(outside_tiff.targets.iter().any(|target| target.tag_id == 0x0100));
    for (i, target) in outside_tiff.targets.iter().enumerate() {
        let others = &outside_tiff.targets[..i];
        assert!(others
            .iter()
            .all(|other| other.tag_id != target.tag_id || other.group != target.group));
    }
}

#[test]
fn what_remains_fails_the_verification() {
    let exif = shorts(&[(0x0112, 1)]);
    assert_eq!(
        verify_strip_result(&Ok(exif), &StripMode::remove(selectors("Orientation")), false),
        Err("EXIF tags remain: Orientation".to_string())
    );
    assert!(verify_strip_result(&Ok(shorts(&[])), &StripMode::all(), false).is_ok());
    assert_eq!(
        verify_strip_result(&Err("gone".to_string()), &StripMode::all(), false),
        Err("gone".to_string())
    );
}

#[test]
fn checked_files_can_be_planned() {
    let yaml = parse_metadata("exif:\n  Make: a\nframes:\n  1:\n    - Model: b\n  2: {}\n")
        .expect("test YAML should parse");
    let surroundings = FrameSurroundings {
        images: Ok(vec![path("a.jpg"), path("b.jpg")]),
        geonames: Ok(Vec::new()),
        existing_files: Vec::new(),
    };
    assert!(check_metadata_file(&yaml, &surroundings).is_ok());
    let files: Vec<FrameFile> = Vec::new();
    assert!(build_write_plan(&yaml, &files, &vec![path("a.jpg"), path("b.jpg")]).is_ok());

    let bad = parse_metadata("frames:\n  1: text\n").expect("test YAML should parse");
    assert!(check_metadata_file(&bad, &surroundings).is_err());
    assert!(build_write_plan(&bad, &files, &vec![path("a.jpg")]).is_err());
    assert!(build_write_plan(&bad, &files, &Vec::new()).is_ok());
}

#[test]
fn texts_are_taken_apart_and_put_together() {
    assert_eq!(text_split("a,,b", ','), ["a", "", "b"]);
    assert_eq!(text_words("  a \t b\n"), ["a", "b"]);
    assert_eq!(text_split_once("1/2/3", '/'), Some(("1", "2/3")));
    assert_eq!(text_split_once("1", '/'), None);
    assert_eq!(text_replace("aXbXX", "X", "--"), "a--b----");
    assert_eq!(text_pad_right("ab", 4), "ab  ");
    assert_eq!(text_pad_right("abcde", 4), "abcde");
    assert_eq!(decimal_text(0), "0");
    assert_eq!(decimal_text(u128::MAX), format!("{}", u128::MAX));
    assert_eq!(hex4_text(0xfde8), "FDE8");
    assert_eq!(hex4_text(0x1), "0001");
    assert_eq!(yaml_quoted_string("a\"b\n"), "\"a\\\"b\\n\"");
}

#[test]
fn dry_runs_stay_dry_for_every_command() {
    for line in [
        vec!["exifmeta", "--dry-run", "new"],
        vec!["exifmeta", "--dry-run", "check"],
        vec!["exifmeta", "--dry-run", "read", "a.jpg"],
        vec!["exifmeta", "--dry-run", "write"],
        vec!["exifmeta", "--dry-run", "strip"],
        vec!["exifmeta", "--dry-run", "interactive"],
    ] {
        let line = line.iter().map(|word| word.to_string()).collect();
        let cli = Cli::try_parse_from(line).expect("the line should be read");
        assert!(exifmeta::commands::write(cli).dry_run);
    }
    let (result, write_file) = tags_applied(WriteFileResult::default(), 2, true);
    assert_eq!(result.written, 2);
    assert!(!write_file);
    assert!(tags_applied(WriteFileResult::default(), 2, false).1);
}
