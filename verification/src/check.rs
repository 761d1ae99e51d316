//! Checking a metadata file: its structure, its tags, and the files and places
//! that its frames refer to.

use crate::path::{FilePath, PathView};
use crate::tags::{
    check_tag_mapping, counts_of, merge_tag_counts, no_counts, tag_names, tag_warning_texts,
    tag_warnings, Counts, TagCounts,
};
use crate::text::{append_texts, decimal, decimal_text, list_contains, same, text_trim, texts, trim};
use crate::yaml::{
    as_mapping, as_text, entries_contents, entry_of, frame_number, frame_number_from_key,
    items_contents, key_label, mapping_of, text_of, yaml_contents, yaml_key_label, yaml_mapping_get,
    yaml_shape, Yaml, YamlShape,
};
use serde_yaml::Value;
use vstd::prelude::*;

verus! {

/// A place that a name was found to stand for. The coordinates are decimal
/// degrees as they are shown.
#[derive(Debug, PartialEq, Eq)]
pub struct LocationMatch {
    pub name: String,
    pub country_code: String,
    pub latitude: String,
    pub longitude: String,
}

/// What a match says.
pub struct MatchView {
    pub name: Seq<char>,
    pub country_code: Seq<char>,
    pub latitude: Seq<char>,
    pub longitude: Seq<char>,
}

impl View for LocationMatch {
    type V = MatchView;

    open spec fn view(&self) -> MatchView {
        MatchView {
            name: self.name@,
            country_code: self.country_code@,
            latitude: self.latitude@,
            longitude: self.longitude@,
        }
    }
}

impl LocationMatch {
    /// A copy of the match.
    pub fn duplicate(&self) -> (r: LocationMatch)
        ensures
            r@ == self@,
    {
        LocationMatch {
            name: self.name.clone(),
            country_code: self.country_code.clone(),
            latitude: self.latitude.clone(),
            longitude: self.longitude.clone(),
        }
    }
}

pub open spec fn match_views(matches: Seq<LocationMatch>) -> Seq<MatchView> {
    matches.map_values(|m: LocationMatch| m@)
}

fn append_matches(list: &mut Vec<LocationMatch>, more: &Vec<LocationMatch>)
    ensures
        match_views(final(list)@) == match_views(old(list)@) + match_views(more@),
{
    let ghost before = match_views(list@);
    let mut i: usize = 0;
    proof {
        assert(match_views(more@).take(0) =~= Seq::empty());
        assert(before + Seq::empty() =~= before);
    }
    while i < more.len()
        invariant
            i <= more@.len(),
            match_views(list@) == before + match_views(more@).take(i as int),
        decreases more@.len() - i,
    {
        let ghost prior = match_views(list@);
        list.push(more[i].duplicate());
        i += 1;
        proof {
            assert(match_views(list@) =~= prior.push(more@[i - 1]@));
            assert(match_views(list@) =~= before + match_views(more@).take(i as int));
        }
    }
    proof {
        assert(match_views(more@).take(more@.len() as int) =~= match_views(more@));
    }
}

/// What came of looking a name up.
#[derive(Debug)]
pub enum LookupOutcome {
    Found(LocationMatch),
    NotFound,
    Failed(String),
}

pub enum OutcomeView {
    Found(MatchView),
    NotFound,
    Failed(Seq<char>),
}

impl View for LookupOutcome {
    type V = OutcomeView;

    open spec fn view(&self) -> OutcomeView {
        match self {
            LookupOutcome::Found(found) => OutcomeView::Found(found@),
            LookupOutcome::NotFound => OutcomeView::NotFound,
            LookupOutcome::Failed(error) => OutcomeView::Failed(error@),
        }
    }
}

/// A name that was looked up, and what came of it.
#[derive(Debug)]
pub struct LocationLookup {
    pub name: String,
    pub outcome: LookupOutcome,
}

pub open spec fn lookup_views(table: Seq<LocationLookup>) -> Seq<(Seq<char>, OutcomeView)> {
    table.map_values(|entry: LocationLookup| (entry.name@, entry.outcome@))
}

/// What came of looking a name up; a name that was not looked up was not found.
pub open spec fn outcome_of(table: Seq<(Seq<char>, OutcomeView)>, name: Seq<char>) -> OutcomeView
    decreases table.len(),
{
    if table.len() == 0 {
        OutcomeView::NotFound
    } else if table[0].0 == name {
        table[0].1
    } else {
        outcome_of(table.skip(1), name)
    }
}

fn find_lookup<'a>(table: &'a Vec<LocationLookup>, name: &str) -> (r: Option<&'a LookupOutcome>)
    ensures
        match r {
            Some(outcome) => outcome_of(lookup_views(table@), name@) == outcome@,
            None => outcome_of(lookup_views(table@), name@) == OutcomeView::NotFound,
        },
{
    let ghost all = lookup_views(table@);
    let mut i: usize = 0;
    proof {
        assert(all.skip(0) =~= all);
    }
    while i < table.len()
        invariant
            i <= table@.len(),
            all == lookup_views(table@),
            outcome_of(all, name@) == outcome_of(all.skip(i as int), name@),
        decreases table@.len() - i,
    {
        proof {
            assert(all.skip(i as int).skip(1) =~= all.skip(i + 1));
            assert(all.skip(i as int)[0] == all[i as int]);
        }
        if same(table[i].name.as_str(), name) {
            return Some(&table[i].outcome);
        }
        i += 1;
    }
    None
}

/// What the check found out about the world around a metadata file.
#[derive(Debug)]
pub struct FrameSurroundings {
    /// The supported images beside the metadata file, by name.
    pub images: Result<Vec<FilePath>, String>,
    /// What came of looking up the places that the frames name.
    pub geonames: Result<Vec<LocationLookup>, String>,
    /// Those of the names that frames use as keys that are files beside the
    /// metadata file.
    pub existing_files: Vec<String>,
}

/// What was found of one frame.
#[derive(Debug)]
pub struct FrameReport {
    pub key: String,
    pub is_numeric: bool,
    pub file: Option<FilePath>,
    pub tags: TagCounts,
    pub location_matches: Vec<LocationMatch>,
    pub warnings: Vec<String>,
    pub errors: Vec<String>,
}

pub struct FrameView {
    pub key: Seq<char>,
    pub is_numeric: bool,
    pub file: Option<PathView>,
    pub findings: Findings,
    pub errors: Seq<Seq<char>>,
}

/// What the tags of a frame add up to.
pub struct Findings {
    pub tags: Counts,
    pub location_matches: Seq<MatchView>,
    pub warnings: Seq<Seq<char>>,
}

pub open spec fn path_option(path: Option<FilePath>) -> Option<PathView> {
    match path {
        Some(path) => Some(path@),
        None => None,
    }
}

impl FrameReport {
    pub open spec fn findings(&self) -> Findings {
        Findings {
            tags: self.tags@,
            location_matches: match_views(self.location_matches@),
            warnings: texts(self.warnings@),
        }
    }
}

impl View for FrameReport {
    type V = FrameView;

    open spec fn view(&self) -> FrameView {
        FrameView {
            key: self.key@,
            is_numeric: self.is_numeric,
            file: path_option(self.file),
            findings: self.findings(),
            errors: texts(self.errors@),
        }
    }
}

impl Default for FrameReport {
    fn default() -> (r: FrameReport)
        ensures
            r@ == (FrameView {
                key: Seq::empty(),
                is_numeric: false,
                file: None,
                findings: no_findings(Seq::empty()),
                errors: Seq::empty(),
            }),
    {
        let r = FrameReport {
            key: String::new(),
            is_numeric: false,
            file: None,
            tags: TagCounts::default(),
            location_matches: Vec::new(),
            warnings: Vec::new(),
            errors: Vec::new(),
        };
        proof {
            assert(match_views(r.location_matches@) =~= Seq::empty());
            assert(texts(r.warnings@) =~= Seq::empty());
            assert(texts(r.errors@) =~= Seq::empty());
        }
        r
    }
}

pub open spec fn frame_views(frames: Seq<FrameReport>) -> Seq<FrameView> {
    frames.map_values(|frame: FrameReport| frame@)
}

/// The part of the report on all frames.
#[derive(Debug)]
pub struct FramesStageReport {
    pub frame_number_count: usize,
    pub file_count: usize,
    pub warnings: Vec<String>,
    pub frames: Vec<FrameReport>,
}

pub struct StageView {
    pub frame_number_count: nat,
    pub file_count: nat,
    pub warnings: Seq<Seq<char>>,
    pub frames: Seq<FrameView>,
}

impl View for FramesStageReport {
    type V = StageView;

    open spec fn view(&self) -> StageView {
        StageView {
            frame_number_count: self.frame_number_count as nat,
            file_count: self.file_count as nat,
            warnings: texts(self.warnings@),
            frames: frame_views(self.frames@),
        }
    }
}

pub open spec fn no_stage() -> StageView {
    StageView {
        frame_number_count: 0,
        file_count: 0,
        warnings: Seq::empty(),
        frames: Seq::empty(),
    }
}

impl Default for FramesStageReport {
    fn default() -> (r: FramesStageReport)
        ensures
            r@ == no_stage(),
    {
        let r = FramesStageReport {
            frame_number_count: 0,
            file_count: 0,
            warnings: Vec::new(),
            frames: Vec::new(),
        };
        proof {
            assert(texts(r.warnings@) =~= Seq::empty());
            assert(frame_views(r.frames@) =~= Seq::empty());
        }
        r
    }
}

// ---------------------------------------------------------------------------
// Locations
// ---------------------------------------------------------------------------
/// The name that a location value gives: a text that is not blank, trimmed.
pub open spec fn location_name(value: Yaml) -> Option<Seq<char>> {
    match value {
        Yaml::Text(text) => if trim(text).len() > 0 {
            Some(trim(text))
        } else {
            None
        },
        _ => None,
    }
}

/// Whether a location value is neither a text nor left out.
pub open spec fn is_odd_location(value: Yaml) -> bool {
    !(value is Text) && !(value is Null)
}

/// The name that a location value gives; one that is neither a text nor left
/// out is warned about.
pub fn location_name_from_yaml(value: &Value, warnings: &mut Vec<String>) -> (r: Option<String>)
    ensures
        crate::text::text_option(r) == location_name(yaml_contents(*value)),
        texts(final(warnings)@) == (if is_odd_location(yaml_contents(*value)) {
            texts(old(warnings)@).push("frames $Location value must be a string"@)
        } else {
            texts(old(warnings)@)
        }),
{
    let ghost before = texts(warnings@);
    match yaml_shape(value) {
        YamlShape::Null => None,
        YamlShape::Text(text) => {
            let name = text_trim(text.as_str());
            if name.is_empty() {
                None
            } else {
                Some(name.to_owned())
            }
        },
        _ => {
            warnings.push("frames $Location value must be a string".to_owned());
            proof {
                assert(texts(warnings@) =~= before.push("frames $Location value must be a string"@));
            }
            None
        },
    }
}

/// What is said of a place that is not in the database.
pub open spec fn unknown_location_warning(name: Seq<char>) -> Seq<char> {
    "$Location: no match found in database [for <"@ + name + ">]"@
}

/// Says that a place is not in the database.
pub fn unknown_location_text(name: &str) -> (r: String)
    ensures
        r@ == unknown_location_warning(name@),
{
    let mut warning = "$Location: no match found in database [for <".to_owned();
    warning.push_str(name);
    warning.push_str(">]");
    warning
}

/// The findings with a location value looked up.
pub open spec fn with_location(
    findings: Findings,
    value: Yaml,
    table: Seq<(Seq<char>, OutcomeView)>,
) -> Result<Findings, Seq<char>> {
    if is_odd_location(value) {
        Ok(
            Findings {
                warnings: findings.warnings.push("frames $Location value must be a string"@),
                ..findings
            },
        )
    } else {
        match location_name(value) {
            None => Ok(findings),
            Some(name) => match outcome_of(table, name) {
                OutcomeView::Found(found) => Ok(
                    Findings {
                        location_matches: findings.location_matches.push(found),
                        ..findings
                    },
                ),
                OutcomeView::NotFound => Ok(
                    Findings {
                        warnings: findings.warnings.push(unknown_location_warning(name)),
                        ..findings
                    },
                ),
                OutcomeView::Failed(error) => Err(error),
            },
        }
    }
}

/// Looks a location value up and files what comes of it.
pub fn check_location_value(
    value: &Value,
    table: &Vec<LocationLookup>,
    report: &mut FrameReport,
) -> (r: Result<(), String>)
    ensures
        final(report).key == old(report).key,
        final(report).is_numeric == old(report).is_numeric,
        final(report).file == old(report).file,
        final(report).errors == old(report).errors,
        match with_location(old(report).findings(), yaml_contents(*value), lookup_views(table@)) {
            Ok(findings) => r is Ok && final(report).findings() == findings,
            Err(error) => r is Err && r->Err_0@ == error,
        },
        final(report)@.findings.tags == old(report)@.findings.tags,
{
    let name = match location_name_from_yaml(value, &mut report.warnings) {
        Some(name) => name,
        None => return Ok(()),
    };
    let ghost matches = match_views(report.location_matches@);
    let ghost warnings = texts(report.warnings@);
    match find_lookup(table, name.as_str()) {
        Some(outcome) => match outcome {
            LookupOutcome::Found(found) => {
                report.location_matches.push(found.duplicate());
                proof {
                    assert(match_views(report.location_matches@) =~= matches.push(found@));
                }
                Ok(())
            },
            LookupOutcome::NotFound => {
                report.warnings.push(unknown_location_text(name.as_str()));
                proof {
                    assert(texts(report.warnings@) =~= warnings.push(
                        unknown_location_warning(name@),
                    ));
                }
                Ok(())
            },
            LookupOutcome::Failed(error) => Err(error.clone()),
        },
        None => {
            report.warnings.push(unknown_location_text(name.as_str()));
            proof {
                assert(texts(report.warnings@) =~= warnings.push(unknown_location_warning(name@)));
            }
            Ok(())
        },
    }
}

// ---------------------------------------------------------------------------
// Tags of a frame
// ---------------------------------------------------------------------------
/// The findings with the location values among the entries looked up, in their
/// order, up to the first lookup that fails.
pub open spec fn with_locations(
    findings: Findings,
    entries: Seq<(Yaml, Yaml)>,
    table: Seq<(Seq<char>, OutcomeView)>,
) -> Result<Findings, Seq<char>>
    decreases entries.len(),
{
    if entries.len() == 0 {
        Ok(findings)
    } else {
        match with_locations(findings, entries.drop_last(), table) {
            Err(error) => Err(error),
            Ok(before) => if text_of(entries.last().0) == Some("$Location"@) {
                with_location(before, entries.last().1, table)
            } else {
                Ok(before)
            },
        }
    }
}

proof fn lemma_location_failure_stays(
    findings: Findings,
    entries: Seq<(Yaml, Yaml)>,
    table: Seq<(Seq<char>, OutcomeView)>,
    i: int,
)
    requires
        0 <= i <= entries.len(),
        with_locations(findings, entries.take(i), table) is Err,
    ensures
        with_locations(findings, entries, table) == with_locations(findings, entries.take(i), table),
    decreases entries.len() - i,
{
    if i == entries.len() {
        assert(entries.take(i) =~= entries);
    } else {
        assert(entries.take(i + 1).drop_last() =~= entries.take(i));
        lemma_location_failure_stays(findings, entries, table, i + 1);
    }
}

/// The findings with the tags of one mapping added.
pub open spec fn with_mapping(
    findings: Findings,
    entries: Seq<(Yaml, Yaml)>,
    table: Seq<(Seq<char>, OutcomeView)>,
) -> Result<Findings, Seq<char>> {
    match tag_names(entries) {
        None => Err("metadata YAML `frames` tag keys must be strings"@),
        Some(names) => with_locations(
            Findings { tags: findings.tags.merged(counts_of(names)), ..findings },
            entries,
            table,
        ),
    }
}

/// Files the tags of one mapping of a frame.
#[verifier::loop_isolation(false)]
pub fn collect_frame_tag_mapping(
    entries: &Vec<(Value, Value)>,
    table: &Vec<LocationLookup>,
    report: &mut FrameReport,
) -> (r: Result<(), String>)
    requires
        old(report)@.findings.tags.total() + entries@.len() <= u128::MAX,
    ensures
        final(report).key == old(report).key,
        final(report).is_numeric == old(report).is_numeric,
        final(report).file == old(report).file,
        final(report).errors == old(report).errors,
        match with_mapping(
            old(report).findings(),
            entries_contents(entries@),
            lookup_views(table@),
        ) {
            Ok(findings) => r is Ok && final(report).findings() == findings && findings.tags.total()
                == old(report)@.findings.tags.total() + entries@.len(),
            Err(error) => r is Err && r->Err_0@ == error,
        },
{
    let counts = match check_tag_mapping(entries, "frames") {
        Ok(counts) => counts,
        Err(error) => {
            proof {
                reveal_strlit("metadata YAML `");
                reveal_strlit("frames");
                reveal_strlit("` tag keys must be strings");
                reveal_strlit("metadata YAML `frames` tag keys must be strings");
                assert(error@ =~= "metadata YAML `frames` tag keys must be strings"@);
            }
            return Err(error);
        },
    };
    merge_tag_counts(&mut report.tags, &counts);
    let ghost start = report.findings();
    let ghost all = entries_contents(entries@);
    let ghost views = lookup_views(table@);
    let mut i: usize = 0;
    while i < entries.len()
        invariant
            i <= entries@.len(),
            all == entries_contents(entries@),
            views == lookup_views(table@),
            report.key == old(report).key,
            report.is_numeric == old(report).is_numeric,
            report.file == old(report).file,
            report.errors == old(report).errors,
            report@.findings.tags == start.tags,
            with_locations(start, all.take(i as int), views) == Ok::<Findings, Seq<char>>(
                report.findings(),
            ),
        decreases entries@.len() - i,
    {
        proof {
            assert(all.take(i + 1).drop_last() =~= all.take(i as int));
            assert(all.take(i + 1).last() == all[i as int]);
        }
        let is_location = match as_text(&entries[i].0) {
            Some(key) => same(key.as_str(), "$Location"),
            None => false,
        };
        if is_location {
            match check_location_value(&entries[i].1, table, report) {
                Ok(()) => {},
                Err(error) => {
                    proof {
                        lemma_location_failure_stays(start, all, views, i + 1);
                    }
                    return Err(error);
                },
            }
        }
        i += 1;
    }
    proof {
        assert(all.take(all.len() as int) =~= all);
    }
    Ok(())
}

/// The findings with the tags of the items of a frame that is a list added: each
/// item is a mapping with one tag.
pub open spec fn with_items(
    findings: Findings,
    items: Seq<Yaml>,
    table: Seq<(Seq<char>, OutcomeView)>,
) -> Result<Findings, Seq<char>>
    decreases items.len(),
{
    if items.len() == 0 {
        Ok(findings)
    } else {
        match with_items(findings, items.drop_last(), table) {
            Err(error) => Err(error),
            Ok(before) => match mapping_of(items.last()) {
                None => Err("metadata YAML frame entries must be mappings"@),
                Some(entries) => if entries.len() != 1 {
                    Err("metadata YAML frame sequence entries must contain one tag"@)
                } else {
                    with_mapping(before, entries, table)
                },
            },
        }
    }
}

proof fn lemma_item_failure_stays(
    findings: Findings,
    items: Seq<Yaml>,
    table: Seq<(Seq<char>, OutcomeView)>,
    i: int,
)
    requires
        0 <= i <= items.len(),
        with_items(findings, items.take(i), table) is Err,
    ensures
        with_items(findings, items, table) == with_items(findings, items.take(i), table),
    decreases items.len() - i,
{
    if i == items.len() {
        assert(items.take(i) =~= items);
    } else {
        assert(items.take(i + 1).drop_last() =~= items.take(i));
        lemma_item_failure_stays(findings, items, table, i + 1);
    }
}

/// The findings with the tags of a frame added: those of a mapping, or of a list
/// of mappings with one tag each. A frame may be left empty.
pub open spec fn with_frame_value(
    findings: Findings,
    value: Yaml,
    table: Seq<(Seq<char>, OutcomeView)>,
) -> Result<Findings, Seq<char>> {
    match value {
        Yaml::Mapping(entries) => with_mapping(findings, entries, table),
        Yaml::Sequence(items) => with_items(findings, items, table),
        Yaml::Null => Ok(findings),
        _ => Err("metadata YAML frame values must be mappings or sequences"@),
    }
}

/// Files the tags of a frame.
#[verifier::loop_isolation(false)]
pub fn collect_frame_tags(
    value: &Value,
    table: &Vec<LocationLookup>,
    report: &mut FrameReport,
) -> (r: Result<(), String>)
    requires
        old(report)@.findings.tags.total() + usize::MAX <= u128::MAX,
    ensures
        final(report).key == old(report).key,
        final(report).is_numeric == old(report).is_numeric,
        final(report).file == old(report).file,
        final(report).errors == old(report).errors,
        match with_frame_value(old(report).findings(), yaml_contents(*value), lookup_views(table@))
        {
            Ok(findings) => r is Ok && final(report).findings() == findings && findings.tags.total()
                <= old(report)@.findings.tags.total() + usize::MAX,
            Err(error) => r is Err && r->Err_0@ == error,
        },
{
    match yaml_shape(value) {
        YamlShape::Mapping(entries) => {
            proof {
                assert(entries.len() <= usize::MAX);
            }
            collect_frame_tag_mapping(&entries, table, report)
        },
        YamlShape::Sequence(items) => {
            let ghost start = report.findings();
            let ghost all = items_contents(items@);
            let ghost views = lookup_views(table@);
            let mut i: usize = 0;
            while i < items.len()
                invariant
                    i <= items.len(),
                    all == items_contents(items@),
                    views == lookup_views(table@),
                    report.key == old(report).key,
                    report.is_numeric == old(report).is_numeric,
                    report.file == old(report).file,
                    report.errors == old(report).errors,
                    report@.findings.tags.total() == old(report)@.findings.tags.total() + i,
                    with_items(start, all.take(i as int), views) == Ok::<Findings, Seq<char>>(
                        report.findings(),
                    ),
                decreases items@.len() - i,
            {
                proof {
                    assert(all.take(i + 1).drop_last() =~= all.take(i as int));
                    assert(all.take(i + 1).last() == all[i as int]);
                }
                let entries = match as_mapping(&items[i]) {
                    Some(entries) => entries,
                    None => {
                        proof {
                            lemma_item_failure_stays(start, all, views, i + 1);
                        }
                        return Err("metadata YAML frame entries must be mappings".to_owned());
                    },
                };
                if entries.len() != 1 {
                    proof {
                        lemma_item_failure_stays(start, all, views, i + 1);
                    }
                    return Err(
                        "metadata YAML frame sequence entries must contain one tag".to_owned(),
                    );
                }
                match collect_frame_tag_mapping(&entries, table, report) {
                    Ok(()) => {},
                    Err(error) => {
                        proof {
                            lemma_item_failure_stays(start, all, views, i + 1);
                        }
                        return Err(error);
                    },
                }
                i += 1;
            }
            proof {
                assert(all.take(all.len() as int) =~= all);
            }
            Ok(())
        },
        YamlShape::Null => Ok(()),
        _ => Err("metadata YAML frame values must be mappings or sequences".to_owned()),
    }
}

// ---------------------------------------------------------------------------
// References of frames
// ---------------------------------------------------------------------------
/// What there is to warn about in the key of a frame: it is neither a number nor
/// the name of a file.
pub open spec fn reference_warnings(key: Yaml) -> Seq<Seq<char>> {
    match key {
        Yaml::Number(_, signed, _) => if signed is None {
            seq!["frame reference `"@ + key_label(key) + "` is not a valid frame number"@]
        } else {
            Seq::empty()
        },
        Yaml::Text(_) => Seq::empty(),
        _ => seq!["frame reference `"@ + key_label(key) + "` is not a valid frame key"@],
    }
}

/// A whole number as it is written.
pub open spec fn integer_text(n: int) -> Seq<char> {
    if n < 0 {
        "-"@ + decimal((-n) as nat)
    } else {
        decimal(n as nat)
    }
}

/// A whole number in decimal digits.
pub fn i64_text(n: i64) -> (r: String)
    ensures
        r@ == integer_text(n as int),
{
    if n < 0 {
        let mut out = "-".to_owned();
        out.push_str(decimal_text((-(n as i128)) as u128).as_str());
        out
    } else {
        decimal_text(n as u128)
    }
}

/// What is wrong with the key of a frame: it refers to an image or a file that
/// is not there.
pub open spec fn reference_errors(
    key: Yaml,
    image_count: nat,
    existing_files: Seq<Seq<char>>,
) -> Seq<Seq<char>> {
    match key {
        Yaml::Number(_, Some(number), _) => if number < 1 || number > image_count {
            seq!["frame reference `"@ + integer_text(number as int) + "` does not match an image file"@]
        } else {
            Seq::empty()
        },
        Yaml::Text(name) => if existing_files.contains(name) {
            Seq::empty()
        } else {
            seq!["file does not exist"@]
        },
        _ => Seq::empty(),
    }
}

/// Checks what the key of a frame refers to.
pub fn check_frame_reference(
    key: &Value,
    image_count: usize,
    existing_files: &Vec<String>,
    warnings: &mut Vec<String>,
    errors: &mut Vec<String>,
)
    ensures
        texts(final(warnings)@) == texts(old(warnings)@) + reference_warnings(yaml_contents(*key)),
        texts(final(errors)@) == texts(old(errors)@) + reference_errors(
            yaml_contents(*key),
            image_count as nat,
            texts(existing_files@),
        ),
{
    let ghost contents = yaml_contents(*key);
    let ghost before_warnings = texts(warnings@);
    let ghost before_errors = texts(errors@);
    match yaml_shape(key) {
        YamlShape::Number(number) => match number.signed {
            Some(signed) => {
                if signed < 1 || signed as u64 as u128 > image_count as u128 {
                    let mut error = "frame reference `".to_owned();
                    error.push_str(i64_text(signed).as_str());
                    error.push_str("` does not match an image file");
                    errors.push(error);
                }
            },
            None => {
                let mut warning = "frame reference `".to_owned();
                warning.push_str(yaml_key_label(key).as_str());
                warning.push_str("` is not a valid frame number");
                warnings.push(warning);
            },
        },
        YamlShape::Text(name) => {
            if !list_contains(existing_files, name.as_str()) {
                errors.push("file does not exist".to_owned());
            }
        },
        _ => {
            let mut warning = "frame reference `".to_owned();
            warning.push_str(yaml_key_label(key).as_str());
            warning.push_str("` is not a valid frame key");
            warnings.push(warning);
        },
    }
    proof {
        assert(texts(warnings@) =~= before_warnings + reference_warnings(contents));
        assert(texts(errors@) =~= before_errors + reference_errors(
            contents,
            image_count as nat,
            texts(existing_files@),
        ));
    }
}

/// The image that a frame number refers to.
pub open spec fn numbered_image(number: Option<int>, images: Seq<FilePath>) -> Option<PathView> {
    match number {
        Some(n) => if 0 < n <= images.len() {
            Some(images[n - 1]@)
        } else {
            None
        },
        None => None,
    }
}

/// The image that the number of a frame stands for.
pub fn resolved_frame_file(number: Option<usize>, images: &Vec<FilePath>) -> (r: Option<FilePath>)
    ensures
        path_option(r) == numbered_image(
            match number {
                Some(n) => Some(n as int),
                None => None,
            },
            images@,
        ),
{
    match number {
        Some(n) => if n > 0 && n <= images.len() {
            Some(images[n - 1].duplicate())
        } else {
            None
        },
        None => None,
    }
}

/// What is said of all frames: there are more numbered ones than images.
pub open spec fn summary_warnings(frame_number_count: nat, file_count: nat) -> Seq<Seq<char>> {
    if frame_number_count > 0 && frame_number_count > file_count {
        seq![
            "there are more frame numbers ("@ + decimal(frame_number_count)
                + ") than image files ("@ + decimal(file_count) + ")"@,
        ]
    } else {
        Seq::empty()
    }
}

/// What there is to warn about in the number of frames.
pub fn frame_summary_warnings(frame_number_count: usize, file_count: usize) -> (r: Vec<String>)
    ensures
        texts(r@) == summary_warnings(frame_number_count as nat, file_count as nat),
{
    let mut out: Vec<String> = Vec::new();
    if frame_number_count > 0 && frame_number_count > file_count {
        let mut warning = "there are more frame numbers (".to_owned();
        warning.push_str(decimal_text(frame_number_count as u128).as_str());
        warning.push_str(") than image files (");
        warning.push_str(decimal_text(file_count as u128).as_str());
        warning.push_str(")");
        out.push(warning);
    }
    proof {
        assert(texts(out@) =~= summary_warnings(frame_number_count as nat, file_count as nat));
    }
    out
}

// ---------------------------------------------------------------------------
// All frames
// ---------------------------------------------------------------------------
/// How many entries are filed under a frame number.
pub open spec fn numbered_frames(entries: Seq<(Yaml, Yaml)>) -> nat
    decreases entries.len(),
{
    if entries.len() == 0 {
        0
    } else {
        numbered_frames(entries.drop_last()) + (if frame_number(entries.last().0) is Some {
            1nat
        } else {
            0
        })
    }
}

pub open spec fn no_findings(warnings: Seq<Seq<char>>) -> Findings {
    Findings { tags: no_counts(), location_matches: Seq::empty(), warnings }
}

/// What a check says of one frame.
pub open spec fn frame_outcome(
    entry: (Yaml, Yaml),
    images: Seq<FilePath>,
    existing_files: Seq<Seq<char>>,
    table: Seq<(Seq<char>, OutcomeView)>,
) -> Result<FrameView, Seq<char>> {
    let key = entry.0;
    match with_frame_value(no_findings(reference_warnings(key)), entry.1, table) {
        Err(error) => Err(error),
        Ok(findings) => Ok(
            FrameView {
                key: key_label(key),
                is_numeric: frame_number(key) is Some,
                file: numbered_image(frame_number(key), images),
                findings: Findings {
                    warnings: findings.warnings + tag_warning_texts(
                        "exif"@,
                        findings.tags.unknown_names,
                    ),
                    ..findings
                },
                errors: reference_errors(key, images.len(), existing_files),
            },
        ),
    }
}

/// What a check says of all frames, in their order, up to the first that has no
/// proper structure.
pub open spec fn frame_outcomes(
    entries: Seq<(Yaml, Yaml)>,
    images: Seq<FilePath>,
    existing_files: Seq<Seq<char>>,
    table: Seq<(Seq<char>, OutcomeView)>,
) -> Result<Seq<FrameView>, Seq<char>>
    decreases entries.len(),
{
    if entries.len() == 0 {
        Ok(Seq::empty())
    } else {
        match frame_outcomes(entries.drop_last(), images, existing_files, table) {
            Err(error) => Err(error),
            Ok(before) => match frame_outcome(entries.last(), images, existing_files, table) {
                Err(error) => Err(error),
                Ok(frame) => Ok(before.push(frame)),
            },
        }
    }
}

proof fn lemma_frame_failure_stays(
    entries: Seq<(Yaml, Yaml)>,
    images: Seq<FilePath>,
    existing_files: Seq<Seq<char>>,
    table: Seq<(Seq<char>, OutcomeView)>,
    i: int,
)
    requires
        0 <= i <= entries.len(),
        frame_outcomes(entries.take(i), images, existing_files, table) is Err,
    ensures
        frame_outcomes(entries, images, existing_files, table) == frame_outcomes(
            entries.take(i),
            images,
            existing_files,
            table,
        ),
    decreases entries.len() - i,
{
    if i == entries.len() {
        assert(entries.take(i) =~= entries);
    } else {
        assert(entries.take(i + 1).drop_last() =~= entries.take(i));
        lemma_frame_failure_stays(entries, images, existing_files, table, i + 1);
    }
}

/// The tags of all frames together.
pub open spec fn merged_tags(frames: Seq<FrameView>) -> Counts
    decreases frames.len(),
{
    if frames.len() == 0 {
        no_counts()
    } else {
        merged_tags(frames.drop_last()).merged(frames.last().findings.tags)
    }
}

/// The places of all frames.
pub open spec fn merged_matches(frames: Seq<FrameView>) -> Seq<MatchView>
    decreases frames.len(),
{
    if frames.len() == 0 {
        Seq::empty()
    } else {
        merged_matches(frames.drop_last()) + frames.last().findings.location_matches
    }
}

/// The warnings of all frames.
pub open spec fn merged_warnings(frames: Seq<FrameView>) -> Seq<Seq<char>>
    decreases frames.len(),
{
    if frames.len() == 0 {
        Seq::empty()
    } else {
        merged_warnings(frames.drop_last()) + frames.last().findings.warnings
    }
}

/// What was found of all frames.
#[derive(Debug)]
pub struct FrameValidationReport {
    pub tags: TagCounts,
    pub location_matches: Vec<LocationMatch>,
    pub frames: FramesStageReport,
    pub warnings: Vec<String>,
}

/// Whether a report says what there is to say of the frames.
pub open spec fn reports_frames(
    report: FrameValidationReport,
    frames: Seq<FrameView>,
    frame_number_count: nat,
    file_count: nat,
) -> bool {
    &&& report.tags@ == merged_tags(frames)
    &&& match_views(report.location_matches@) == merged_matches(frames)
    &&& texts(report.warnings@) == merged_warnings(frames)
    &&& report.frames@ == (StageView {
        frame_number_count,
        file_count,
        warnings: summary_warnings(frame_number_count, file_count),
        frames,
    })
}

/// What a check of the frames comes to.
pub open spec fn frames_outcome(
    entries: Seq<(Yaml, Yaml)>,
    surroundings: FrameSurroundings,
) -> Result<Seq<FrameView>, Seq<char>> {
    match surroundings.images {
        Err(error) => Err(error@),
        Ok(images) => match surroundings.geonames {
            Err(error) => Err(error@),
            Ok(table) => frame_outcomes(
                entries,
                images@,
                texts(surroundings.existing_files@),
                lookup_views(table@),
            ),
        },
    }
}

fn count_numbered_frames(entries: &Vec<(Value, Value)>) -> (r: usize)
    ensures
        r == numbered_frames(entries_contents(entries@)),
        r <= entries@.len(),
{
    let ghost all = entries_contents(entries@);
    let mut count: usize = 0;
    let mut i: usize = 0;
    while i < entries.len()
        invariant
            i <= entries@.len(),
            count <= i,
            all == entries_contents(entries@),
            count == numbered_frames(all.take(i as int)),
        decreases entries@.len() - i,
    {
        proof {
            assert(all.take(i + 1).drop_last() =~= all.take(i as int));
        }
        if frame_number_from_key(&entries[i].0).is_some() {
            count += 1;
        }
        i += 1;
    }
    proof {
        assert(all.take(all.len() as int) =~= all);
    }
    count
}

fn check_frame(
    key: &Value,
    value: &Value,
    images: &Vec<FilePath>,
    existing_files: &Vec<String>,
    table: &Vec<LocationLookup>,
) -> (r: Result<FrameReport, String>)
    ensures
        match frame_outcome(
            (yaml_contents(*key), yaml_contents(*value)),
            images@,
            texts(existing_files@),
            lookup_views(table@),
        ) {
            Ok(frame) => r is Ok && r->Ok_0@ == frame && frame.findings.tags.total() <= usize::MAX,
            Err(error) => r is Err && r->Err_0@ == error,
        },
{
    let number = frame_number_from_key(key);
    let mut report = FrameReport::default();
    report.key = yaml_key_label(key);
    report.is_numeric = number.is_some();
    report.file = resolved_frame_file(number, images);
    check_frame_reference(
        key,
        images.len(),
        existing_files,
        &mut report.warnings,
        &mut report.errors,
    );
    proof {
        assert(match_views(report.location_matches@) =~= Seq::empty());
        assert(texts(report.warnings@) =~= reference_warnings(yaml_contents(*key)));
        assert(texts(report.errors@) =~= reference_errors(
            yaml_contents(*key),
            images@.len(),
            texts(existing_files@),
        ));
    }
    match collect_frame_tags(value, table, &mut report) {
        Ok(()) => {},
        Err(error) => return Err(error),
    }
    let more = tag_warnings("exif", &report.tags);
    append_texts(&mut report.warnings, &more);
    Ok(report)
}

proof fn lemma_merged_total(frames: Seq<FrameView>)
    requires
        forall|i: int|
            0 <= i < frames.len() ==> (#[trigger] frames[i]).findings.tags.total() <= usize::MAX,
    ensures
        merged_tags(frames).total() <= frames.len() * usize::MAX,
    decreases frames.len(),
{
    if frames.len() > 0 {
        lemma_merged_total(frames.drop_last());
        let n = frames.len();
        assert((n - 1) * usize::MAX + usize::MAX == n * usize::MAX) by (nonlinear_arith);
    }
}

/// Checks all frames.
#[verifier::loop_isolation(false)]
pub fn check_frames_mapping(
    entries: &Vec<(Value, Value)>,
    surroundings: &FrameSurroundings,
) -> (r: Result<FrameValidationReport, String>)
    ensures
        match frames_outcome(entries_contents(entries@), *surroundings) {
            Ok(frames) => r is Ok && reports_frames(
                r->Ok_0,
                frames,
                numbered_frames(entries_contents(entries@)),
                surroundings.images->Ok_0@.len(),
            ),
            Err(error) => r is Err && r->Err_0@ == error,
        },
{
    let images = match &surroundings.images {
        Ok(images) => images,
        Err(error) => return Err(error.clone()),
    };
    let table = match &surroundings.geonames {
        Ok(table) => table,
        Err(error) => return Err(error.clone()),
    };
    let existing_files = &surroundings.existing_files;
    let frame_number_count: usize = count_numbered_frames(entries);
    let file_count: usize = images.len();
    let mut tags = TagCounts::default();
    let mut location_matches: Vec<LocationMatch> = Vec::new();
    let mut warnings: Vec<String> = Vec::new();
    let mut frames: Vec<FrameReport> = Vec::new();
    let ghost all = entries_contents(entries@);
    let ghost views = lookup_views(table@);
    let mut i: usize = 0;
    proof {
        assert(match_views(location_matches@) =~= Seq::empty());
        assert(texts(warnings@) =~= Seq::empty());
        assert(frame_views(frames@) =~= Seq::empty());
    }
    while i < entries.len()
        invariant
            i <= entries.len(),
            all == entries_contents(entries@),
            views == lookup_views(table@),
            frame_views(frames@).len() == i,
            forall|k: int|
                0 <= k < i ==> (#[trigger] frame_views(frames@)[k]).findings.tags.total()
                    <= usize::MAX,
            frame_outcomes(all.take(i as int), images@, texts(existing_files@), views) == Ok::<
                Seq<FrameView>,
                Seq<char>,
            >(frame_views(frames@)),
            tags@ == merged_tags(frame_views(frames@)),
            match_views(location_matches@) == merged_matches(frame_views(frames@)),
            texts(warnings@) == merged_warnings(frame_views(frames@)),
        decreases entries@.len() - i,
    {
        proof {
            assert(all.take(i + 1).drop_last() =~= all.take(i as int));
            assert(all.take(i + 1).last() == all[i as int]);
            lemma_merged_total(frame_views(frames@));
            assert(i * usize::MAX + usize::MAX <= u128::MAX) by (nonlinear_arith)
                requires
                    i < usize::MAX,
            ;
        }
        let frame = match check_frame(
            &entries[i].0,
            &entries[i].1,
            images,
            existing_files,
            table,
        ) {
            Ok(frame) => frame,
            Err(error) => {
                proof {
                    lemma_frame_failure_stays(all, images@, texts(existing_files@), views, i + 1);
                }
                return Err(error);
            },
        };
        merge_tag_counts(&mut tags, &frame.tags);
        append_matches(&mut location_matches, &frame.location_matches);
        append_texts(&mut warnings, &frame.warnings);
        let ghost before = frame_views(frames@);
        let ghost added = frame@;
        frames.push(frame);
        proof {
            assert(frame_views(frames@) =~= before.push(added));
            assert(before.push(added).drop_last() =~= before);
        }
        i += 1;
    }
    proof {
        assert(all.take(all.len() as int) =~= all);
    }
    Ok(
        FrameValidationReport {
            tags,
            location_matches,
            frames: FramesStageReport {
                frame_number_count,
                file_count,
                warnings: frame_summary_warnings(frame_number_count, file_count),
                frames,
            },
            warnings,
        },
    )
}

// ---------------------------------------------------------------------------
// The whole file
// ---------------------------------------------------------------------------
/// What a check of a metadata file found.
#[derive(Debug)]
pub struct CheckReport {
    pub exif_tags: TagCounts,
    pub exif_warnings: Vec<String>,
    pub frame_tags: TagCounts,
    pub location_matches: Vec<LocationMatch>,
    pub frames: FramesStageReport,
    pub warnings: Vec<String>,
}

/// The names of the global tags of a metadata file, or what is wrong with them.
pub open spec fn global_tag_names(root: Seq<(Yaml, Yaml)>) -> Result<Seq<Seq<char>>, Seq<char>> {
    match entry_of(root, "exif"@) {
        None => Ok(Seq::empty()),
        Some(exif) => match mapping_of(exif) {
            None => Err("metadata YAML `exif` key must be a mapping"@),
            Some(entries) => match tag_names(entries) {
                None => Err("metadata YAML `exif` tag keys must be strings"@),
                Some(names) => Ok(names),
            },
        },
    }
}

/// The frames of a metadata file, nothing where it has no such key, or what is
/// wrong with them.
pub open spec fn frame_entries(root: Seq<(Yaml, Yaml)>) -> Result<
    Option<Seq<(Yaml, Yaml)>>,
    Seq<char>,
> {
    match entry_of(root, "frames"@) {
        None => Ok(None),
        Some(Yaml::Null) => Ok(Some(Seq::empty())),
        Some(Yaml::Mapping(entries)) => Ok(Some(entries)),
        Some(_) => Err("metadata YAML `frames` key must be a mapping"@),
    }
}

/// Why a metadata file has no proper structure, if so. The root is looked at
/// first, then the global tags, then the frames in their order.
pub open spec fn structure_error(yaml: Yaml, surroundings: FrameSurroundings) -> Option<Seq<char>> {
    match mapping_of(yaml) {
        None => Some("metadata YAML root must be a mapping"@),
        Some(root) => match (global_tag_names(root), frame_entries(root)) {
            (Err(error), _) => Some(error),
            (_, Err(error)) => Some(error),
            (_, Ok(None)) => None,
            (_, Ok(Some(frames))) => match frames_outcome(frames, surroundings) {
                Err(error) => Some(error),
                Ok(_) => None,
            },
        },
    }
}

/// Whether a report says what there is to say of a metadata file.
pub open spec fn reports_file(
    report: CheckReport,
    root: Seq<(Yaml, Yaml)>,
    surroundings: FrameSurroundings,
) -> bool {
    let exif_tags = counts_of(global_tag_names(root)->Ok_0);
    &&& report.exif_tags@ == exif_tags
    &&& texts(report.exif_warnings@) == tag_warning_texts("exif"@, exif_tags.unknown_names)
    &&& match frame_entries(root)->Ok_0 {
        None => {
            &&& report.frame_tags@ == no_counts()
            &&& report.location_matches@.len() == 0
            &&& report.warnings@.len() == 0
            &&& report.frames@ == no_stage()
        },
        Some(entries) => {
            let frames = frames_outcome(entries, surroundings)->Ok_0;
            &&& report.frame_tags@ == merged_tags(frames)
            &&& match_views(report.location_matches@) == merged_matches(frames)
            &&& texts(report.warnings@) == merged_warnings(frames)
            &&& report.frames@ == (StageView {
                frame_number_count: numbered_frames(entries),
                file_count: surroundings.images->Ok_0@.len(),
                warnings: summary_warnings(
                    numbered_frames(entries),
                    surroundings.images->Ok_0@.len(),
                ),
                frames,
            })
        },
    }
}

/// Checks a metadata file.
pub fn check_metadata_file(yaml: &Value, surroundings: &FrameSurroundings) -> (r: Result<
    CheckReport,
    String,
>)
    ensures
        match r {
            Ok(report) => {
                &&& structure_error(yaml_contents(*yaml), *surroundings) is None
                &&& reports_file(report, mapping_of(yaml_contents(*yaml))->Some_0, *surroundings)
            },
            Err(error) => structure_error(yaml_contents(*yaml), *surroundings) == Some(error@),
        },
{
    let root = match as_mapping(yaml) {
        Some(root) => root,
        None => return Err("metadata YAML root must be a mapping".to_owned()),
    };
    let mut report = CheckReport {
        exif_tags: TagCounts::default(),
        exif_warnings: Vec::new(),
        frame_tags: TagCounts::default(),
        location_matches: Vec::new(),
        frames: FramesStageReport::default(),
        warnings: Vec::new(),
    };
    proof {
        assert(texts(report.exif_warnings@) =~= Seq::empty());
        assert(tag_warning_texts("exif"@, no_counts().unknown_names) =~= Seq::empty());
    }
    if let Some(exif) = yaml_mapping_get(&root, "exif") {
        let entries = match as_mapping(&exif) {
            Some(entries) => entries,
            None => return Err("metadata YAML `exif` key must be a mapping".to_owned()),
        };
        match check_tag_mapping(&entries, "exif") {
            Ok(counts) => {
                report.exif_tags = counts;
            },
            Err(error) => {
                proof {
                    reveal_strlit("metadata YAML `");
                    reveal_strlit("exif");
                    reveal_strlit("` tag keys must be strings");
                    reveal_strlit("metadata YAML `exif` tag keys must be strings");
                    assert(error@ =~= "metadata YAML `exif` tag keys must be strings"@);
                }
                return Err(error);
            },
        }
        report.exif_warnings = tag_warnings("exif", &report.exif_tags);
    }
    if let Some(frames) = yaml_mapping_get(&root, "frames") {
        let entries = match yaml_shape(&frames) {
            YamlShape::Null => {
                let none: Vec<(Value, Value)> = Vec::new();
                proof {
                    assert(entries_contents(none@) =~= Seq::empty());
                }
                none
            },
            YamlShape::Mapping(entries) => entries,
            _ => return Err("metadata YAML `frames` key must be a mapping".to_owned()),
        };
        let found = match check_frames_mapping(&entries, surroundings) {
            Ok(found) => found,
            Err(error) => return Err(error),
        };
        report.frame_tags = found.tags;
        report.location_matches = found.location_matches;
        report.frames = found.frames;
        report.warnings = found.warnings;
    }
    Ok(report)
}

} // verus!
