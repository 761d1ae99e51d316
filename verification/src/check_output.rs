//! The report of a check.

use crate::check::{
    check_metadata_file, match_views, reports_file, structure_error, CheckReport, FrameReport,
    FrameSurroundings, FramesStageReport, LocationMatch, MatchView,
};
use crate::metadata_path::MetadataPathResolution;
use crate::path::{file_name, name_of, FilePath};
use crate::report::{
    append_errors, append_spaced_check_heading, append_warnings, count_marks, error_lines,
    format_check_error_count, format_check_warning_count, spaced_heading, warning_lines,
};
use crate::style::{painted, plain, Mark, Styled, Tone};
use crate::tags::{Counts, TagCounts};
use crate::text::{decimal, decimal_text, texts};
use crate::yaml::{mapping_of, parse_document, yaml_contents, yaml_document, Yaml};
use serde_yaml::Value;
use vstd::prelude::*;

verus! {

/// The global tags that a check found.
#[derive(Debug)]
pub struct TagStageReport {
    pub tags: TagCounts,
    pub warnings: Vec<String>,
}

/// Everything that a check has to say.
#[derive(Debug)]
pub struct CheckOutput {
    pub metadata_path: Option<FilePath>,
    pub yaml_ok: bool,
    pub file_warnings: Vec<String>,
    pub file_errors: Vec<String>,
    pub exif: Option<TagStageReport>,
    pub frames: Option<FramesStageReport>,
}

impl Default for CheckOutput {
    fn default() -> (r: CheckOutput)
        ensures
            r.metadata_path is None,
            !r.yaml_ok,
            r.file_warnings@.len() == 0,
            r.file_errors@.len() == 0,
            r.exif is None,
            r.frames is None,
    {
        CheckOutput {
            metadata_path: None,
            yaml_ok: false,
            file_warnings: Vec::new(),
            file_errors: Vec::new(),
            exif: None,
            frames: None,
        }
    }
}

/// Reads the text of a metadata file.
pub fn parse_metadata(text: &str) -> (r: Result<Value, String>)
    ensures
        match r {
            Ok(value) => yaml_document(text@) == Ok::<Yaml, Seq<char>>(yaml_contents(value)),
            Err(error) => yaml_document(text@) == Err::<Yaml, Seq<char>>(error@),
        },
{
    parse_document(text)
}

/// What became of reading a metadata file.
pub enum MetadataRead {
    /// It could not be read.
    Unreadable(String),
    /// It is no YAML document.
    Invalid(String),
    /// It says this.
    Document(Value),
}

/// What a check has to say where no metadata file was found.
pub open spec fn reports_missing(output: CheckOutput, error: Seq<char>) -> bool {
    &&& output.metadata_path is None
    &&& !output.yaml_ok
    &&& output.file_warnings@.len() == 0
    &&& texts(output.file_errors@) == seq![error]
    &&& output.exif is None
    &&& output.frames is None
}

/// What a check has to say of a metadata file that was found.
pub open spec fn reports_found(
    output: CheckOutput,
    found: MetadataPathResolution,
    read: MetadataRead,
    surroundings: FrameSurroundings,
) -> bool {
    &&& output.metadata_path == Some(found.path)
    &&& output.file_warnings == found.warnings
    &&& output.yaml_ok == (read is Document)
    &&& match read {
        MetadataRead::Unreadable(error) => texts(output.file_errors@) == seq![
            "failed to read "@ + found.path.text@ + ": "@ + error@,
        ] && output.exif is None && output.frames is None,
        MetadataRead::Invalid(error) => texts(output.file_errors@) == seq![
            "failed to parse "@ + found.path.text@ + ": "@ + error@,
        ] && output.exif is None && output.frames is None,
        MetadataRead::Document(yaml) => match structure_error(
            yaml_contents(yaml),
            surroundings,
        ) {
            Some(error) => texts(output.file_errors@) == seq![error] && output.exif is None
                && output.frames is None,
            None => {
                &&& output.file_errors@.len() == 0
                &&& output.exif is Some
                &&& output.frames is Some
                &&& exists|report: CheckReport| #[trigger]
                    reports_file(
                        report,
                        mapping_of(yaml_contents(yaml))->Some_0,
                        surroundings,
                    ) && output.exif->Some_0.tags == report.exif_tags
                        && output.exif->Some_0.warnings == report.exif_warnings
                        && output.frames->Some_0 == report.frames
            },
        },
    }
}

/// Puts together what a check has to say, from where the metadata file was
/// found, what became of reading it, and what lies around it.
pub fn build_check_output(
    resolution: Result<MetadataPathResolution, String>,
    read: MetadataRead,
    surroundings: &FrameSurroundings,
) -> (r: CheckOutput)
    ensures
        match resolution {
            Err(error) => reports_missing(r, error@),
            Ok(found) => reports_found(r, found, read, *surroundings),
        },
{
    let mut output = CheckOutput::default();
    let found = match resolution {
        Ok(found) => found,
        Err(error) => {
            let ghost text = error@;
            output.file_errors.push(error);
            proof {
                assert(texts(output.file_errors@) =~= seq![text]);
            }
            return output;
        },
    };
    let mut error = String::new();
    match read {
        MetadataRead::Unreadable(message) => {
            error = "failed to read ".to_owned();
            error.push_str(found.path.text.as_str());
            error.push_str(": ");
            error.push_str(message.as_str());
        },
        MetadataRead::Invalid(message) => {
            error = "failed to parse ".to_owned();
            error.push_str(found.path.text.as_str());
            error.push_str(": ");
            error.push_str(message.as_str());
        },
        MetadataRead::Document(yaml) => {
            output.yaml_ok = true;
            output.metadata_path = Some(found.path);
            output.file_warnings = found.warnings;
            match check_metadata_file(&yaml, surroundings) {
                Ok(report) => {
                    let ghost whole = report;
                    output.exif = Some(
                        TagStageReport { tags: report.exif_tags, warnings: report.exif_warnings },
                    );
                    output.frames = Some(report.frames);
                    proof {
                        assert(reports_file(
                            whole,
                            mapping_of(yaml_contents(yaml))->Some_0,
                            *surroundings,
                        ));
                    }
                },
                Err(message) => {
                    let ghost text = message@;
                    output.file_errors.push(message);
                    proof {
                        assert(texts(output.file_errors@) =~= seq![text]);
                    }
                },
            }
            return output;
        },
    }
    let ghost text = error@;
    output.metadata_path = Some(found.path);
    output.file_warnings = found.warnings;
    output.file_errors.push(error);
    proof {
        assert(texts(output.file_errors@) =~= seq![text]);
    }
    output
}

// ---------------------------------------------------------------------------
// Counting
// ---------------------------------------------------------------------------
pub open spec fn frame_error_count(frames: Seq<FrameReport>) -> nat
    decreases frames.len(),
{
    if frames.len() == 0 {
        0
    } else {
        frame_error_count(frames.drop_last()) + frames.last().errors@.len()
    }
}

pub open spec fn frame_warning_count(frames: Seq<FrameReport>) -> nat
    decreases frames.len(),
{
    if frames.len() == 0 {
        0
    } else {
        frame_warning_count(frames.drop_last()) + frames.last().warnings@.len()
    }
}

/// All errors: those of the file and those of its frames.
pub open spec fn errors_of(output: CheckOutput) -> nat {
    output.file_errors@.len() + match output.frames {
        Some(frames) => frame_error_count(frames.frames@),
        None => 0,
    }
}

/// All warnings: those of the file, its global tags and its frames. The count
/// stops at the largest machine number.
pub open spec fn warnings_of(output: CheckOutput) -> nat {
    let all = output.file_warnings@.len() + (match output.exif {
        Some(exif) => exif.warnings@.len(),
        None => 0,
    }) + match output.frames {
        Some(frames) => frames.warnings@.len() + frame_warning_count(frames.frames@),
        None => 0,
    };
    if all <= u128::MAX {
        all
    } else {
        u128::MAX as nat
    }
}

proof fn lemma_product_step(i: nat, n: nat)
    requires
        i < n,
        n <= usize::MAX,
    ensures
        i * usize::MAX + usize::MAX == (i + 1) * usize::MAX,
        (i + 1) * usize::MAX <= usize::MAX * usize::MAX,
        usize::MAX * usize::MAX + usize::MAX <= u128::MAX,
{
    assert(i * usize::MAX + usize::MAX == (i + 1) * usize::MAX) by (nonlinear_arith);
    assert((i + 1) * usize::MAX <= usize::MAX * usize::MAX) by (nonlinear_arith)
        requires
            i + 1 <= usize::MAX,
    ;
    assert(usize::MAX * usize::MAX + usize::MAX <= u128::MAX) by (nonlinear_arith)
        requires
            usize::MAX <= 0xffff_ffff_ffff_ffff,
    ;
}

fn count_frame_errors(frames: &Vec<FrameReport>) -> (r: u128)
    ensures
        r == frame_error_count(frames@),
        r <= usize::MAX * usize::MAX,
{
    let mut count: u128 = 0;
    let mut i: usize = 0;
    while i < frames.len()
        invariant
            i <= frames.len(),
            count == frame_error_count(frames@.take(i as int)),
            count <= i * usize::MAX,
        decreases frames@.len() - i,
    {
        proof {
            assert(frames@.take(i + 1).drop_last() =~= frames@.take(i as int));
            lemma_product_step(i as nat, frames.len() as nat);
        }
        count += frames[i].errors.len() as u128;
        i += 1;
    }
    proof {
        assert(frames@.take(frames@.len() as int) =~= frames@);
        assert(i * usize::MAX <= usize::MAX * usize::MAX) by (nonlinear_arith)
            requires
                i <= usize::MAX,
        ;
    }
    count
}

fn count_frame_warnings(frames: &Vec<FrameReport>) -> (r: u128)
    ensures
        r == frame_warning_count(frames@),
        r <= usize::MAX * usize::MAX,
{
    let mut count: u128 = 0;
    let mut i: usize = 0;
    while i < frames.len()
        invariant
            i <= frames.len(),
            count == frame_warning_count(frames@.take(i as int)),
            count <= i * usize::MAX,
        decreases frames@.len() - i,
    {
        proof {
            assert(frames@.take(i + 1).drop_last() =~= frames@.take(i as int));
            lemma_product_step(i as nat, frames.len() as nat);
        }
        count += frames[i].warnings.len() as u128;
        i += 1;
    }
    proof {
        assert(frames@.take(frames@.len() as int) =~= frames@);
        assert(i * usize::MAX <= usize::MAX * usize::MAX) by (nonlinear_arith)
            requires
                i <= usize::MAX,
        ;
    }
    count
}

impl CheckOutput {
    /// How many errors there are.
    pub fn error_count(&self) -> (r: u128)
        ensures
            r == errors_of(*self),
    {
        proof {
            lemma_product_step(0, 1);
        }
        let own: u128 = self.file_errors.len() as u128;
        match &self.frames {
            Some(frames) => own + count_frame_errors(&frames.frames),
            None => own,
        }
    }

    /// How many warnings there are.
    pub fn warning_count(&self) -> (r: u128)
        ensures
            r == warnings_of(*self),
    {
        proof {
            lemma_product_step(0, 1);
        }
        let own: u128 = self.file_warnings.len() as u128;
        let global: u128 = match &self.exif {
            Some(exif) => exif.warnings.len() as u128,
            None => 0,
        };
        match &self.frames {
            Some(frames) => (own + global + frames.warnings.len() as u128).saturating_add(
                count_frame_warnings(&frames.frames),
            ),
            None => own + global,
        }
    }
}

/// Whether a check passed: there are no errors.
pub fn check_passed(output: &CheckOutput) -> (r: bool)
    ensures
        r == (errors_of(*output) == 0),
{
    output.error_count() == 0
}

// ---------------------------------------------------------------------------
// Rendering
// ---------------------------------------------------------------------------
/// What the report says of the file itself.
pub open spec fn file_group(output: CheckOutput, first: bool) -> Seq<Mark> {
    spaced_heading(first, "file"@) + (match output.metadata_path {
        Some(path) => plain("metadata file: "@) + painted(Tone::Green, "found "@ + path.text@)
            + plain("\n"@),
        None => plain("metadata file: skipped\n"@),
    }) + (if output.yaml_ok {
        plain("YAML format: "@) + painted(Tone::Green, "ok"@) + plain("\n"@)
    } else {
        plain("YAML format: skipped\n"@)
    }) + warning_lines(texts(output.file_warnings@)) + error_lines(texts(output.file_errors@))
}

/// Appends the part on the file.
pub fn append_check_file_group(output: &mut Styled, first_group: &mut bool, report: &CheckOutput)
    ensures
        final(output)@ == old(output)@ + file_group(*report, *old(first_group)),
        !*final(first_group),
{
    append_spaced_check_heading(output, first_group, "file");
    match &report.metadata_path {
        Some(path) => {
            let mut found = "found ".to_owned();
            found.push_str(path.text.as_str());
            output.push("metadata file: ");
            output.push_painted(Tone::Green, found.as_str());
            output.push("\n");
        },
        None => {
            output.push("metadata file: skipped\n");
        },
    }
    if report.yaml_ok {
        output.push("YAML format: ");
        output.push_painted(Tone::Green, "ok");
        output.push("\n");
    } else {
        output.push("YAML format: skipped\n");
    }
    append_warnings(output, &report.file_warnings);
    append_errors(output, &report.file_errors);
    proof {
        assert(output@ =~= old(output)@ + file_group(*report, *old(first_group)));
    }
}

/// How many tags there are of each sort.
pub open spec fn count_lines(counts: Counts) -> Seq<Mark> {
    plain("standard tags: "@ + decimal(counts.standard) + "\n"@) + plain(
        "unknown tags: "@ + decimal(counts.unknown) + "\n"@,
    )
}

/// Appends how many tags there are.
pub fn append_check_tag_counts(output: &mut Styled, counts: &TagCounts)
    ensures
        final(output)@ == old(output)@ + count_lines(counts@),
{
    let mut standard = "standard tags: ".to_owned();
    standard.push_str(decimal_text(counts.standard).as_str());
    standard.push_str("\n");
    let mut unknown = "unknown tags: ".to_owned();
    unknown.push_str(decimal_text(counts.unknown).as_str());
    unknown.push_str("\n");
    output.push(standard.as_str());
    output.push(unknown.as_str());
    proof {
        assert(output@ =~= old(output)@ + count_lines(counts@));
    }
}

/// What the report says of the global tags.
pub open spec fn exif_group(output: CheckOutput, first: bool) -> Seq<Mark> {
    spaced_heading(first, "exif"@) + (match output.exif {
        Some(exif) => count_lines(exif.tags@) + warning_lines(texts(exif.warnings@)),
        None => plain("skipped\n"@),
    })
}

/// Appends the part on the global tags.
pub fn append_check_exif_group(output: &mut Styled, first_group: &mut bool, report: &CheckOutput)
    ensures
        final(output)@ == old(output)@ + exif_group(*report, *old(first_group)),
        !*final(first_group),
{
    append_spaced_check_heading(output, first_group, "exif");
    match &report.exif {
        Some(exif) => {
            append_check_tag_counts(output, &exif.tags);
            append_warnings(output, &exif.warnings);
        },
        None => {
            output.push("skipped\n");
        },
    }
    proof {
        assert(output@ =~= old(output)@ + exif_group(*report, *old(first_group)));
    }
}

/// The title of a frame: its key, and for a numbered frame the image that it
/// stands for.
pub open spec fn frame_title(frame: FrameReport) -> Seq<char> {
    if frame.is_numeric {
        match frame.file {
            Some(file) => name_of(file) + " ← "@ + frame.key@,
            None => "frame "@ + frame.key@,
        }
    } else {
        frame.key@
    }
}

/// The title of the part on a frame.
pub fn check_frame_title(frame: &FrameReport) -> (r: String)
    ensures
        r@ == frame_title(*frame),
{
    if frame.is_numeric {
        match &frame.file {
            Some(file) => {
                let mut title = file_name(file);
                title.push_str(" ← ");
                title.push_str(frame.key.as_str());
                title
            },
            None => {
                let mut title = "frame ".to_owned();
                title.push_str(frame.key.as_str());
                title
            },
        }
    } else {
        frame.key.clone()
    }
}

/// A place that was found.
pub open spec fn location_marks(found: MatchView) -> Seq<Mark> {
    plain("location: "@) + painted(Tone::Green, "match found"@) + plain(
        " ["@ + found.name + ", "@ + found.country_code + " ("@ + found.latitude + ", "@
            + found.longitude + ")]"@,
    )
}

/// Says which place a name stands for.
pub fn format_location_match(found: &LocationMatch) -> (r: Styled)
    ensures
        r@ == location_marks(found@),
{
    let mut r = Styled::of("location: ");
    r.push_painted(Tone::Green, "match found");
    let mut text = " [".to_owned();
    text.push_str(found.name.as_str());
    text.push_str(", ");
    text.push_str(found.country_code.as_str());
    text.push_str(" (");
    text.push_str(found.latitude.as_str());
    text.push_str(", ");
    text.push_str(found.longitude.as_str());
    text.push_str(")]");
    r.push(text.as_str());
    r
}

pub open spec fn location_lines(matches: Seq<MatchView>) -> Seq<Mark>
    decreases matches.len(),
{
    if matches.len() == 0 {
        Seq::empty()
    } else {
        location_lines(matches.drop_last()) + location_marks(matches.last()) + plain("\n"@)
    }
}

fn append_locations(output: &mut Styled, matches: &Vec<LocationMatch>)
    ensures
        final(output)@ == old(output)@ + location_lines(match_views(matches@)),
{
    let ghost all = match_views(matches@);
    let mut i: usize = 0;
    proof {
        assert(output@ + Seq::<Mark>::empty() =~= output@);
    }
    while i < matches.len()
        invariant
            i <= matches@.len(),
            all == match_views(matches@),
            output@ == old(output)@ + location_lines(all.take(i as int)),
        decreases matches@.len() - i,
    {
        proof {
            assert(all.take(i + 1).drop_last() =~= all.take(i as int));
        }
        output.append(format_location_match(&matches[i]));
        output.push("\n");
        i += 1;
        proof {
            assert(output@ =~= old(output)@ + location_lines(all.take(i as int)));
        }
    }
    proof {
        assert(all.take(all.len() as int) =~= all);
    }
}

/// What the report says of one frame.
pub open spec fn frame_block(frame: FrameReport) -> Seq<Mark> {
    painted(Tone::BrightCyan, frame_title(frame)) + plain("\n"@) + count_lines(frame.tags@)
        + location_lines(match_views(frame.location_matches@)) + warning_lines(
        texts(frame.warnings@),
    ) + error_lines(texts(frame.errors@))
}

pub open spec fn frame_blocks(frames: Seq<FrameReport>) -> Seq<Mark>
    decreases frames.len(),
{
    if frames.len() == 0 {
        Seq::empty()
    } else {
        frame_blocks(frames.drop_last()) + frame_block(frames.last())
    }
}

/// What the report says of the frames.
pub open spec fn frames_group(output: CheckOutput, first: bool) -> Seq<Mark> {
    spaced_heading(first, "frames"@) + (match output.frames {
        Some(frames) => if frames.frames@.len() == 0 {
            plain("skipped\n"@)
        } else {
            (if frames.frame_number_count > 0 {
                plain("frame numbers: "@ + decimal(frames.frame_number_count as nat) + "\n"@)
                    + plain("files: "@ + decimal(frames.file_count as nat) + "\n"@) + warning_lines(
                    texts(frames.warnings@),
                )
            } else {
                Seq::empty()
            }) + frame_blocks(frames.frames@)
        },
        None => plain("skipped\n"@),
    })
}

fn append_frame(output: &mut Styled, frame: &FrameReport)
    ensures
        final(output)@ == old(output)@ + frame_block(*frame),
{
    output.push_painted(Tone::BrightCyan, check_frame_title(frame).as_str());
    output.push("\n");
    append_check_tag_counts(output, &frame.tags);
    append_locations(output, &frame.location_matches);
    append_warnings(output, &frame.warnings);
    append_errors(output, &frame.errors);
    proof {
        assert(output@ =~= old(output)@ + frame_block(*frame));
    }
}

fn append_frames(output: &mut Styled, frames: &Vec<FrameReport>)
    ensures
        final(output)@ == old(output)@ + frame_blocks(frames@),
{
    let mut i: usize = 0;
    proof {
        assert(output@ + Seq::<Mark>::empty() =~= output@);
    }
    while i < frames.len()
        invariant
            i <= frames@.len(),
            output@ == old(output)@ + frame_blocks(frames@.take(i as int)),
        decreases frames@.len() - i,
    {
        proof {
            assert(frames@.take(i + 1).drop_last() =~= frames@.take(i as int));
        }
        append_frame(output, &frames[i]);
        i += 1;
        proof {
            assert(output@ =~= old(output)@ + frame_blocks(frames@.take(i as int)));
        }
    }
    proof {
        assert(frames@.take(frames@.len() as int) =~= frames@);
    }
}

/// Appends the part on the frames.
pub fn append_check_frames_group(output: &mut Styled, first_group: &mut bool, report: &CheckOutput)
    ensures
        final(output)@ == old(output)@ + frames_group(*report, *old(first_group)),
        !*final(first_group),
{
    append_spaced_check_heading(output, first_group, "frames");
    match &report.frames {
        Some(frames) => {
            if frames.frames.len() == 0 {
                output.push("skipped\n");
            } else {
                if frames.frame_number_count > 0 {
                    let mut numbers = "frame numbers: ".to_owned();
                    numbers.push_str(decimal_text(frames.frame_number_count as u128).as_str());
                    numbers.push_str("\n");
                    let mut files = "files: ".to_owned();
                    files.push_str(decimal_text(frames.file_count as u128).as_str());
                    files.push_str("\n");
                    output.push(numbers.as_str());
                    output.push(files.as_str());
                    append_warnings(output, &frames.warnings);
                }
                append_frames(output, &frames.frames);
            }
        },
        None => {
            output.push("skipped\n");
        },
    }
    proof {
        assert(output@ =~= old(output)@ + frames_group(*report, *old(first_group)));
    }
}

/// What the report says in the end.
pub open spec fn overview_group(errors: nat, warnings: nat, first: bool) -> Seq<Mark> {
    spaced_heading(first, "overview"@) + plain("errors      "@) + count_marks(errors, Tone::Red)
        + plain("\n"@) + plain("warnings    "@) + count_marks(warnings, Tone::Yellow) + plain(
        "\n"@,
    ) + plain("validation: "@) + (if errors > 0 {
        painted(Tone::Red, "error"@) + plain("\n"@)
    } else if warnings > 0 {
        painted(Tone::Green, "success"@) + plain(" (with warnings)\n"@)
    } else {
        painted(Tone::Green, "success"@) + plain("\n"@)
    })
}

/// Appends the closing part.
pub fn append_check_overview_group(
    output: &mut Styled,
    first_group: &mut bool,
    report: &CheckOutput,
)
    ensures
        final(output)@ == old(output)@ + overview_group(
            errors_of(*report),
            warnings_of(*report),
            *old(first_group),
        ),
        !*final(first_group),
{
    append_spaced_check_heading(output, first_group, "overview");
    let errors: u128 = report.error_count();
    let warnings: u128 = report.warning_count();
    output.push("errors      ");
    output.append(format_check_error_count(errors));
    output.push("\n");
    output.push("warnings    ");
    output.append(format_check_warning_count(warnings));
    output.push("\n");
    output.push("validation: ");
    if errors > 0 {
        output.push_painted(Tone::Red, "error");
        output.push("\n");
    } else if warnings > 0 {
        output.push_painted(Tone::Green, "success");
        output.push(" (with warnings)\n");
    } else {
        output.push_painted(Tone::Green, "success");
        output.push("\n");
    }
    proof {
        assert(output@ =~= old(output)@ + overview_group(
            errors_of(*report),
            warnings_of(*report),
            *old(first_group),
        ));
    }
}

/// The whole report: on the file, its global tags, its frames, and in the end.
pub open spec fn check_marks(output: CheckOutput) -> Seq<Mark> {
    file_group(output, true) + exif_group(output, false) + frames_group(output, false)
        + overview_group(errors_of(output), warnings_of(output), false)
}

/// The whole report of a check.
pub fn format_check_output(output: &CheckOutput) -> (r: Styled)
    ensures
        r@ == check_marks(*output),
{
    let mut rendered = Styled::new();
    let mut first_group = true;
    append_check_file_group(&mut rendered, &mut first_group, output);
    append_check_exif_group(&mut rendered, &mut first_group, output);
    append_check_frames_group(&mut rendered, &mut first_group, output);
    append_check_overview_group(&mut rendered, &mut first_group, output);
    proof {
        assert(rendered@ =~= check_marks(*output));
    }
    rendered
}

} // verus!
