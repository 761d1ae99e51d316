//! The run of a write over all its images, and its report.

use crate::check::{check_metadata_file, structure_error, FrameSurroundings};
use crate::check_output::MetadataRead;
use crate::cli::WriteArgs;
use crate::double::{duration_text, format_write_duration};
use crate::metadata_path::MetadataPathResolution;
use crate::path::{name_of, write_file_heading, FilePath};
use crate::plan::{
    build_write_plan, file_views, frame_at, image_plan, is_plan_of, plan_error, write_views,
    FrameFile, WritePlan, WriteTag,
};
use crate::report::{
    append_errors, append_overview_count, append_spaced_check_heading, append_status_row,
    append_warnings, append_write_file_path, append_write_frame_subtitle, append_write_overview_row,
    error_lines, format_check_warning, overview_row, path_line, spaced_heading, status_row,
    subtitle, warning_lines, warning_marks,
};
use crate::strip::{is_mode_of, options_error, StripMode};
use crate::style::{painted, plain, Mark, Styled, Tone};
use crate::text::{decimal, decimal_text, texts};
use crate::write_run::{WriteFileResult, WriteView};
use crate::yaml::{mapping_of, yaml_contents};
use vstd::prelude::*;

verus! {

/// What all images of a write add up to. The counts stop at the largest machine
/// number.
#[derive(Debug)]
pub struct WriteSummary {
    pub written_tags: u128,
    pub stripped_files: u128,
    pub removed_tags: u128,
    pub skipped_tags: u128,
    pub skipped_files: u128,
    pub warnings: u128,
    pub errors: u128,
    pub elapsed_ms: u64,
}

/// The sums of a summary.
pub struct WriteTotals {
    pub written_tags: nat,
    pub stripped_files: nat,
    pub removed_tags: nat,
    pub skipped_tags: nat,
    pub skipped_files: nat,
    pub warnings: nat,
    pub errors: nat,
}

/// A count that stops at the largest machine number.
pub open spec fn stopped(count: nat) -> nat {
    if count <= u128::MAX {
        count
    } else {
        u128::MAX as nat
    }
}

impl WriteTotals {
    /// The sums with one more image.
    pub open spec fn plus(self, result: WriteView) -> WriteTotals {
        WriteTotals {
            written_tags: self.written_tags + result.written,
            stripped_files: self.stripped_files + (if result.stripped {
                1nat
            } else {
                0
            }),
            removed_tags: self.removed_tags + result.removed_tags,
            skipped_tags: self.skipped_tags + result.skipped.len(),
            warnings: self.warnings + (result.warnings.len() + result.skipped.len()),
            errors: self.errors + result.errors.len(),
            ..self
        }
    }
}

impl WriteSummary {
    /// Whether the counts are these sums.
    pub open spec fn counts(&self, totals: WriteTotals) -> bool {
        &&& self.written_tags == stopped(totals.written_tags)
        &&& self.stripped_files == stopped(totals.stripped_files)
        &&& self.removed_tags == stopped(totals.removed_tags)
        &&& self.skipped_tags == stopped(totals.skipped_tags)
        &&& self.skipped_files == stopped(totals.skipped_files)
        &&& self.warnings == stopped(totals.warnings)
        &&& self.errors == stopped(totals.errors)
    }

    /// The counts as sums.
    pub open spec fn totals(&self) -> WriteTotals {
        WriteTotals {
            written_tags: self.written_tags as nat,
            stripped_files: self.stripped_files as nat,
            removed_tags: self.removed_tags as nat,
            skipped_tags: self.skipped_tags as nat,
            skipped_files: self.skipped_files as nat,
            warnings: self.warnings as nat,
            errors: self.errors as nat,
        }
    }

    /// Adds what was done to an image.
    pub fn add(&mut self, result: &WriteFileResult)
        ensures
            final(self).counts(old(self).totals().plus(result@)),
            final(self).elapsed_ms == old(self).elapsed_ms,
    {
        proof {
            assert(texts(result.warnings@).len() == result.warnings@.len());
            assert(texts(result.errors@).len() == result.errors@.len());
            assert(texts(result.skipped@).len() == result.skipped@.len());
        }
        self.written_tags = self.written_tags.saturating_add(result.written);
        if result.stripped {
            self.stripped_files = self.stripped_files.saturating_add(1);
        }
        self.removed_tags = self.removed_tags.saturating_add(result.removed_tags as u128);
        self.skipped_tags = self.skipped_tags.saturating_add(result.skipped.len() as u128);
        let said: u128 = result.warnings.len() as u128 + result.skipped.len() as u128;
        self.warnings = self.warnings.saturating_add(said);
        self.errors = self.errors.saturating_add(result.errors.len() as u128);
    }
}

impl Default for WriteSummary {
    fn default() -> (r: WriteSummary)
        ensures
            r.written_tags == 0,
            r.stripped_files == 0,
            r.removed_tags == 0,
            r.skipped_tags == 0,
            r.skipped_files == 0,
            r.warnings == 0,
            r.errors == 0,
            r.elapsed_ms == 0,
    {
        WriteSummary {
            written_tags: 0,
            stripped_files: 0,
            removed_tags: 0,
            skipped_tags: 0,
            skipped_files: 0,
            warnings: 0,
            errors: 0,
            elapsed_ms: 0,
        }
    }
}

/// A write: what it is done with, and the images it has been done on.
#[derive(Debug)]
pub struct WriteOutput {
    pub metadata_path: FilePath,
    pub dry_run: bool,
    pub target_count: usize,
    pub file_warnings: Vec<String>,
    pub files: Vec<WriteFileOutput>,
    pub skipped_files: Vec<FilePath>,
}

/// The write to one image.
#[derive(Debug)]
pub struct WriteFileOutput {
    pub label: String,
    pub image: FilePath,
    pub result: WriteFileResult,
    pub elapsed_ms: u64,
    pub dry_run: bool,
}

/// What the images of a write add up to.
pub open spec fn file_totals(files: Seq<WriteFileOutput>, start: WriteTotals) -> WriteTotals
    decreases files.len(),
{
    if files.len() == 0 {
        start
    } else {
        file_totals(files.drop_last(), start).plus(files.last().result@)
    }
}

/// What a write adds up to: the warnings about its metadata file, the images
/// that were skipped, and those that were not.
pub open spec fn write_totals(output: WriteOutput) -> WriteTotals {
    file_totals(
        output.files@,
        WriteTotals {
            written_tags: 0,
            stripped_files: 0,
            removed_tags: 0,
            skipped_tags: 0,
            skipped_files: output.skipped_files@.len(),
            warnings: output.file_warnings@.len(),
            errors: 0,
        },
    )
}

// ---------------------------------------------------------------------------
// The run
// ---------------------------------------------------------------------------
/// A write under way.
#[derive(Debug)]
pub struct WriteRun {
    pub plan: WritePlan,
    pub strip_mode: Option<StripMode>,
    pub output: WriteOutput,
    pub summary: WriteSummary,
}

impl WriteRun {
    /// The counts are those of the images done.
    pub open spec fn wf(&self) -> bool {
        self.summary.counts(write_totals(self.output))
    }
}

/// What a write is to be done with. Where one of these could not be found out
/// because an earlier one failed, it is not looked at.
pub struct WriteInputs {
    pub resolution: Result<MetadataPathResolution, String>,
    pub targets: Result<Vec<FilePath>, String>,
    pub read: MetadataRead,
    pub surroundings: FrameSurroundings,
    pub files: Vec<FrameFile>,
}

/// Why a write cannot start, if so. Bad options come first, then the metadata
/// file that was not found, the targets, and what is wrong with the metadata.
pub open spec fn write_error(args: WriteArgs, inputs: WriteInputs) -> Option<Seq<char>> {
    match options_error(args.strip, texts(args.keep@), texts(args.remove@), args.privacy) {
        Some(error) => Some(error),
        None => match inputs.resolution {
            Err(error) => Some(error@),
            Ok(found) => match inputs.targets {
                Err(error) => Some(error@),
                Ok(targets) => if targets@.len() == 0 {
                    Some("no target images matched"@)
                } else {
                    match inputs.read {
                        MetadataRead::Unreadable(error) => Some(
                            "failed to read "@ + found.path.text@ + ": "@ + error@,
                        ),
                        MetadataRead::Invalid(error) => Some(
                            "failed to parse "@ + found.path.text@ + ": "@ + error@,
                        ),
                        MetadataRead::Document(yaml) => match structure_error(
                            yaml_contents(yaml),
                            inputs.surroundings,
                        ) {
                            Some(error) => Some(error),
                            None => plan_error(
                                yaml_contents(yaml),
                                file_views(inputs.files@),
                                targets@,
                            ),
                        },
                    }
                },
            },
        },
    }
}

/// Whether a run is the start of the write that is asked for.
pub open spec fn is_write_start(
    run: WriteRun,
    args: WriteArgs,
    dry_run: bool,
    inputs: WriteInputs,
) -> bool {
    let found = inputs.resolution->Ok_0;
    let targets = inputs.targets->Ok_0;
    let yaml = yaml_contents(inputs.read->Document_0);
    &&& match run.strip_mode {
        Some(mode) => is_mode_of(
            mode,
            args.strip,
            texts(args.keep@),
            texts(args.remove@),
            args.privacy,
        ),
        None => !args.strip && args.keep@.len() == 0 && args.remove@.len() == 0 && !args.privacy,
    }
    &&& is_plan_of(run.plan, mapping_of(yaml)->Some_0, file_views(inputs.files@), targets@)
    &&& run.output.metadata_path == found.path
    &&& run.output.dry_run == dry_run
    &&& run.output.target_count == targets@.len()
    &&& run.output.file_warnings == found.warnings
    &&& run.output.files@.len() == 0
    &&& run.output.skipped_files@.len() == 0
    &&& run.summary.elapsed_ms == 0
    &&& run.wf()
}

/// Starts a write.
pub fn write_command(args: &WriteArgs, dry_run: bool, inputs: WriteInputs) -> (r: Result<
    WriteRun,
    String,
>)
    ensures
        match r {
            Ok(run) => write_error(*args, inputs) is None && is_write_start(
                run,
                *args,
                dry_run,
                inputs,
            ),
            Err(error) => write_error(*args, inputs) == Some(error@),
        },
{
    let strip_mode = match StripMode::from_write_args(args) {
        Ok(mode) => mode,
        Err(error) => return Err(error),
    };
    let found = match inputs.resolution {
        Ok(found) => found,
        Err(error) => return Err(error),
    };
    let targets = match inputs.targets {
        Ok(targets) => targets,
        Err(error) => return Err(error),
    };
    if targets.len() == 0 {
        return Err("no target images matched".to_owned());
    }
    let yaml = match inputs.read {
        MetadataRead::Document(yaml) => yaml,
        MetadataRead::Unreadable(message) => {
            let mut error = "failed to read ".to_owned();
            error.push_str(found.path.text.as_str());
            error.push_str(": ");
            error.push_str(message.as_str());
            return Err(error);
        },
        MetadataRead::Invalid(message) => {
            let mut error = "failed to parse ".to_owned();
            error.push_str(found.path.text.as_str());
            error.push_str(": ");
            error.push_str(message.as_str());
            return Err(error);
        },
    };
    match check_metadata_file(&yaml, &inputs.surroundings) {
        Ok(_) => {},
        Err(error) => return Err(error),
    }
    let plan = match build_write_plan(&yaml, &inputs.files, &targets) {
        Ok(plan) => plan,
        Err(error) => return Err(error),
    };
    let warned: u128 = found.warnings.len() as u128;
    let output = WriteOutput {
        metadata_path: found.path,
        dry_run,
        target_count: targets.len(),
        file_warnings: found.warnings,
        files: Vec::new(),
        skipped_files: Vec::new(),
    };
    let mut summary = WriteSummary::default();
    summary.warnings = warned;
    Ok(WriteRun { plan, strip_mode, output, summary })
}

/// What is done with an image: tags are written to it, or it is skipped.
pub enum ImageStep {
    Write(WriteFileOutput, Vec<WriteTag>),
    Skipped,
}

proof fn lemma_skip_totals(files: Seq<WriteFileOutput>, start: WriteTotals, more: WriteTotals)
    requires
        more == (WriteTotals { skipped_files: start.skipped_files + 1, ..start }),
    ensures
        file_totals(files, more) == (WriteTotals {
            skipped_files: file_totals(files, start).skipped_files + 1,
            ..file_totals(files, start)
        }),
    decreases files.len(),
{
    if files.len() > 0 {
        lemma_skip_totals(files.drop_last(), start, more);
    }
}

impl WriteRun {
    /// Takes up the next image: what is planned for it, or that it is skipped
    /// because nothing is.
    pub fn take_image(&mut self, image: FilePath) -> (r: ImageStep)
        requires
            old(self).wf(),
        ensures
            final(self).wf(),
            final(self).plan == old(self).plan,
            final(self).strip_mode == old(self).strip_mode,
            final(self).output.metadata_path == old(self).output.metadata_path,
            final(self).output.dry_run == old(self).output.dry_run,
            final(self).output.target_count == old(self).output.target_count,
            final(self).output.file_warnings == old(self).output.file_warnings,
            final(self).output.files == old(self).output.files,
            final(self).summary.elapsed_ms == old(self).summary.elapsed_ms,
            match image_plan(
                write_views(old(self).plan.global@),
                frame_at(old(self).plan.frames@, image.identity@),
                name_of(image),
            ) {
                Some(plan) => {
                    &&& r matches ImageStep::Write(file, tags)
                    &&& file.label@ == plan.label
                    &&& file.image == image
                    &&& file.result@ == crate::write_run::no_write()
                    &&& file.elapsed_ms == 0
                    &&& file.dry_run == old(self).output.dry_run
                    &&& write_views(tags@) == plan.tags
                    &&& final(self).output.skipped_files@ == old(self).output.skipped_files@
                },
                None => {
                    &&& r is Skipped
                    &&& final(self).output.skipped_files@ == old(self).output.skipped_files@.push(
                        image,
                    )
                },
            },
    {
        match self.plan.frame_for_image(&image) {
            Some(frame) => {
                let file = WriteFileOutput {
                    label: frame.label,
                    image,
                    result: WriteFileResult::default(),
                    elapsed_ms: 0,
                    dry_run: self.output.dry_run,
                };
                ImageStep::Write(file, frame.tags)
            },
            None => {
                proof {
                    let start = WriteTotals {
                        written_tags: 0,
                        stripped_files: 0,
                        removed_tags: 0,
                        skipped_tags: 0,
                        skipped_files: self.output.skipped_files@.len(),
                        warnings: self.output.file_warnings@.len(),
                        errors: 0,
                    };
                    lemma_skip_totals(
                        self.output.files@,
                        start,
                        WriteTotals { skipped_files: start.skipped_files + 1, ..start },
                    );
                }
                self.summary.skipped_files = self.summary.skipped_files.saturating_add(1);
                self.output.skipped_files.push(image);
                ImageStep::Skipped
            },
        }
    }

    /// Files the write to an image with the others.
    pub fn record(&mut self, file: WriteFileOutput)
        requires
            old(self).wf(),
        ensures
            final(self).wf(),
            final(self).output.files@ == old(self).output.files@.push(file),
            final(self).plan == old(self).plan,
            final(self).strip_mode == old(self).strip_mode,
            final(self).output.metadata_path == old(self).output.metadata_path,
            final(self).output.dry_run == old(self).output.dry_run,
            final(self).output.target_count == old(self).output.target_count,
            final(self).output.file_warnings == old(self).output.file_warnings,
            final(self).output.skipped_files == old(self).output.skipped_files,
            final(self).summary.elapsed_ms == old(self).summary.elapsed_ms,
    {
        proof {
            let files = self.output.files@;
            assert(files.push(file).drop_last() =~= files);
        }
        self.summary.add(&file.result);
        self.output.files.push(file);
    }

    /// How the write ended: it failed where an image has errors.
    pub fn outcome(&self) -> (r: Result<(), String>)
        ensures
            match r {
                Ok(_) => self.summary.errors == 0,
                Err(error) => self.summary.errors > 0 && error@
                    == "one or more target images failed"@,
            },
    {
        if self.summary.errors > 0 {
            Err("one or more target images failed".to_owned())
        } else {
            Ok(())
        }
    }
}

// ---------------------------------------------------------------------------
// The report
// ---------------------------------------------------------------------------
/// What the report says first.
pub open spec fn write_heading(first_group: bool, output: WriteOutput) -> Seq<Mark> {
    spaced_heading(first_group, "write"@) + plain(
        "metadata file: "@ + output.metadata_path.text@ + "\n"@,
    ) + plain("targets: "@ + decimal(output.target_count as nat) + "\n"@) + (if output.dry_run {
        plain("mode: "@) + painted(Tone::Yellow, "dry-run"@) + plain("\n"@)
    } else {
        Seq::empty()
    }) + warning_lines(texts(output.file_warnings@))
}

/// Appends the opening part.
pub fn append_write_metadata_group(
    rendered: &mut Styled,
    first_group: &mut bool,
    output: &WriteOutput,
)
    ensures
        final(rendered)@ == old(rendered)@ + write_heading(*old(first_group), *output),
        !*final(first_group),
{
    append_spaced_check_heading(rendered, first_group, "write");
    let mut path = "metadata file: ".to_owned();
    path.push_str(output.metadata_path.text.as_str());
    path.push_str("\n");
    rendered.push(path.as_str());
    let mut targets = "targets: ".to_owned();
    targets.push_str(decimal_text(output.target_count as u128).as_str());
    targets.push_str("\n");
    rendered.push(targets.as_str());
    if output.dry_run {
        rendered.push("mode: ");
        rendered.push_painted(Tone::Yellow, "dry-run");
        rendered.push("\n");
    }
    append_warnings(rendered, &output.file_warnings);
    proof {
        assert(rendered@ =~= old(rendered)@ + write_heading(*old(first_group), *output));
    }
}

/// The opening part.
pub fn format_write_metadata_output(output: &WriteOutput) -> (r: Styled)
    ensures
        r@ == write_heading(true, *output),
{
    let mut rendered = Styled::new();
    let mut first_group = true;
    append_write_metadata_group(&mut rendered, &mut first_group, output);
    proof {
        assert(rendered@ =~= write_heading(true, *output));
    }
    rendered
}

/// The heading of the images.
pub fn format_write_frames_heading() -> (r: Styled)
    ensures
        r@ == spaced_heading(false, "frames"@),
{
    let mut rendered = Styled::new();
    let mut first_group = false;
    append_spaced_check_heading(&mut rendered, &mut first_group, "frames");
    proof {
        assert(rendered@ =~= spaced_heading(false, "frames"@));
    }
    rendered
}

/// What the report says of an image before it is written to.
pub open spec fn write_file_header(file: WriteFileOutput) -> Seq<Mark> {
    subtitle(file.label@) + path_line(file.image)
}

/// Appends which image it is.
pub fn append_write_file_header(rendered: &mut Styled, file: &WriteFileOutput)
    ensures
        final(rendered)@ == old(rendered)@ + write_file_header(*file),
{
    append_write_frame_subtitle(rendered, file.label.as_str());
    append_write_file_path(rendered, &file.image);
    proof {
        assert(rendered@ =~= old(rendered)@ + write_file_header(*file));
    }
}

/// One line for each tag that was skipped.
pub open spec fn skip_lines(skipped: Seq<Seq<char>>) -> Seq<Mark>
    decreases skipped.len(),
{
    if skipped.len() == 0 {
        Seq::empty()
    } else {
        skip_lines(skipped.drop_last()) + warning_marks("skipped "@ + skipped.last()) + plain(
            "\n"@,
        )
    }
}

fn append_skipped(output: &mut Styled, skipped: &Vec<String>)
    ensures
        final(output)@ == old(output)@ + skip_lines(texts(skipped@)),
{
    let ghost all = texts(skipped@);
    let mut i: usize = 0;
    proof {
        assert(output@ + Seq::<Mark>::empty() =~= output@);
    }
    while i < skipped.len()
        invariant
            i <= skipped@.len(),
            all == texts(skipped@),
            output@ == old(output)@ + skip_lines(all.take(i as int)),
        decreases skipped@.len() - i,
    {
        proof {
            assert(all.take(i + 1).drop_last() =~= all.take(i as int));
        }
        let mut text = "skipped ".to_owned();
        text.push_str(skipped[i].as_str());
        output.append(format_check_warning(text.as_str()));
        output.push("\n");
        i += 1;
        proof {
            assert(output@ =~= old(output)@ + skip_lines(all.take(i as int)));
        }
    }
    proof {
        assert(all.take(all.len() as int) =~= all);
    }
}

/// What the report says of an image that was written to.
pub open spec fn write_file_result(file: WriteFileOutput) -> Seq<Mark> {
    (if file.result.strip_attempted {
        plain(
            (if file.dry_run {
                "would strip EXIF"@
            } else {
                "stripped EXIF"@
            }) + ": "@ + decimal(file.result.removed_tags as nat) + " tags\n"@,
        )
    } else {
        Seq::empty()
    }) + plain(
        (if file.dry_run {
            "would write"@
        } else {
            "wrote"@
        }) + " "@ + decimal(file.result.written as nat) + " tags\n"@,
    ) + plain("took "@ + duration_text(file.elapsed_ms as nat) + "\n"@) + skip_lines(
        texts(file.result.skipped@),
    ) + warning_lines(texts(file.result.warnings@)) + error_lines(texts(file.result.errors@))
}

/// Appends what was done to an image.
pub fn append_write_file_result(rendered: &mut Styled, file: &WriteFileOutput)
    ensures
        final(rendered)@ == old(rendered)@ + write_file_result(*file),
{
    if file.result.strip_attempted {
        let mut stripped = (if file.dry_run {
            "would strip EXIF"
        } else {
            "stripped EXIF"
        }).to_owned();
        stripped.push_str(": ");
        stripped.push_str(decimal_text(file.result.removed_tags as u128).as_str());
        stripped.push_str(" tags\n");
        rendered.push(stripped.as_str());
    }
    let mut written = (if file.dry_run {
        "would write"
    } else {
        "wrote"
    }).to_owned();
    written.push_str(" ");
    written.push_str(decimal_text(file.result.written).as_str());
    written.push_str(" tags\n");
    rendered.push(written.as_str());
    let mut took = "took ".to_owned();
    took.push_str(format_write_duration(file.elapsed_ms).as_str());
    took.push_str("\n");
    rendered.push(took.as_str());
    append_skipped(rendered, &file.result.skipped);
    append_warnings(rendered, &file.result.warnings);
    append_errors(rendered, &file.result.errors);
    proof {
        assert(rendered@ =~= old(rendered)@ + write_file_result(*file));
    }
}

/// Which image it is.
pub fn format_write_file_header_output(file: &WriteFileOutput) -> (r: Styled)
    ensures
        r@ == write_file_header(*file),
{
    let mut rendered = Styled::new();
    append_write_file_header(&mut rendered, file);
    proof {
        assert(rendered@ =~= write_file_header(*file));
    }
    rendered
}

/// What was done to an image.
pub fn format_write_file_result_output(file: &WriteFileOutput) -> (r: Styled)
    ensures
        r@ == write_file_result(*file),
{
    let mut rendered = Styled::new();
    append_write_file_result(&mut rendered, file);
    proof {
        assert(rendered@ =~= write_file_result(*file));
    }
    rendered
}

/// The part on an image.
pub fn format_write_file_output(file: &WriteFileOutput) -> (r: Styled)
    ensures
        r@ == write_file_header(*file) + write_file_result(*file),
{
    let mut rendered = Styled::new();
    append_write_file_header(&mut rendered, file);
    append_write_file_result(&mut rendered, file);
    proof {
        assert(rendered@ =~= write_file_header(*file) + write_file_result(*file));
    }
    rendered
}

/// What the report says of an image that was skipped.
pub open spec fn skipped_file(image: FilePath) -> Seq<Mark> {
    subtitle(name_of(image)) + path_line(image) + plain("skipped: no metadata\n"@)
}

/// Appends that an image was skipped.
pub fn append_write_skipped_file_group(rendered: &mut Styled, image: &FilePath)
    ensures
        final(rendered)@ == old(rendered)@ + skipped_file(*image),
{
    append_write_frame_subtitle(rendered, write_file_heading(image).as_str());
    append_write_file_path(rendered, image);
    rendered.push("skipped: no metadata\n");
    proof {
        assert(rendered@ =~= old(rendered)@ + skipped_file(*image));
    }
}

/// Says that an image was skipped.
pub fn format_write_skipped_file_output(image: &FilePath) -> (r: Styled)
    ensures
        r@ == skipped_file(*image),
{
    let mut rendered = Styled::new();
    append_write_skipped_file_group(&mut rendered, image);
    proof {
        assert(rendered@ =~= skipped_file(*image));
    }
    rendered
}

/// What the report says in the end.
pub open spec fn write_overview(first_group: bool, summary: WriteSummary) -> Seq<Mark> {
    spaced_heading(first_group, "overview"@) + overview_row("errors"@, decimal(summary.errors as nat))
        + overview_row("warnings"@, decimal(summary.warnings as nat)) + overview_row(
        "written"@,
        decimal(summary.written_tags as nat),
    ) + overview_row("stripped"@, decimal(summary.stripped_files as nat)) + overview_row(
        "removed tags"@,
        decimal(summary.removed_tags as nat),
    ) + overview_row("skipped"@, decimal(summary.skipped_tags as nat)) + overview_row(
        "files skipped"@,
        decimal(summary.skipped_files as nat),
    ) + overview_row("took"@, duration_text(summary.elapsed_ms as nat)) + status_row(
        summary.errors as nat,
        summary.warnings as nat,
    )
}

/// Appends the closing part.
pub fn append_write_overview_group(
    rendered: &mut Styled,
    first_group: &mut bool,
    summary: &WriteSummary,
)
    ensures
        final(rendered)@ == old(rendered)@ + write_overview(*old(first_group), *summary),
        !*final(first_group),
{
    append_spaced_check_heading(rendered, first_group, "overview");
    append_overview_count(rendered, "errors", summary.errors);
    append_overview_count(rendered, "warnings", summary.warnings);
    append_overview_count(rendered, "written", summary.written_tags);
    append_overview_count(rendered, "stripped", summary.stripped_files);
    append_overview_count(rendered, "removed tags", summary.removed_tags);
    append_overview_count(rendered, "skipped", summary.skipped_tags);
    append_overview_count(rendered, "files skipped", summary.skipped_files);
    append_write_overview_row(rendered, "took", format_write_duration(summary.elapsed_ms).as_str());
    append_status_row(rendered, summary.errors, summary.warnings);
    proof {
        assert(rendered@ =~= old(rendered)@ + write_overview(*old(first_group), *summary));
    }
}

/// The closing part.
pub fn format_write_overview_output(summary: &WriteSummary) -> (r: Styled)
    ensures
        r@ == write_overview(false, *summary),
{
    let mut rendered = Styled::new();
    let mut first_group = false;
    append_write_overview_group(&mut rendered, &mut first_group, summary);
    proof {
        assert(rendered@ =~= write_overview(false, *summary));
    }
    rendered
}

pub open spec fn write_files(files: Seq<WriteFileOutput>) -> Seq<Mark>
    decreases files.len(),
{
    if files.len() == 0 {
        Seq::empty()
    } else {
        write_files(files.drop_last()) + (write_file_header(files.last()) + write_file_result(
            files.last(),
        ))
    }
}

pub open spec fn skipped_files(images: Seq<FilePath>) -> Seq<Mark>
    decreases images.len(),
{
    if images.len() == 0 {
        Seq::empty()
    } else {
        skipped_files(images.drop_last()) + skipped_file(images.last())
    }
}

/// The whole report.
pub open spec fn write_marks(output: WriteOutput, summary: WriteSummary) -> Seq<Mark> {
    write_heading(true, output) + spaced_heading(false, "frames"@) + write_files(output.files@)
        + skipped_files(output.skipped_files@) + write_overview(false, summary)
}

/// The whole report of a write.
#[verifier::loop_isolation(false)]
pub fn format_write_output(output: &WriteOutput, summary: &WriteSummary) -> (r: Styled)
    ensures
        r@ == write_marks(*output, *summary),
{
    let mut rendered = format_write_metadata_output(output);
    rendered.append(format_write_frames_heading());
    let ghost heading = rendered@;
    let mut i: usize = 0;
    proof {
        assert(heading + Seq::<Mark>::empty() =~= heading);
    }
    while i < output.files.len()
        invariant
            i <= output.files@.len(),
            rendered@ == heading + write_files(output.files@.take(i as int)),
        decreases output.files@.len() - i,
    {
        proof {
            assert(output.files@.take(i + 1).drop_last() =~= output.files@.take(i as int));
        }
        rendered.append(format_write_file_output(&output.files[i]));
        i += 1;
        proof {
            assert(rendered@ =~= heading + write_files(output.files@.take(i as int)));
        }
    }
    let ghost written = rendered@;
    proof {
        assert(output.files@.take(output.files@.len() as int) =~= output.files@);
        assert(written + Seq::<Mark>::empty() =~= written);
    }
    let mut j: usize = 0;
    while j < output.skipped_files.len()
        invariant
            j <= output.skipped_files@.len(),
            rendered@ == written + skipped_files(output.skipped_files@.take(j as int)),
        decreases output.skipped_files@.len() - j,
    {
        proof {
            assert(output.skipped_files@.take(j + 1).drop_last() =~= output.skipped_files@.take(
                j as int,
            ));
        }
        rendered.append(format_write_skipped_file_output(&output.skipped_files[j]));
        j += 1;
        proof {
            assert(rendered@ =~= written + skipped_files(output.skipped_files@.take(j as int)));
        }
    }
    proof {
        assert(output.skipped_files@.take(output.skipped_files@.len() as int)
            =~= output.skipped_files@);
    }
    rendered.append(format_write_overview_output(summary));
    rendered
}

/// The report of an image is its header and its result, whether they are
/// printed at once or one by one.
pub proof fn law_write_report_is_header_and_result(file: WriteFileOutput)
    ensures
        write_files(seq![file]) == write_file_header(file) + write_file_result(file),
{
    reveal_with_fuel(write_files, 2);
    assert(seq![file].drop_last() =~= Seq::<WriteFileOutput>::empty());
    assert(write_files(seq![file]) =~= write_file_header(file) + write_file_result(file));
}

} // verus!
