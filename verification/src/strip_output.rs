//! The run of a strip over all its images, and its report.

use crate::cli::StripArgs;
use crate::double::{duration_text, format_write_duration};
use crate::error::CliError;
use crate::json::{
    capped, json_bool, json_contents, json_count, json_items, json_list, json_object,
    json_rendered, json_set, json_string_of, json_text, json_text_list, json_texts, json_total,
    Json,
};
use crate::path::{name_of, path_to_pattern, pattern_text, write_file_heading, FilePath};
use crate::report::{
    append_errors, append_overview_count, append_spaced_check_heading, append_status_row,
    append_warnings, append_write_file_path, append_write_frame_subtitle, append_write_overview_row,
    error_lines, overview_row, path_line, spaced_heading, status_row, subtitle, warning_lines,
};
use crate::strip::{is_mode_of, mode_name, options_error, StripMode};
use crate::strip_run::{StripFileResult, StripView};
use crate::style::{painted, plain, Mark, Styled, Tone};
use crate::text::{decimal, decimal_text, texts};
use serde_json::Value;
use vstd::prelude::*;

verus! {

/// What all images of a strip add up to.
#[derive(Debug)]
pub struct StripSummary {
    pub stripped_files: u128,
    pub removed_tags: u128,
    pub verified_files: u128,
    pub warnings: u128,
    pub errors: u128,
    pub elapsed_ms: u64,
}

/// The sums of a summary.
pub struct StripTotals {
    pub stripped_files: nat,
    pub removed_tags: nat,
    pub verified_files: nat,
    pub warnings: nat,
    pub errors: nat,
}

impl StripSummary {
    pub open spec fn totals(&self) -> StripTotals {
        StripTotals {
            stripped_files: self.stripped_files as nat,
            removed_tags: self.removed_tags as nat,
            verified_files: self.verified_files as nat,
            warnings: self.warnings as nat,
            errors: self.errors as nat,
        }
    }
}

impl StripTotals {
    /// The sums with one more image.
    pub open spec fn plus(self, result: StripView) -> StripTotals {
        StripTotals {
            stripped_files: self.stripped_files + (if result.stripped {
                1nat
            } else {
                0
            }),
            removed_tags: self.removed_tags + result.removed_tags,
            verified_files: self.verified_files + (if result.verified {
                1nat
            } else {
                0
            }),
            warnings: self.warnings + result.warnings.len(),
            errors: self.errors + result.errors.len(),
        }
    }

    /// Whether every sum is at most `bound`.
    pub open spec fn within(self, bound: nat) -> bool {
        &&& self.stripped_files <= bound
        &&& self.removed_tags <= bound
        &&& self.verified_files <= bound
        &&& self.warnings <= bound
        &&& self.errors <= bound
    }
}

pub open spec fn no_totals() -> StripTotals {
    StripTotals {
        stripped_files: 0,
        removed_tags: 0,
        verified_files: 0,
        warnings: 0,
        errors: 0,
    }
}

impl Default for StripSummary {
    fn default() -> (r: StripSummary)
        ensures
            r.totals() == no_totals(),
            r.elapsed_ms == 0,
    {
        StripSummary {
            stripped_files: 0,
            removed_tags: 0,
            verified_files: 0,
            warnings: 0,
            errors: 0,
            elapsed_ms: 0,
        }
    }
}

impl StripSummary {
    /// Adds what was done to an image.
    pub fn add(&mut self, result: &StripFileResult)
        requires
            old(self).totals().plus(result@).within(u128::MAX as nat),
        ensures
            final(self).totals() == old(self).totals().plus(result@),
            final(self).elapsed_ms == old(self).elapsed_ms,
    {
        proof {
            assert(texts(result.warnings@).len() == result.warnings@.len());
            assert(texts(result.errors@).len() == result.errors@.len());
        }
        if result.stripped {
            self.stripped_files += 1;
        }
        self.removed_tags += result.removed_tags as u128;
        if result.verified {
            self.verified_files += 1;
        }
        self.warnings += result.warnings.len() as u128;
        self.errors += result.errors.len() as u128;
    }
}

/// A strip: how it is done, and the images it has been done on.
#[derive(Debug)]
pub struct StripOutput {
    pub dry_run: bool,
    pub mode: &'static str,
    pub target_count: usize,
    pub files: Vec<StripFileOutput>,
}

/// The strip of one image.
#[derive(Debug)]
pub struct StripFileOutput {
    pub label: String,
    pub image: FilePath,
    pub result: StripFileResult,
    pub elapsed_ms: u64,
    pub dry_run: bool,
}

/// What the images of a strip add up to.
pub open spec fn totals_of(files: Seq<StripFileOutput>) -> StripTotals
    decreases files.len(),
{
    if files.len() == 0 {
        no_totals()
    } else {
        totals_of(files.drop_last()).plus(files.last().result@)
    }
}

proof fn lemma_totals_bound(files: Seq<StripFileOutput>)
    ensures
        totals_of(files).within(files.len() * usize::MAX as nat),
    decreases files.len(),
{
    if files.len() > 0 {
        lemma_totals_bound(files.drop_last());
        let n = files.len();
        let last = files.last().result;
        assert((n - 1) * usize::MAX + usize::MAX == n * usize::MAX) by (nonlinear_arith);
        assert(texts(last.warnings@).len() == last.warnings.len());
        assert(texts(last.errors@).len() == last.errors.len());
    }
}

// ---------------------------------------------------------------------------
// The run
// ---------------------------------------------------------------------------
/// A strip under way: its mode, its options, the images done, and their sums.
#[derive(Debug)]
pub struct StripRun {
    pub mode: StripMode,
    pub output: StripOutput,
    pub summary: StripSummary,
}

impl StripRun {
    /// The sums are those of the images done.
    pub open spec fn wf(&self) -> bool {
        self.summary.totals() == totals_of(self.output.files@)
    }
}

/// Whether a run is the start of the strip that the options ask for.
pub open spec fn is_start(
    run: StripRun,
    args: StripArgs,
    dry_run: bool,
    target_count: nat,
) -> bool {
    &&& if args.keep@.len() == 0 && args.remove@.len() == 0 && !args.privacy {
        run.mode.is_full()
    } else {
        is_mode_of(run.mode, false, texts(args.keep@), texts(args.remove@), args.privacy)
    }
    &&& run.output.dry_run == dry_run
    &&& run.output.mode@ == mode_name(run.mode.base)
    &&& run.output.target_count == target_count
    &&& run.output.files@.len() == 0
    &&& run.summary.elapsed_ms == 0
    &&& run.wf()
}

/// Starts a strip of the targets that were resolved. Bad options are reported
/// first, then why there are no targets.
pub fn strip_command(args: &StripArgs, dry_run: bool, targets: &Result<Vec<FilePath>, String>) -> (r:
    Result<StripRun, CliError>)
    ensures
        match r {
            Ok(run) => {
                &&& options_error(false, texts(args.keep@), texts(args.remove@), args.privacy)
                    is None
                &&& targets is Ok
                &&& targets->Ok_0@.len() > 0
                &&& is_start(run, *args, dry_run, targets->Ok_0@.len())
            },
            Err(error) => error is Error && match options_error(
                false,
                texts(args.keep@),
                texts(args.remove@),
                args.privacy,
            ) {
                Some(message) => error->Error_0@ == message,
                None => match *targets {
                    Err(message) => error->Error_0@ == message@,
                    Ok(targets) => targets@.len() == 0 && error->Error_0@
                        == "no target images matched"@,
                },
            },
        },
{
    let mode = match StripMode::from_args(args) {
        Ok(mode) => mode,
        Err(error) => return Err(CliError::Error(error)),
    };
    let count: usize = match targets {
        Ok(targets) => targets.len(),
        Err(error) => return Err(CliError::Error(error.clone())),
    };
    if count == 0 {
        return Err(CliError::Error("no target images matched".to_owned()));
    }
    let output = StripOutput {
        dry_run,
        mode: mode.name(),
        target_count: count,
        files: Vec::new(),
    };
    Ok(StripRun { mode, output, summary: StripSummary::default() })
}

impl StripRun {
    /// The image that is stripped next, before anything is known of it.
    pub fn begin_file(&self, image: FilePath) -> (r: StripFileOutput)
        ensures
            r.label@ == name_of(image),
            r.image == image,
            r.result@ == crate::strip_run::no_strip(),
            r.elapsed_ms == 0,
            r.dry_run == self.output.dry_run,
    {
        StripFileOutput {
            label: write_file_heading(&image),
            image,
            result: StripFileResult::default(),
            elapsed_ms: 0,
            dry_run: self.output.dry_run,
        }
    }

    /// Files the strip of an image with the others.
    pub fn record(&mut self, file: StripFileOutput)
        requires
            old(self).wf(),
        ensures
            final(self).wf(),
            final(self).output.files@ == old(self).output.files@.push(file),
            final(self).output.dry_run == old(self).output.dry_run,
            final(self).output.mode == old(self).output.mode,
            final(self).output.target_count == old(self).output.target_count,
            final(self).mode == old(self).mode,
            final(self).summary.elapsed_ms == old(self).summary.elapsed_ms,
    {
        let n: usize = self.output.files.len();
        proof {
            let files = self.output.files@;
            lemma_totals_bound(files);
            assert(files.push(file).drop_last() =~= files);
            assert(n * usize::MAX + usize::MAX <= u128::MAX) by (nonlinear_arith)
                requires
                    n <= usize::MAX,
                    usize::MAX <= 0xffff_ffff_ffff_ffff,
            ;
            assert(texts(file.result.warnings@).len() == file.result.warnings.len());
            assert(texts(file.result.errors@).len() == file.result.errors.len());
        }
        self.summary.add(&file.result);
        self.output.files.push(file);
    }

    /// How the strip ended: it failed where an image has errors.
    pub fn outcome(&self) -> (r: Result<(), CliError>)
        ensures
            match r {
                Ok(_) => self.summary.errors == 0,
                Err(error) => self.summary.errors > 0 && error is Failure,
            },
    {
        if self.summary.errors > 0 {
            Err(CliError::Failure)
        } else {
            Ok(())
        }
    }
}

// ---------------------------------------------------------------------------
// The report
// ---------------------------------------------------------------------------
/// What the report says first.
pub open spec fn strip_heading(first_group: bool, output: StripOutput) -> Seq<Mark> {
    spaced_heading(first_group, "strip"@) + plain("mode: "@ + output.mode@ + "\n"@) + plain(
        "targets: "@ + decimal(output.target_count as nat) + "\n"@,
    ) + (if output.dry_run {
        plain("operation: "@) + painted(Tone::Yellow, "dry-run"@) + plain("\n"@)
    } else {
        Seq::empty()
    })
}

/// Appends the opening part.
pub fn append_strip_heading_group(
    rendered: &mut Styled,
    first_group: &mut bool,
    output: &StripOutput,
)
    ensures
        final(rendered)@ == old(rendered)@ + strip_heading(*old(first_group), *output),
        !*final(first_group),
{
    append_spaced_check_heading(rendered, first_group, "strip");
    let mut mode = "mode: ".to_owned();
    mode.push_str(output.mode);
    mode.push_str("\n");
    rendered.push(mode.as_str());
    let mut targets = "targets: ".to_owned();
    targets.push_str(decimal_text(output.target_count as u128).as_str());
    targets.push_str("\n");
    rendered.push(targets.as_str());
    if output.dry_run {
        rendered.push("operation: ");
        rendered.push_painted(Tone::Yellow, "dry-run");
        rendered.push("\n");
    }
    proof {
        assert(rendered@ =~= old(rendered)@ + strip_heading(*old(first_group), *output));
    }
}

/// The opening part.
pub fn format_strip_heading_output(output: &StripOutput) -> (r: Styled)
    ensures
        r@ == strip_heading(true, *output),
{
    let mut rendered = Styled::new();
    let mut first_group = true;
    append_strip_heading_group(&mut rendered, &mut first_group, output);
    proof {
        assert(rendered@ =~= strip_heading(true, *output));
    }
    rendered
}

/// What the report says of an image before it is stripped.
pub open spec fn strip_file_header(file: StripFileOutput) -> Seq<Mark> {
    subtitle(file.label@) + path_line(file.image)
}

/// Appends which image it is.
pub fn append_strip_file_header(rendered: &mut Styled, file: &StripFileOutput)
    ensures
        final(rendered)@ == old(rendered)@ + strip_file_header(*file),
{
    append_write_frame_subtitle(rendered, file.label.as_str());
    append_write_file_path(rendered, &file.image);
    proof {
        assert(rendered@ =~= old(rendered)@ + strip_file_header(*file));
    }
}

pub open spec fn strip_action(file: StripFileOutput) -> Seq<char> {
    if file.dry_run && file.result.stripped {
        "would strip EXIF"@
    } else if file.dry_run {
        "would strip EXIF: no"@
    } else if file.result.stripped {
        "stripped EXIF"@
    } else {
        "stripped EXIF: no"@
    }
}

/// What the report says of an image that was stripped.
pub open spec fn strip_file_result(file: StripFileOutput) -> Seq<Mark> {
    plain(strip_action(file) + "\n"@) + plain(
        "removed "@ + decimal(file.result.removed_tags as nat) + " tags\n"@,
    ) + (if file.result.verified {
        plain("verified: no EXIF metadata\n"@)
    } else {
        Seq::empty()
    }) + plain("took "@ + duration_text(file.elapsed_ms as nat) + "\n"@) + warning_lines(
        texts(file.result.warnings@),
    ) + error_lines(texts(file.result.errors@))
}

/// Appends what was done to an image.
pub fn append_strip_file_result(rendered: &mut Styled, file: &StripFileOutput)
    ensures
        final(rendered)@ == old(rendered)@ + strip_file_result(*file),
{
    let mut action = (if file.dry_run && file.result.stripped {
        "would strip EXIF"
    } else if file.dry_run {
        "would strip EXIF: no"
    } else if file.result.stripped {
        "stripped EXIF"
    } else {
        "stripped EXIF: no"
    }).to_owned();
    action.push_str("\n");
    rendered.push(action.as_str());
    let mut removed = "removed ".to_owned();
    removed.push_str(decimal_text(file.result.removed_tags as u128).as_str());
    removed.push_str(" tags\n");
    rendered.push(removed.as_str());
    if file.result.verified {
        rendered.push("verified: no EXIF metadata\n");
    }
    let mut took = "took ".to_owned();
    took.push_str(format_write_duration(file.elapsed_ms).as_str());
    took.push_str("\n");
    rendered.push(took.as_str());
    append_warnings(rendered, &file.result.warnings);
    append_errors(rendered, &file.result.errors);
    proof {
        assert(rendered@ =~= old(rendered)@ + strip_file_result(*file));
    }
}

/// Which image it is.
pub fn format_strip_file_header_output(file: &StripFileOutput) -> (r: Styled)
    ensures
        r@ == strip_file_header(*file),
{
    let mut rendered = Styled::new();
    append_strip_file_header(&mut rendered, file);
    proof {
        assert(rendered@ =~= strip_file_header(*file));
    }
    rendered
}

/// What was done to an image.
pub fn format_strip_file_result_output(file: &StripFileOutput) -> (r: Styled)
    ensures
        r@ == strip_file_result(*file),
{
    let mut rendered = Styled::new();
    append_strip_file_result(&mut rendered, file);
    proof {
        assert(rendered@ =~= strip_file_result(*file));
    }
    rendered
}

/// The part on an image.
pub fn format_strip_file_output(file: &StripFileOutput) -> (r: Styled)
    ensures
        r@ == strip_file_header(*file) + strip_file_result(*file),
{
    let mut rendered = Styled::new();
    append_strip_file_header(&mut rendered, file);
    append_strip_file_result(&mut rendered, file);
    proof {
        assert(rendered@ =~= strip_file_header(*file) + strip_file_result(*file));
    }
    rendered
}

/// What the report says in the end.
pub open spec fn strip_overview(
    first_group: bool,
    output: StripOutput,
    summary: StripSummary,
) -> Seq<Mark> {
    spaced_heading(first_group, "overview"@) + overview_row("errors"@, decimal(summary.errors as nat))
        + overview_row("warnings"@, decimal(summary.warnings as nat)) + overview_row(
        if output.dry_run {
            "would strip"@
        } else {
            "stripped"@
        },
        decimal(summary.stripped_files as nat),
    ) + overview_row("removed tags"@, decimal(summary.removed_tags as nat)) + overview_row(
        "verified"@,
        decimal(summary.verified_files as nat),
    ) + overview_row("took"@, duration_text(summary.elapsed_ms as nat)) + status_row(
        summary.errors as nat,
        summary.warnings as nat,
    )
}

/// Appends the closing part.
pub fn append_strip_overview_group(
    rendered: &mut Styled,
    first_group: &mut bool,
    output: &StripOutput,
    summary: &StripSummary,
)
    ensures
        final(rendered)@ == old(rendered)@ + strip_overview(*old(first_group), *output, *summary),
        !*final(first_group),
{
    append_spaced_check_heading(rendered, first_group, "overview");
    append_overview_count(rendered, "errors", summary.errors);
    append_overview_count(rendered, "warnings", summary.warnings);
    append_overview_count(
        rendered,
        if output.dry_run {
            "would strip"
        } else {
            "stripped"
        },
        summary.stripped_files,
    );
    append_overview_count(rendered, "removed tags", summary.removed_tags);
    append_overview_count(rendered, "verified", summary.verified_files);
    append_write_overview_row(rendered, "took", format_write_duration(summary.elapsed_ms).as_str());
    append_status_row(rendered, summary.errors, summary.warnings);
    proof {
        assert(rendered@ =~= old(rendered)@ + strip_overview(*old(first_group), *output, *summary));
    }
}

/// The closing part.
pub fn format_strip_overview_output(output: &StripOutput, summary: &StripSummary) -> (r: Styled)
    ensures
        r@ == strip_overview(false, *output, *summary),
{
    let mut rendered = Styled::new();
    let mut first_group = false;
    append_strip_overview_group(&mut rendered, &mut first_group, output, summary);
    proof {
        assert(rendered@ =~= strip_overview(false, *output, *summary));
    }
    rendered
}

pub open spec fn strip_files(files: Seq<StripFileOutput>) -> Seq<Mark>
    decreases files.len(),
{
    if files.len() == 0 {
        Seq::empty()
    } else {
        strip_files(files.drop_last()) + (strip_file_header(files.last()) + strip_file_result(
            files.last(),
        ))
    }
}

/// The whole report.
pub fn format_strip_output(output: &StripOutput, summary: &StripSummary) -> (r: Styled)
    ensures
        r@ == strip_heading(true, *output) + strip_files(output.files@) + strip_overview(
            false, *output,
            *summary,
        ),
{
    let mut rendered = format_strip_heading_output(output);
    let ghost heading = rendered@;
    let mut i: usize = 0;
    proof {
        assert(heading + Seq::<Mark>::empty() =~= heading);
    }
    while i < output.files.len()
        invariant
            i <= output.files@.len(),
            rendered@ == heading + strip_files(output.files@.take(i as int)),
        decreases output.files@.len() - i,
    {
        proof {
            assert(output.files@.take(i + 1).drop_last() =~= output.files@.take(i as int));
        }
        rendered.append(format_strip_file_output(&output.files[i]));
        i += 1;
        proof {
            assert(rendered@ =~= heading + strip_files(output.files@.take(i as int)));
        }
    }
    proof {
        assert(output.files@.take(output.files@.len() as int) =~= output.files@);
    }
    rendered.append(format_strip_overview_output(output, summary));
    rendered
}

// ---------------------------------------------------------------------------
// The report for machines
// ---------------------------------------------------------------------------
pub open spec fn strip_status(file: StripFileOutput) -> Seq<char> {
    if file.result.errors@.len() > 0 {
        "error"@
    } else if file.dry_run && file.result.stripped {
        "would_strip"@
    } else if !file.result.stripped {
        "unchanged"@
    } else if file.result.verified {
        "verified"@
    } else {
        "stripped"@
    }
}

/// How the strip of an image ended.
pub fn strip_file_status(file: &StripFileOutput) -> (r: &'static str)
    ensures
        r@ == strip_status(*file),
{
    if file.result.errors.len() > 0 {
        "error"
    } else if file.dry_run && file.result.stripped {
        "would_strip"
    } else if !file.result.stripped {
        "unchanged"
    } else if file.result.verified {
        "verified"
    } else {
        "stripped"
    }
}

/// What the report says of an image.
pub open spec fn strip_file_json(file: StripFileOutput) -> Json {
    Json::Object(
        Map::<Seq<char>, Json>::empty().insert(
            "path"@,
            Json::Text(pattern_text(file.image.text@)),
        ).insert("status"@, Json::Text(strip_status(file))).insert(
            "stripped"@,
            Json::Bool(file.result.stripped && !file.dry_run),
        ).insert("would_strip"@, Json::Bool(file.result.stripped && file.dry_run)).insert(
            "removed_tags"@,
            Json::Count(capped(file.result.removed_tags as nat)),
        ).insert("verified"@, Json::Bool(file.result.verified)).insert(
            "elapsed_ms"@,
            Json::Count(file.elapsed_ms),
        ).insert("warnings"@, json_texts(texts(file.result.warnings@))).insert(
            "errors"@,
            json_texts(texts(file.result.errors@)),
        ),
    )
}

pub open spec fn strip_summary_json(dry_run: bool, summary: StripSummary) -> Json {
    let stripped = capped(summary.stripped_files as nat);
    Json::Object(
        Map::<Seq<char>, Json>::empty().insert(
            "files_stripped"@,
            Json::Count(if dry_run {
                0
            } else {
                stripped
            }),
        ).insert(
            "files_would_strip"@,
            Json::Count(if dry_run {
                stripped
            } else {
                0
            }),
        ).insert("tags_removed"@, Json::Count(capped(summary.removed_tags as nat))).insert(
            "files_verified"@,
            Json::Count(capped(summary.verified_files as nat)),
        ).insert("warnings"@, Json::Count(capped(summary.warnings as nat))).insert(
            "errors"@,
            Json::Count(capped(summary.errors as nat)),
        ).insert("elapsed_ms"@, Json::Count(summary.elapsed_ms)),
    )
}

/// The whole report.
pub open spec fn strip_json(output: StripOutput, summary: StripSummary) -> Json {
    Json::Object(
        Map::<Seq<char>, Json>::empty().insert("command"@, Json::Text("strip"@)).insert(
            "mode"@,
            Json::Text(output.mode@),
        ).insert("dry_run"@, Json::Bool(output.dry_run)).insert(
            "target_count"@,
            Json::Count(capped(output.target_count as nat)),
        ).insert(
            "files"@,
            Json::List(output.files@.map_values(|file: StripFileOutput| strip_file_json(file))),
        ).insert("summary"@, strip_summary_json(output.dry_run, summary)).insert(
            "status"@,
            Json::Text(if summary.errors > 0 {
                "fail"@
            } else {
                "success"@
            }),
        ),
    )
}

fn strip_file_value(file: &StripFileOutput) -> (r: Value)
    ensures
        json_contents(r) == strip_file_json(*file),
{
    let mut value = json_object();
    json_set(&mut value, "path", json_text(path_to_pattern(&file.image).as_str()));
    json_set(&mut value, "status", json_text(strip_file_status(file)));
    json_set(&mut value, "stripped", json_bool(file.result.stripped && !file.dry_run));
    json_set(&mut value, "would_strip", json_bool(file.result.stripped && file.dry_run));
    json_set(&mut value, "removed_tags", json_total(file.result.removed_tags as u128));
    json_set(&mut value, "verified", json_bool(file.result.verified));
    json_set(&mut value, "elapsed_ms", json_count(file.elapsed_ms));
    json_set(&mut value, "warnings", json_text_list(&file.result.warnings));
    json_set(&mut value, "errors", json_text_list(&file.result.errors));
    value
}

fn strip_summary_value(dry_run: bool, summary: &StripSummary) -> (r: Value)
    ensures
        json_contents(r) == strip_summary_json(dry_run, *summary),
{
    let mut value = json_object();
    let stripped = json_total(
        if dry_run {
            0
        } else {
            summary.stripped_files
        },
    );
    let would_strip = json_total(
        if dry_run {
            summary.stripped_files
        } else {
            0
        },
    );
    json_set(&mut value, "files_stripped", stripped);
    json_set(&mut value, "files_would_strip", would_strip);
    json_set(&mut value, "tags_removed", json_total(summary.removed_tags));
    json_set(&mut value, "files_verified", json_total(summary.verified_files));
    json_set(&mut value, "warnings", json_total(summary.warnings));
    json_set(&mut value, "errors", json_total(summary.errors));
    json_set(&mut value, "elapsed_ms", json_count(summary.elapsed_ms));
    value
}

/// The report as a JSON value.
pub fn strip_report(output: &StripOutput, summary: &StripSummary) -> (r: Value)
    ensures
        json_contents(r) == strip_json(*output, *summary),
{
    let mut files: Vec<Value> = Vec::new();
    let mut i: usize = 0;
    while i < output.files.len()
        invariant
            i <= output.files@.len(),
            files@.len() == i,
            forall|k: int|
                0 <= k < i ==> json_contents(#[trigger] files@[k]) == strip_file_json(
                    output.files@[k],
                ),
        decreases output.files@.len() - i,
    {
        files.push(strip_file_value(&output.files[i]));
        i += 1;
    }
    proof {
        assert(json_items(files@) =~= output.files@.map_values(
            |file: StripFileOutput| strip_file_json(file),
        ));
    }
    let mut value = json_object();
    json_set(&mut value, "command", json_text("strip"));
    json_set(&mut value, "mode", json_text(output.mode));
    json_set(&mut value, "dry_run", json_bool(output.dry_run));
    json_set(&mut value, "target_count", json_total(output.target_count as u128));
    json_set(&mut value, "files", json_list(files));
    json_set(&mut value, "summary", strip_summary_value(output.dry_run, summary));
    json_set(
        &mut value,
        "status",
        json_text(
            if summary.errors > 0 {
                "fail"
            } else {
                "success"
            },
        ),
    );
    value
}

/// The whole report of a strip as JSON.
pub fn format_strip_json_output(output: &StripOutput, summary: &StripSummary) -> (r: String)
    ensures
        r@ == json_rendered(strip_json(*output, *summary)),
{
    json_string_of(&strip_report(output, summary))
}

/// The report of an image is its header and its result, whether they are
/// printed at once or one by one.
pub proof fn law_file_report_is_header_and_result(file: StripFileOutput)
    ensures
        strip_files(seq![file]) == strip_file_header(file) + strip_file_result(file),
{
    reveal_with_fuel(strip_files, 2);
    assert(seq![file].drop_last() =~= Seq::<StripFileOutput>::empty());
    assert(strip_files(seq![file]) =~= strip_file_header(file) + strip_file_result(file));
}

} // verus!
