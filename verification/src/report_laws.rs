//! What holds of every step of a strip, and of what is reported of it.

use crate::check_output::{errors_of, overview_group, CheckOutput};
use crate::report::{count_marks, dash_count, error_lines, heading, status_marks, warning_marks};
use crate::exif_data::{FieldView, TagContext};
use crate::strip::{
    group_of, strip_plan, tag_display, with_pointers, with_target, StripMode, TargetView,
};
use crate::strip_output::{
    strip_action, strip_file_json, strip_file_result, strip_json, strip_status, strip_summary_json,
    totals_of, StripFileOutput, StripOutput, StripSummary,
};
use crate::strip_run::{
    after_change, is_aimed_at, layout_tags, missing_warnings, preserved_tags, remaining_names,
    strip_start, NextView, StripView,
};
use crate::style::{coloured, Tone};
use crate::text::{decimal, hex4, repeated, stands_at, texts};
use crate::text_laws::law_absent_parts_replace_nothing;
use crate::writable::{is_covered, is_reachable, DirectoryView, TagGroup, TagView};
use crate::write_output::{write_file_result, WriteFileOutput, WriteTotals};
use crate::write_run::WriteView;
use crate::json::Json;
use crate::path::pattern_text;
use vstd::prelude::*;
use vstd::utf8::*;

verus! {

// ---------------------------------------------------------------------------
// Steps
// ---------------------------------------------------------------------------
/// A strip that nothing stands in the way of is carried out: a full one clears the
/// file, but for what a TIFF image needs; any other removes the tags that are planned;
/// a dry run does neither.
pub proof fn law_strips_are_carried_out(
    fields: Seq<FieldView>,
    mode: StripMode,
    is_tiff: bool,
    verify: bool,
)
    requires
        strip_plan(mode, fields, is_tiff).errors.len() == 0,
    ensures
        ({
            let start = strip_start(Ok(fields), mode, is_tiff, false, verify);
            let targets = strip_plan(mode, fields, is_tiff).targets;
            &&& start.0.errors.len() == 0
            &&& start.0.removed_tags == targets.len()
            &&& !start.0.stripped
            &&& mode.base is All && mode.remove is None ==> start.1 == (if is_tiff {
                NextView::ClearTiff
            } else {
                NextView::ClearFile
            })
            &&& !(mode.base is All && mode.remove is None) && targets.len() > 0 ==> start.1
                == NextView::RemoveTags(targets)
            &&& !(mode.base is All && mode.remove is None) && targets.len() == 0 ==> start.1 == (
            if verify {
                NextView::Verify
            } else {
                NextView::Done
            })
        }),
        strip_start(Ok(fields), mode, is_tiff, true, verify).1 == NextView::Done,
        strip_start(Ok(fields), mode, is_tiff, true, verify).0.removed_tags == strip_plan(
            mode,
            fields,
            is_tiff,
        ).targets.len(),
{
}

/// Nothing is stripped where the plan has errors, nor where an image cannot be read of
/// which some tags are to stay.
pub proof fn law_errors_keep_the_image(
    reading: Result<Seq<FieldView>, Seq<char>>,
    mode: StripMode,
    is_tiff: bool,
    dry_run: bool,
    verify: bool,
)
    ensures
        reading is Ok && strip_plan(mode, reading->Ok_0, is_tiff).errors.len() > 0 ==> strip_start(
            reading,
            mode,
            is_tiff,
            dry_run,
            verify,
        ).1 == NextView::Done && !strip_start(reading, mode, is_tiff, dry_run, verify).0.stripped,
        reading is Err && !(mode.base is All && mode.remove is None) ==> strip_start(
            reading,
            mode,
            is_tiff,
            dry_run,
            verify,
        ).1 == NextView::Done && strip_start(reading, mode, is_tiff, dry_run, verify).0.errors.len()
            == 1,
{
}

/// A change that failed is an error and ends the strip; one that did not makes the
/// image stripped, and is verified where that was asked for.
pub proof fn law_changes_are_reported(result: StripView, error: Seq<char>, verify: bool)
    ensures
        after_change(result, Some(error), verify) == (
            StripView { errors: result.errors.push(error), ..result },
            NextView::Done,
        ),
        after_change(result, None, verify).0.stripped,
        after_change(result, None, verify).0.errors == result.errors,
        after_change(result, None, true).1 == NextView::Verify,
        after_change(result, None, false).1 == NextView::Done,
{
}

proof fn lemma_remaining(mode: StripMode, fields: Seq<FieldView>, is_tiff: bool, i: int)
    requires
        0 <= i < fields.len(),
        mode.removes(fields[i], is_tiff),
    ensures
        remaining_names(mode, fields, is_tiff).contains(fields[i].name),
    decreases fields.len(),
{
    let before = fields.drop_last();
    let all = remaining_names(mode, fields, is_tiff);
    if i < before.len() {
        lemma_remaining(mode, before, is_tiff, i);
        let some = remaining_names(mode, before, is_tiff);
        let k = choose|k: int| 0 <= k < some.len() && some[k] == before[i].name;
        assert(all[k] == fields[i].name);
    } else {
        assert(all[all.len() - 1] == fields[i].name);
    }
}

/// A verification names every field that should be gone.
pub proof fn law_verification_names_what_remains(
    mode: StripMode,
    fields: Seq<FieldView>,
    is_tiff: bool,
    i: int,
)
    requires
        0 <= i < fields.len(),
        mode.removes(fields[i], is_tiff),
    ensures
        remaining_names(mode, fields, is_tiff).contains(fields[i].name),
{
    lemma_remaining(mode, fields, is_tiff, i);
}

/// A tag of which no directory can be reached is told by its name, in a warning of its
/// own; any other in none.
pub proof fn law_missing_tags_are_named(
    targets: Seq<TargetView>,
    target: TargetView,
    slots: Seq<(TagGroup, u32)>,
)
    ensures
        !(exists|i: int| 0 <= i < slots.len() && (#[trigger] slots[i]).0 == target.group)
            ==> missing_warnings(targets.push(target), slots) == missing_warnings(
            targets,
            slots,
        ).push("could not find writable EXIF tag `"@ + target.name + "` to remove"@),
        slots.contains((target.group, 0u32)) ==> missing_warnings(targets.push(target), slots)
            == missing_warnings(targets, slots),
{
    assert(targets.push(target).drop_last() =~= targets);
    if slots.contains((target.group, 0u32)) {
        let i = choose|i: int| 0 <= i < slots.len() && slots[i] == (target.group, 0u32);
        assert(slots[i].0 == target.group && is_covered(slots, slots[i].1));
        assert(is_reachable(slots, target.group));
    }
}

/// Whether a number is that of a tag that tells where or how the pixels are stored.
pub open spec fn describes_pixels(number: u16) -> bool {
    ||| 0x0100 <= number <= 0x0103
    ||| number == 0x0106
    ||| number == 0x0111
    ||| number == 0x0112
    ||| 0x0115 <= number <= 0x0117
    ||| 0x011a <= number <= 0x011c
    ||| number == 0x0128
    ||| number == 0x013d
    ||| number == 0x0140
    ||| 0x0142 <= number <= 0x0145
    ||| 0x0152 <= number <= 0x0153
    ||| number == 0x8773
}

proof fn lemma_layout_tags(tags: Seq<TagView>, number: u32, i: int)
    requires
        0 <= i < tags.len(),
        describes_pixels(tags[i].number),
    ensures
        layout_tags(tags, number).contains((number, tags[i])),
    decreases tags.len(),
{
    let before = tags.drop_last();
    let all = layout_tags(tags, number);
    if i < before.len() {
        lemma_layout_tags(before, number, i);
        let some = layout_tags(before, number);
        let k = choose|k: int| 0 <= k < some.len() && some[k] == (number, before[i]);
        assert(all[k] == (number, tags[i]));
    } else {
        assert(all[all.len() - 1] == (number, tags[i]));
    }
}

proof fn lemma_layout_tags_describe_pixels(tags: Seq<TagView>, number: u32, k: int)
    requires
        0 <= k < layout_tags(tags, number).len(),
    ensures
        describes_pixels(layout_tags(tags, number)[k].1.number),
    decreases tags.len(),
{
    let before = tags.drop_last();
    if k < layout_tags(before, number).len() {
        lemma_layout_tags_describe_pixels(before, number, k);
    }
}

proof fn lemma_preserved(directories: Seq<DirectoryView>, d: int, i: int)
    requires
        0 <= d < directories.len(),
        directories[d].group is Generic,
        0 <= i < directories[d].tags.len(),
        describes_pixels(directories[d].tags[i].number),
    ensures
        preserved_tags(directories).contains((directories[d].number, directories[d].tags[i])),
    decreases directories.len(),
{
    let before = directories.drop_last();
    let all = preserved_tags(directories);
    let some = preserved_tags(before);
    let entry = (directories[d].number, directories[d].tags[i]);
    if d < before.len() {
        lemma_preserved(before, d, i);
        let k = choose|k: int| 0 <= k < some.len() && some[k] == entry;
        assert(all[k] == entry);
    } else {
        let last = directories.last();
        lemma_layout_tags(last.tags, last.number, i);
        let own = layout_tags(last.tags, last.number);
        let k = choose|k: int| 0 <= k < own.len() && own[k] == entry;
        assert(all[some.len() + k] == entry);
    }
}

proof fn lemma_preserved_describe_pixels(directories: Seq<DirectoryView>, k: int)
    requires
        0 <= k < preserved_tags(directories).len(),
    ensures
        describes_pixels(preserved_tags(directories)[k].1.number),
    decreases directories.len(),
{
    let before = directories.drop_last();
    let some = preserved_tags(before);
    if k < some.len() {
        lemma_preserved_describe_pixels(before, k);
    } else {
        let last = directories.last();
        lemma_layout_tags_describe_pixels(last.tags, last.number, k - some.len());
    }
}

/// Of a TIFF image all tags are set aside that tell where and how its pixels are
/// stored, of every image in it, and no others.
pub proof fn law_layout_is_set_aside(directories: Seq<DirectoryView>, d: int, i: int, k: int)
    ensures
        0 <= d < directories.len() && directories[d].group is Generic && 0 <= i
            < directories[d].tags.len() && describes_pixels(directories[d].tags[i].number)
            ==> preserved_tags(directories).contains(
            (directories[d].number, directories[d].tags[i]),
        ),
        0 <= k < preserved_tags(directories).len() ==> describes_pixels(
            preserved_tags(directories)[k].1.number,
        ),
{
    if 0 <= d < directories.len() && directories[d].group is Generic && 0 <= i
        < directories[d].tags.len() && describes_pixels(directories[d].tags[i].number) {
        lemma_preserved(directories, d, i);
    }
    if 0 <= k < preserved_tags(directories).len() {
        lemma_preserved_describe_pixels(directories, k);
    }
}

// ---------------------------------------------------------------------------
// Targets
// ---------------------------------------------------------------------------
/// The directory that a field is removed from is the one that its context names. Fields
/// of other contexts cannot be removed.
pub proof fn law_fields_are_removed_from_their_directory(context: TagContext)
    ensures
        group_of(context) == Some(TagGroup::Generic) <==> context is Tiff,
        group_of(context) == Some(TagGroup::Exif) <==> context is Exif,
        group_of(context) == Some(TagGroup::Gps) <==> context is Gps,
        group_of(context) == Some(TagGroup::Interop) <==> context is Interop,
        group_of(context) is None <==> context is Other,
{
}

/// A field is told by its name, and one without a name by its number.
pub proof fn law_nameless_fields_are_told_by_number(field: FieldView, rest: Seq<char>)
    ensures
        field.name == seq!['T', 'a', 'g', '('] + rest ==> tag_display(field) == seq!['0', 'x']
            + hex4(field.number),
        field.name.len() < 4 || field.name[3] != '(' ==> tag_display(field) == field.name,
{
    reveal_strlit("Tag(");
    reveal_strlit("0x");
    assert("0x"@ =~= seq!['0', 'x']);
    let mark = "Tag("@;
    assert(mark =~= seq!['T', 'a', 'g', '(']);
    let nameless = seq!['T', 'a', 'g', '('] + rest;
    assert(nameless.subrange(0, 4) =~= mark);
    if field.name.len() >= 4 {
        assert(field.name.subrange(0, 4)[3] == field.name[3]);
    }
}

proof fn lemma_target_added(targets: Seq<TargetView>, target: TargetView)
    ensures
        is_aimed_at(with_target(targets, target), target.group, target.tag_id),
        forall|group: TagGroup, number: u16|
            is_aimed_at(targets, group, number) ==> #[trigger] is_aimed_at(
                with_target(targets, target),
                group,
                number,
            ),
{
    let all = with_target(targets, target);
    if all != targets {
        assert(all[all.len() - 1] == target);
        assert forall|group: TagGroup, number: u16|
            is_aimed_at(targets, group, number) implies #[trigger] is_aimed_at(
            all,
            group,
            number,
        ) by {
            let i = choose|i: int|
                0 <= i < targets.len() && (#[trigger] targets[i]).group == group
                    && targets[i].tag_id == number;
            assert(all[i] == targets[i]);
        }
    }
}

/// Where everything goes, so do the tags that point to the directories of EXIF, of the
/// position and of interoperability; and all that was aimed at before stays so.
pub proof fn law_pointers_go_with_their_directories(
    targets: Seq<TargetView>,
    group: TagGroup,
    number: u16,
)
    ensures
        is_aimed_at(with_pointers(targets), TagGroup::Generic, 0x8769),
        is_aimed_at(with_pointers(targets), TagGroup::Generic, 0x8825),
        is_aimed_at(with_pointers(targets), TagGroup::Exif, 0xa005),
        is_aimed_at(targets, group, number) ==> is_aimed_at(with_pointers(targets), group, number),
{
    let exif = TargetView { group: TagGroup::Generic, tag_id: 0x8769, name: "ExifIFDPointer"@ };
    let gps = TargetView { group: TagGroup::Generic, tag_id: 0x8825, name: "GPSInfoIFDPointer"@ };
    let interop = TargetView { group: TagGroup::Exif, tag_id: 0xa005, name: "InteropIFDPointer"@ };
    lemma_target_added(targets, exif);
    lemma_target_added(with_target(targets, exif), gps);
    lemma_target_added(with_target(with_target(targets, exif), gps), interop);
}

/// Paths are matched with slashes for backslashes, and as they are otherwise.
pub proof fn law_backslashes_count_as_slashes(path: Seq<char>, i: int)
    requires
        0 <= i < path.len(),
    ensures
        pattern_text(path).len() == path.len(),
        path[i] == '\\' ==> pattern_text(path)[i] == '/',
        path[i] != '\\' ==> pattern_text(path)[i] == path[i],
{
}

// ---------------------------------------------------------------------------
// Totals
// ---------------------------------------------------------------------------
/// The totals of a strip grow with each file by what became of it.
pub proof fn law_strip_totals_add_up(files: Seq<StripFileOutput>, file: StripFileOutput)
    ensures
        totals_of(files.push(file)).removed_tags == totals_of(files).removed_tags
            + file.result.removed_tags,
        totals_of(files.push(file)).stripped_files == totals_of(files).stripped_files + (
        if file.result.stripped {
            1int
        } else {
            0int
        }),
        totals_of(files.push(file)).verified_files == totals_of(files).verified_files + (
        if file.result.verified {
            1int
        } else {
            0int
        }),
        totals_of(files.push(file)).warnings == totals_of(files).warnings
            + file.result.warnings@.len(),
        totals_of(files.push(file)).errors == totals_of(files).errors + file.result.errors@.len(),
{
    assert(files.push(file).drop_last() =~= files);
}

/// The totals of a write grow with each file by what became of it. A tag that was
/// skipped counts as a warning too.
pub proof fn law_write_totals_add_up(totals: WriteTotals, result: WriteView)
    ensures
        totals.plus(result).written_tags == totals.written_tags + result.written,
        totals.plus(result).removed_tags == totals.removed_tags + result.removed_tags,
        totals.plus(result).skipped_tags == totals.skipped_tags + result.skipped.len(),
        totals.plus(result).warnings == totals.warnings + result.warnings.len()
            + result.skipped.len(),
        totals.plus(result).errors == totals.errors + result.errors.len(),
        totals.plus(result).stripped_files == totals.stripped_files + (if result.stripped {
            1int
        } else {
            0int
        }),
        totals.plus(result).skipped_files == totals.skipped_files,
{
}

/// What is said of a file tells whether it was stripped, or would be.
pub proof fn law_reports_tell_what_became_of_a_file(file: StripFileOutput)
    ensures
        strip_action(file) == (if file.dry_run {
            "would strip EXIF"@
        } else {
            "stripped EXIF"@
        }) + (if file.result.stripped {
            Seq::empty()
        } else {
            ": no"@
        }),
        strip_status(file) == "error"@ <== file.result.errors@.len() > 0,
        file.result.errors@.len() == 0 && !file.result.stripped ==> strip_status(file)
            == "unchanged"@,
        file.result.errors@.len() == 0 && file.result.stripped && file.dry_run ==> strip_status(
            file,
        ) == "would_strip"@,
        file.result.errors@.len() == 0 && file.result.stripped && !file.dry_run
            && file.result.verified ==> strip_status(file) == "verified"@,
        file.result.errors@.len() == 0 && file.result.stripped && !file.dry_run
            && !file.result.verified ==> strip_status(file) == "stripped"@,
{
    reveal_strlit("would strip EXIF");
    reveal_strlit("stripped EXIF");
    reveal_strlit("would strip EXIF: no");
    reveal_strlit("stripped EXIF: no");
    reveal_strlit(": no");
    assert("would strip EXIF"@ + ": no"@ =~= "would strip EXIF: no"@);
    assert("stripped EXIF"@ + ": no"@ =~= "stripped EXIF: no"@);
    assert("would strip EXIF"@ + Seq::empty() =~= "would strip EXIF"@);
    assert("stripped EXIF"@ + Seq::empty() =~= "stripped EXIF"@);
}

// ---------------------------------------------------------------------------
// Reports
// ---------------------------------------------------------------------------
/// A command fails if and only if there are errors, and succeeds with warnings where
/// there are only those.
pub proof fn law_status_follows_from_errors(errors: nat, warnings: nat)
    ensures
        errors > 0 ==> status_marks(errors, warnings)[0] == (Some(Tone::Red), "fail"@),
        errors == 0 ==> status_marks(errors, warnings)[0] == (Some(Tone::Green), "success"@),
        errors == 0 && warnings > 0 ==> status_marks(errors, warnings)[1] == (
            None::<Tone>,
            " (with warnings)\n"@,
        ),
        errors == 0 && warnings == 0 ==> status_marks(errors, warnings)[1] == (
            None::<Tone>,
            "\n"@,
        ),
{
}

/// Counts above zero stand out.
pub proof fn law_counts_stand_out(count: nat, tone: Tone)
    ensures
        count_marks(count, tone).len() == 1,
        count_marks(count, tone)[0].1 == decimal(count),
        count_marks(count, tone)[0].0 == (if count > 0 {
            Some(tone)
        } else {
            None
        }),
{
}

/// A heading fills its line with dashes: with the label and a blank it is fifty wide,
/// where the label leaves room for them.
pub proof fn law_headings_fill_the_line(label: Seq<char>)
    ensures
        encode_utf8(label).len() <= 49 ==> encode_utf8(label).len() + 1 + dash_count(label) == 50,
        encode_utf8(label).len() > 49 ==> dash_count(label) == 0,
        heading(label)[0] == (Some(Tone::BrightBlue), label + " "@ + repeated('─', dash_count(label))),
{
}

/// A coloured text without escapes is the text between the code of the colour and the
/// one that ends it.
pub proof fn law_colours_surround_the_text(tone: Tone, text: Seq<char>)
    requires
        !text.contains('\x1b'),
    ensures
        coloured(tone, text) == seq!['\x1b', '['] + (match tone {
            Tone::Green => seq!['3', '2'],
            Tone::Red => seq!['3', '1'],
            Tone::Yellow => seq!['3', '3'],
            Tone::BrightBlue => seq!['9', '4'],
            Tone::BrightCyan => seq!['9', '6'],
        }) + seq!['m'] + text + seq!['\x1b', '[', '0', 'm'],
{
    reveal_strlit("\x1b[0m");
    reveal_strlit("\x1b[32m");
    reveal_strlit("\x1b[31m");
    reveal_strlit("\x1b[33m");
    reveal_strlit("\x1b[94m");
    reveal_strlit("\x1b[96m");
    let off = "\x1b[0m"@;
    assert forall|i: int| !#[trigger] stands_at(text, off, i) by {
        if stands_at(text, off, i) {
            assert(text.subrange(i, i + off.len())[0] == text[i]);
            assert(text.contains(text[i]));
        }
    }
    law_absent_parts_replace_nothing(text, off, off + crate::style::tone_sequence(tone));
    assert(coloured(tone, text) =~= seq!['\x1b', '['] + (match tone {
        Tone::Green => seq!['3', '2'],
        Tone::Red => seq!['3', '1'],
        Tone::Yellow => seq!['3', '3'],
        Tone::BrightBlue => seq!['9', '4'],
        Tone::BrightCyan => seq!['9', '6'],
    }) + seq!['m'] + text + seq!['\x1b', '[', '0', 'm']);
}

/// A check has no errors if and only if neither the file nor a frame has one.
pub proof fn law_errors_of_a_check_are_counted(output: CheckOutput)
    ensures
        output.frames is None ==> errors_of(output) == output.file_errors@.len(),
        output.frames is Some && output.frames->Some_0.frames@.len() == 0 ==> errors_of(output)
            == output.file_errors@.len(),
        errors_of(output) == 0 ==> output.file_errors@.len() == 0,
{
}

/// The number of the errors of frames grows with each frame by those of the frame.
pub proof fn law_errors_of_frames_add_up(
    frames: Seq<crate::check::FrameReport>,
    frame: crate::check::FrameReport,
)
    ensures
        crate::check_output::frame_error_count(frames.push(frame))
            == crate::check_output::frame_error_count(frames) + frame.errors@.len(),
        crate::check_output::frame_warning_count(frames.push(frame))
            == crate::check_output::frame_warning_count(frames) + frame.warnings@.len(),
{
    assert(frames.push(frame).drop_last() =~= frames);
}

/// The verdict of a check follows from its errors.
pub proof fn law_verdict_follows_from_errors(errors: nat, warnings: nat, first: bool)
    ensures
        errors > 0 ==> overview_group(errors, warnings, first).contains(
            (Some(Tone::Red), "error"@),
        ),
        errors == 0 ==> overview_group(errors, warnings, first).contains(
            (Some(Tone::Green), "success"@),
        ),
{
    let all = overview_group(errors, warnings, first);
    let n = all.len();
    if errors > 0 {
        assert(all[n - 2] == (Some(Tone::Red), "error"@));
    } else {
        assert(all[n - 2] == (Some(Tone::Green), "success"@));
    }
}

proof fn lemma_error_line(errors: Seq<Seq<char>>, i: int)
    requires
        0 <= i < errors.len(),
    ensures
        error_lines(errors).contains((Some(Tone::Red), "error: "@ + errors[i])),
    decreases errors.len(),
{
    let all = error_lines(errors);
    let before = errors.drop_last();
    let some = error_lines(before);
    let mark = (Some(Tone::Red), "error: "@ + errors[i]);
    if i < before.len() {
        lemma_error_line(before, i);
        let k = choose|k: int| 0 <= k < some.len() && some[k] == mark;
        assert(all[k] == mark);
    } else {
        assert(all[some.len() as int] == mark);
    }
}

/// Every error of a file is shown in red where the file is reported, by a strip and by
/// a write.
pub proof fn law_errors_are_shown(stripped: StripFileOutput, written: WriteFileOutput, i: int)
    ensures
        0 <= i < stripped.result.errors@.len() ==> strip_file_result(stripped).contains(
            (Some(Tone::Red), "error: "@ + stripped.result.errors@[i]@),
        ),
        0 <= i < written.result.errors@.len() ==> write_file_result(written).contains(
            (Some(Tone::Red), "error: "@ + written.result.errors@[i]@),
        ),
{
    if 0 <= i < stripped.result.errors@.len() {
        let errors = texts(stripped.result.errors@);
        let mark = (Some(Tone::Red), "error: "@ + errors[i]);
        lemma_error_line(errors, i);
        let lines = error_lines(errors);
        let k = choose|k: int| 0 <= k < lines.len() && lines[k] == mark;
        let all = strip_file_result(stripped);
        assert(all[all.len() - lines.len() + k] == mark);
    }
    if 0 <= i < written.result.errors@.len() {
        let errors = texts(written.result.errors@);
        let mark = (Some(Tone::Red), "error: "@ + errors[i]);
        lemma_error_line(errors, i);
        let lines = error_lines(errors);
        let k = choose|k: int| 0 <= k < lines.len() && lines[k] == mark;
        let all = write_file_result(written);
        assert(all[all.len() - lines.len() + k] == mark);
    }
}

/// A warning of a place that was not found is red as a whole; of any other only the
/// word is marked, in yellow.
pub proof fn law_warnings_are_marked(before: Seq<char>, after: Seq<char>)
    ensures
        warning_marks(before + "$Location: no match found in database"@ + after) == seq![
            (
                Some(Tone::Red),
                "warning: "@ + (before + "$Location: no match found in database"@ + after),
            ),
        ],
        !before.contains('$') ==> warning_marks(before) == seq![
            (Some(Tone::Yellow), "warning"@),
            (None, ": "@ + before),
        ],
{
    reveal_strlit("$Location: no match found in database");
    let part = "$Location: no match found in database"@;
    let text = before + part + after;
    let at = before.len() as int;
    assert(text.subrange(at, at + part.len()) =~= part);
    assert(stands_at(text, part, at));
    if !before.contains('$') {
        assert forall|i: int| !#[trigger] stands_at(before, part, i) by {
            if stands_at(before, part, i) {
                assert(before.subrange(i, i + part.len())[0] == before[i]);
                assert(before.contains(before[i]));
            }
        }
        assert(warning_marks(before) =~= seq![
            (Some(Tone::Yellow), "warning"@),
            (None, ": "@ + before),
        ]);
    }
}

proof fn lemma_keys_of_a_file()
    ensures
        "path"@.len() == 4 && "path"@[0] == 'p' && "path"@[3] == 'h',
        "status"@.len() == 6 && "status"@[0] == 's' && "status"@[5] == 's',
        "stripped"@.len() == 8 && "stripped"@[0] == 's' && "stripped"@[6] == 'e',
        "would_strip"@.len() == 11 && "would_strip"@[0] == 'w' && "would_strip"@[6] == 's',
        "removed_tags"@.len() == 12 && "removed_tags"@[0] == 'r' && "removed_tags"@[6] == 'd',
        "verified"@.len() == 8 && "verified"@[0] == 'v' && "verified"@[6] == 'e',
        "elapsed_ms"@.len() == 10 && "elapsed_ms"@[0] == 'e' && "elapsed_ms"@[6] == 'd',
        "warnings"@.len() == 8 && "warnings"@[0] == 'w' && "warnings"@[6] == 'g',
        "errors"@.len() == 6 && "errors"@[0] == 'e' && "errors"@[5] == 's',
{
    reveal_strlit("path");
    reveal_strlit("status");
    reveal_strlit("stripped");
    reveal_strlit("would_strip");
    reveal_strlit("removed_tags");
    reveal_strlit("verified");
    reveal_strlit("elapsed_ms");
    reveal_strlit("warnings");
    reveal_strlit("errors");
}

proof fn lemma_keys_of_a_summary()
    ensures
        "files_stripped"@.len() == 14 && "files_stripped"@[0] == 'f' && "files_stripped"@[6] == 's',
        "files_would_strip"@.len() == 17 && "files_would_strip"@[0] == 'f' && "files_would_strip"@[6] == 'w',
        "tags_removed"@.len() == 12 && "tags_removed"@[0] == 't' && "tags_removed"@[6] == 'e',
        "files_verified"@.len() == 14 && "files_verified"@[0] == 'f' && "files_verified"@[6] == 'v',
        "warnings"@.len() == 8 && "warnings"@[0] == 'w' && "warnings"@[6] == 'g',
        "errors"@.len() == 6 && "errors"@[0] == 'e' && "errors"@[5] == 's',
        "elapsed_ms"@.len() == 10 && "elapsed_ms"@[0] == 'e' && "elapsed_ms"@[6] == 'd',
{
    reveal_strlit("files_stripped");
    reveal_strlit("files_would_strip");
    reveal_strlit("tags_removed");
    reveal_strlit("files_verified");
    reveal_strlit("warnings");
    reveal_strlit("errors");
    reveal_strlit("elapsed_ms");
}

proof fn lemma_keys_of_a_report()
    ensures
        "command"@.len() == 7 && "command"@[0] == 'c' && "command"@[6] == 'd',
        "mode"@.len() == 4 && "mode"@[0] == 'm' && "mode"@[3] == 'e',
        "dry_run"@.len() == 7 && "dry_run"@[0] == 'd' && "dry_run"@[6] == 'n',
        "target_count"@.len() == 12 && "target_count"@[0] == 't' && "target_count"@[6] == '_',
        "files"@.len() == 5 && "files"@[0] == 'f' && "files"@[4] == 's',
        "summary"@.len() == 7 && "summary"@[0] == 's' && "summary"@[6] == 'y',
        "status"@.len() == 6 && "status"@[0] == 's' && "status"@[5] == 's',
{
    reveal_strlit("command");
    reveal_strlit("mode");
    reveal_strlit("dry_run");
    reveal_strlit("target_count");
    reveal_strlit("files");
    reveal_strlit("summary");
    reveal_strlit("status");
}

/// A report in JSON tells of a file that was stripped only where it was, and of one
/// that would be only in a dry run.
pub proof fn law_json_tells_what_became_of_a_file(file: StripFileOutput)
    ensures
        ({
            let told = strip_file_json(file)->Object_0;
            &&& told["stripped"@] == Json::Bool(file.result.stripped && !file.dry_run)
            &&& told["would_strip"@] == Json::Bool(file.result.stripped && file.dry_run)
            &&& told["verified"@] == Json::Bool(file.result.verified)
            &&& told["status"@] == Json::Text(strip_status(file))
            &&& file.result.removed_tags <= u64::MAX ==> told["removed_tags"@] == Json::Count(
                file.result.removed_tags as u64,
            )
        }),
{
    lemma_keys_of_a_file();
}

/// A dry run strips no file, and any other run tells of none that would be stripped.
/// A report in JSON fails if and only if there are errors.
pub proof fn law_json_tells_the_outcome(
    output: StripOutput,
    summary: StripSummary,
)
    ensures
        ({
            let told = strip_summary_json(output.dry_run, summary)->Object_0;
            &&& output.dry_run ==> told["files_stripped"@] == Json::Count(0)
            &&& !output.dry_run ==> told["files_would_strip"@] == Json::Count(0)
            &&& summary.stripped_files <= u64::MAX ==> told[if output.dry_run {
                "files_would_strip"@
            } else {
                "files_stripped"@
            }] == Json::Count(summary.stripped_files as u64)
        }),
        strip_json(output, summary)->Object_0["status"@] == Json::Text(
            if summary.errors > 0 {
                "fail"@
            } else {
                "success"@
            },
        ),
        strip_json(output, summary)->Object_0["dry_run"@] == Json::Bool(output.dry_run),
{
    lemma_keys_of_a_summary();
    lemma_keys_of_a_report();
}

} // verus!
