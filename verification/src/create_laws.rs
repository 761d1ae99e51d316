//! What holds of every metadata file that is made, and of how the program names
//! itself.

use crate::new_file::{filled_template, frame_lines, is_new_error, is_new_plan, NewPlan};
use crate::error::CliError;
use crate::path::{name_of, FilePath};
use crate::text::{decimal, replace, stands_at};
use crate::text_laws::{law_absent_parts_replace_nothing, law_parts_are_replaced};
use crate::version::{prerelease_label, title_text, VersionInfo};
use crate::yaml::json_string;
use vstd::prelude::*;

verus! {

// ---------------------------------------------------------------------------
// Metadata files
// ---------------------------------------------------------------------------
proof fn lemma_no_bracket(text: Seq<char>, part: Seq<char>)
    requires
        !text.contains('<'),
        part.len() > 0,
        part[0] == '<',
    ensures
        forall|i: int| !#[trigger] stands_at(text, part, i),
{
    assert forall|i: int| !#[trigger] stands_at(text, part, i) by {
        if stands_at(text, part, i) {
            assert(text.subrange(i, i + part.len())[0] == text[i]);
            assert(text.contains(text[i]));
        }
    }
}

proof fn lemma_no_bracket_before(a: Seq<char>, b: Seq<char>, part: Seq<char>)
    requires
        !a.contains('<'),
        part.len() > 0,
        part[0] == '<',
    ensures
        forall|i: int| 0 <= i < a.len() ==> !#[trigger] stands_at(a + part + b, part, i),
{
    assert forall|i: int| 0 <= i < a.len() implies !#[trigger] stands_at(a + part + b, part, i) by {
        let s = a + part + b;
        if stands_at(s, part, i) {
            assert(s.subrange(i, i + part.len())[0] == s[i]);
            assert(a.contains(a[i]));
        }
    }
}

proof fn lemma_no_bracket_in(a: Seq<char>, b: Seq<char>)
    requires
        !a.contains('<'),
        !b.contains('<'),
    ensures
        !(a + b).contains('<'),
{
    let s = a + b;
    if s.contains('<') {
        let i = choose|i: int| 0 <= i < s.len() && s[i] == '<';
        if i < a.len() {
            assert(a.contains(a[i]));
        } else {
            assert(b.contains(b[i - a.len()]));
        }
    }
}

proof fn lemma_place_filled(a: Seq<char>, b: Seq<char>, part: Seq<char>, value: Seq<char>)
    requires
        !a.contains('<'),
        !b.contains('<'),
        part.len() > 0,
        part[0] == '<',
    ensures
        replace(a + part + b, part, value) == a + value + b,
{
    lemma_no_bracket_before(a, b, part);
    law_parts_are_replaced(a, part, b, value);
    lemma_no_bracket(b, part);
    law_absent_parts_replace_nothing(b, part, value);
}

proof fn lemma_place_left(a: Seq<char>, b: Seq<char>, part: Seq<char>, place: Seq<char>, value: Seq<char>)
    requires
        !a.contains('<'),
        !b.contains('<'),
        part.len() > 1,
        place.len() > 1,
        part[0] == '<',
        part[1] != place[1],
        !place.skip(1).contains('<'),
    ensures
        replace(a + place + b, part, value) == a + place + b,
{
    let s = a + place + b;
    assert forall|i: int| !#[trigger] stands_at(s, part, i) by {
        if stands_at(s, part, i) {
            let cut = s.subrange(i, i + part.len());
            assert(cut[0] == s[i] && cut[1] == s[i + 1]);
            if i < a.len() {
                assert(a.contains(a[i]));
            } else if i == a.len() {
                assert(s[i + 1] == place[1]);
            } else if i < a.len() + place.len() {
                let tail = place.skip(1);
                assert(tail[i - a.len() - 1] == s[i]);
                assert(tail.contains(s[i]));
            } else {
                assert(b[i - a.len() - place.len()] == s[i]);
                assert(b.contains(s[i]));
            }
        }
    }
    law_absent_parts_replace_nothing(s, part, value);
}

proof fn lemma_places()
    ensures
        "<today>"@.len() > 1 && "<today>"@[0] == '<' && "<today>"@[1] == 't',
        !"<today>"@.skip(1).contains('<'),
        "<image-count-in-directory>"@.len() > 1 && "<image-count-in-directory>"@[0] == '<'
            && "<image-count-in-directory>"@[1] == 'i',
        !"<image-count-in-directory>"@.skip(1).contains('<'),
        "<frames>"@.len() > 1 && "<frames>"@[0] == '<' && "<frames>"@[1] == 'f',
        !"<frames>"@.skip(1).contains('<'),
{
    reveal_strlit("<today>");
    reveal_strlit("<image-count-in-directory>");
    reveal_strlit("<frames>");
}

proof fn lemma_decimal_has_no_bracket(n: nat)
    ensures
        !decimal(n).contains('<'),
    decreases n,
{
    if n >= 10 {
        lemma_decimal_has_no_bracket(n / 10);
        let all = decimal(n);
        assert forall|i: int| 0 <= i < all.len() implies #[trigger] all[i] != '<' by {
            if i < all.len() - 1 {
                assert(decimal(n / 10).contains(decimal(n / 10)[i]));
            }
        }
    }
}

/// A new metadata file tells the day, the number of images and the frames at the
/// places for them, and is as its template everywhere else.
pub proof fn law_places_of_a_template_are_filled(
    a: Seq<char>,
    b: Seq<char>,
    today: Seq<char>,
    count: nat,
    frames: Seq<char>,
)
    requires
        !a.contains('<'),
        !b.contains('<'),
        !today.contains('<'),
    ensures
        filled_template(a, today, count, frames) == a,
        filled_template(a + "<today>"@ + b, today, count, frames) == a + today + b,
        filled_template(a + "<image-count-in-directory>"@ + b, today, count, frames) == a + decimal(
            count,
        ) + b,
        filled_template(a + "<frames>"@ + b, today, count, frames) == a + frames + b,
{
    lemma_places();
    let day = "<today>"@;
    let number = "<image-count-in-directory>"@;
    let list = "<frames>"@;
    let n = decimal(count);
    lemma_no_bracket(a, day);
    lemma_no_bracket(a, number);
    lemma_no_bracket(a, list);
    law_absent_parts_replace_nothing(a, day, today);
    law_absent_parts_replace_nothing(a, number, n);
    law_absent_parts_replace_nothing(a, list, frames);
    // The day.
    lemma_place_filled(a, b, day, today);
    lemma_no_bracket_in(a, today);
    lemma_no_bracket_in(a + today, b);
    lemma_no_bracket(a + today + b, number);
    lemma_no_bracket(a + today + b, list);
    law_absent_parts_replace_nothing(a + today + b, number, n);
    law_absent_parts_replace_nothing(a + today + b, list, frames);
    // The number of images.
    lemma_place_left(a, b, day, number, today);
    lemma_place_filled(a, b, number, n);
    lemma_decimal_has_no_bracket(count);
    lemma_no_bracket_in(a, n);
    lemma_no_bracket_in(a + n, b);
    lemma_no_bracket(a + n + b, list);
    law_absent_parts_replace_nothing(a + n + b, list, frames);
    // The frames.
    lemma_place_left(a, b, day, list, today);
    lemma_place_left(a, b, number, list, n);
    lemma_place_filled(a, b, list, frames);
}

/// Each image has a line of its own among the frames, with its name in quotes, below
/// those of the images before it.
pub proof fn law_each_image_has_a_frame(images: Seq<FilePath>, image: FilePath)
    ensures
        frame_lines(seq![image]) == "    "@ + json_string(name_of(image)) + ":"@,
        images.len() > 0 ==> frame_lines(images.push(image)) == frame_lines(images) + "\n"@ + (
        "    "@ + json_string(name_of(image)) + ":"@),
{
    let line = |image: FilePath| crate::new_file::frame_line(image);
    let parts = images.map_values(line);
    assert(seq![image].map_values(line) =~= seq![crate::new_file::frame_line(image)]);
    assert(images.push(image).map_values(line) =~= parts.push(crate::new_file::frame_line(image)));
    assert(parts.push(crate::new_file::frame_line(image)).drop_last() =~= parts);
}

/// A file is made only where the command is no dry run, and a dry run makes none.
pub proof fn law_dry_runs_make_no_file(
    plan: NewPlan,
    metadata: FilePath,
    images: Seq<FilePath>,
    today: Seq<char>,
    dry_run: bool,
)
    requires
        is_new_plan(plan, metadata, images, today, dry_run),
    ensures
        plan is Create <==> !dry_run,
{
}

/// A metadata file that is there already is a warning; a path that is no directory,
/// an error.
pub proof fn law_present_files_are_kept(
    error: CliError,
    directory: FilePath,
    is_present: bool,
    is_directory: bool,
    metadata: FilePath,
    metadata_is_present: bool,
    images: Result<Vec<FilePath>, String>,
)
    requires
        is_new_error(
            error,
            directory,
            is_present,
            is_directory,
            metadata,
            metadata_is_present,
            images,
        ),
    ensures
        error is Warning <==> is_present && is_directory && metadata_is_present,
        error is Error <==> !is_present || !is_directory || (!metadata_is_present && images is Err),
{
}

// ---------------------------------------------------------------------------
// Versions
// ---------------------------------------------------------------------------
/// A version is its number, with the label behind a dash and the metadata behind a
/// plus sign, where there are any.
pub proof fn law_versions_are_put_together(version: VersionInfo)
    requires
        version.version@ != "unknown"@,
    ensures
        version.version_prerelease@.len() == 0 && version.version_metadata@.len() == 0
            ==> version.number() == version.version@,
        version.version_prerelease@.len() > 0 && version.version_metadata@.len() == 0
            ==> version.number() == version.version@ + "-"@ + version.version_prerelease@,
        version.version_prerelease@.len() == 0 && version.version_metadata@.len() > 0
            ==> version.number() == version.version@ + "+"@ + version.version_metadata@,
        version.version_prerelease@.len() > 0 && version.version_metadata@.len() > 0
            ==> version.number() == version.version@ + "-"@ + version.version_prerelease@ + "+"@
            + version.version_metadata@,
{
    assert(version.version@ + Seq::<char>::empty() =~= version.version@);
    assert(version.version@ + ("-"@ + version.version_prerelease@) =~= version.version@ + "-"@
        + version.version_prerelease@);
    assert(version.version@ + ("+"@ + version.version_metadata@) =~= version.version@ + "+"@
        + version.version_metadata@);
    let first = version.version@ + "-"@ + version.version_prerelease@;
    assert(first + ("+"@ + version.version_metadata@) =~= first + "+"@ + version.version_metadata@);
    assert(first + Seq::<char>::empty() =~= first);
}

/// The revision is told where it is known and asked for, with its branch before it
/// unless that is the main one.
pub proof fn law_revisions_tell_their_branch(version: VersionInfo)
    requires
        version.version@ != "unknown"@,
    ensures
        version.full_number(false) == version.app_name@ + " [Version "@ + version.number() + "]"@,
        version.revision@.len() == 0 ==> version.full_number(true) == version.full_number(false),
        version.revision@.len() > 0 && (version.branch@ == "master"@ || version.branch@ == "HEAD"@
            || version.branch@.len() == 0) ==> version.full_number(true) == version.app_name@
            + " [Version "@ + version.number() + " ("@ + version.revision@ + ")"@ + "]"@,
        version.revision@.len() > 0 && version.branch@.len() > 0 && version.branch@ != "master"@
            && version.branch@ != "HEAD"@ ==> version.full_number(true) == version.app_name@
            + " [Version "@ + version.number() + " ("@ + (version.branch@ + "/"@
            + version.revision@) + ")"@ + "]"@,
{
}

/// The title tells the revision of every version but a release from the main branch.
pub proof fn law_titles_tell_the_revision(version: VersionInfo)
    ensures
        title_text(version) == version.full_number(
            !(version.branch@ == "master"@ && version.version_prerelease@.len() == 0
                && version.version_metadata@.len() == 0),
        ) + "\n(c) MerrittCorp. All rights reserved.\n"@,
{
}

/// A label that is set stands; else a version with changes that are not committed is
/// dirty, and any other has none.
pub proof fn law_labels_tell_uncommitted_changes(configured: Seq<char>, git_dirty: Seq<char>)
    ensures
        configured.len() > 0 ==> prerelease_label(configured, git_dirty) == configured,
        configured.len() == 0 && git_dirty == seq!['t', 'r', 'u', 'e'] ==> prerelease_label(
            configured,
            git_dirty,
        ) == seq!['d', 'i', 'r', 't', 'y'],
        configured.len() == 0 && git_dirty != seq!['t', 'r', 'u', 'e'] ==> prerelease_label(
            configured,
            git_dirty,
        ).len() == 0,
{
    reveal_strlit("true");
    reveal_strlit("dirty");
    assert("true"@ =~= seq!['t', 'r', 'u', 'e']);
    assert("dirty"@ =~= seq!['d', 'i', 'r', 't', 'y']);
}

} // verus!
