//! The lines and headings that all reports are made of.

use crate::path::{in_current_directory, is_current_directory_file, FilePath};
use crate::style::{painted, plain, Mark, Styled, Tone};
use crate::text::{
    contains_text, decimal, decimal_text, pad_right, repeat_char, repeated, text_contains,
    text_pad_right, texts,
};
use vstd::prelude::*;
use vstd::string::*;
use vstd::utf8::encode_utf8;

verus! {

/// How many bytes a text takes.
pub fn byte_len(text: &str) -> (r: usize)
    ensures
        r == encode_utf8(text@).len(),
{
    text.as_bytes().len()
}

/// How many dashes fill a heading up to fifty columns behind its label.
pub open spec fn dash_count(label: Seq<char>) -> nat {
    let taken = encode_utf8(label).len();
    if taken < 49 {
        (49 - taken) as nat
    } else {
        0
    }
}

/// A heading: the label and a rule.
pub open spec fn heading(label: Seq<char>) -> Seq<Mark> {
    painted(Tone::BrightBlue, label + " "@ + repeated('─', dash_count(label))) + plain("\n"@)
}

/// A heading, set off by a blank line from what stands before it.
pub open spec fn spaced_heading(first: bool, label: Seq<char>) -> Seq<Mark> {
    if first {
        heading(label)
    } else {
        plain("\n"@) + heading(label)
    }
}

/// Appends a heading.
pub fn append_check_heading(output: &mut Styled, label: &str)
    ensures
        final(output)@ == old(output)@ + heading(label@),
{
    let taken: usize = byte_len(label);
    let count: usize = if taken < 49 {
        49 - taken
    } else {
        0
    };
    let mut text = label.to_owned();
    text.push_str(" ");
    text.push_str(repeat_char('─', count).as_str());
    output.push_painted(Tone::BrightBlue, text.as_str());
    output.push("\n");
    proof {
        assert(output@ =~= old(output)@ + heading(label@));
    }
}

/// Appends a heading, with a blank line before all but the first.
pub fn append_spaced_check_heading(output: &mut Styled, first_group: &mut bool, label: &str)
    ensures
        final(output)@ == old(output)@ + spaced_heading(*old(first_group), label@),
        !*final(first_group),
{
    if *first_group {
        *first_group = false;
    } else {
        output.push("\n");
    }
    append_check_heading(output, label);
    proof {
        assert(output@ =~= old(output)@ + spaced_heading(*old(first_group), label@));
    }
}

/// Whether a warning is about a place that was not found.
pub open spec fn is_lookup_warning(warning: Seq<char>) -> bool {
    contains_text(warning, "$Location: no match found in database"@)
}

/// Whether a warning is about a place that was not found.
pub fn is_location_lookup_warning(warning: &str) -> (r: bool)
    ensures
        r == is_lookup_warning(warning@),
{
    text_contains(warning, "$Location: no match found in database")
}

/// A warning: all in red for a place that was not found, else with a yellow
/// label.
pub open spec fn warning_marks(warning: Seq<char>) -> Seq<Mark> {
    if is_lookup_warning(warning) {
        painted(Tone::Red, "warning: "@ + warning)
    } else {
        painted(Tone::Yellow, "warning"@) + plain(": "@ + warning)
    }
}

/// A warning as it is shown.
pub fn format_check_warning(warning: &str) -> (r: Styled)
    ensures
        r@ == warning_marks(warning@),
{
    if is_location_lookup_warning(warning) {
        let mut text = "warning: ".to_owned();
        text.push_str(warning);
        Styled::of_painted(Tone::Red, text.as_str())
    } else {
        let mut r = Styled::of_painted(Tone::Yellow, "warning");
        let mut text = ": ".to_owned();
        text.push_str(warning);
        r.push(text.as_str());
        r
    }
}

/// An error, in red.
pub open spec fn error_marks(error: Seq<char>) -> Seq<Mark> {
    painted(Tone::Red, "error: "@ + error)
}

/// An error as it is shown.
pub fn format_check_error(error: &str) -> (r: Styled)
    ensures
        r@ == error_marks(error@),
{
    let mut text = "error: ".to_owned();
    text.push_str(error);
    Styled::of_painted(Tone::Red, text.as_str())
}

/// An error of a frame as it is shown.
pub fn format_check_frame_error(error: &str) -> (r: Styled)
    ensures
        r@ == error_marks(error@),
{
    format_check_error(error)
}

/// One line for each warning.
pub open spec fn warning_lines(warnings: Seq<Seq<char>>) -> Seq<Mark>
    decreases warnings.len(),
{
    if warnings.len() == 0 {
        Seq::empty()
    } else {
        warning_lines(warnings.drop_last()) + warning_marks(warnings.last()) + plain("\n"@)
    }
}

/// One line for each error.
pub open spec fn error_lines(errors: Seq<Seq<char>>) -> Seq<Mark>
    decreases errors.len(),
{
    if errors.len() == 0 {
        Seq::empty()
    } else {
        error_lines(errors.drop_last()) + error_marks(errors.last()) + plain("\n"@)
    }
}

/// Appends warnings, each on a line.
pub fn append_warnings(output: &mut Styled, warnings: &Vec<String>)
    ensures
        final(output)@ == old(output)@ + warning_lines(texts(warnings@)),
{
    let ghost all = texts(warnings@);
    let mut i: usize = 0;
    proof {
        assert(output@ + Seq::<Mark>::empty() =~= output@);
    }
    while i < warnings.len()
        invariant
            i <= warnings@.len(),
            all == texts(warnings@),
            output@ == old(output)@ + warning_lines(all.take(i as int)),
        decreases warnings@.len() - i,
    {
        proof {
            assert(all.take(i + 1).drop_last() =~= all.take(i as int));
        }
        output.append(format_check_warning(warnings[i].as_str()));
        output.push("\n");
        i += 1;
        proof {
            assert(output@ =~= old(output)@ + warning_lines(all.take(i as int)));
        }
    }
    proof {
        assert(all.take(all.len() as int) =~= all);
    }
}

/// Appends errors, each on a line.
pub fn append_errors(output: &mut Styled, errors: &Vec<String>)
    ensures
        final(output)@ == old(output)@ + error_lines(texts(errors@)),
{
    let ghost all = texts(errors@);
    let mut i: usize = 0;
    proof {
        assert(output@ + Seq::<Mark>::empty() =~= output@);
    }
    while i < errors.len()
        invariant
            i <= errors@.len(),
            all == texts(errors@),
            output@ == old(output)@ + error_lines(all.take(i as int)),
        decreases errors@.len() - i,
    {
        proof {
            assert(all.take(i + 1).drop_last() =~= all.take(i as int));
        }
        output.append(format_check_frame_error(errors[i].as_str()));
        output.push("\n");
        i += 1;
        proof {
            assert(output@ =~= old(output)@ + error_lines(all.take(i as int)));
        }
    }
    proof {
        assert(all.take(all.len() as int) =~= all);
    }
}

/// A number, painted where it is not zero.
pub open spec fn count_marks(count: nat, tone: Tone) -> Seq<Mark> {
    if count > 0 {
        painted(tone, decimal(count))
    } else {
        plain(decimal(count))
    }
}

/// A number of errors as it is shown.
pub fn format_check_error_count(count: u128) -> (r: Styled)
    ensures
        r@ == count_marks(count as nat, Tone::Red),
{
    let text = decimal_text(count);
    if count > 0 {
        Styled::of_painted(Tone::Red, text.as_str())
    } else {
        Styled::of(text.as_str())
    }
}

/// A number of warnings as it is shown.
pub fn format_check_warning_count(count: u128) -> (r: Styled)
    ensures
        r@ == count_marks(count as nat, Tone::Yellow),
{
    let text = decimal_text(count);
    if count > 0 {
        Styled::of_painted(Tone::Yellow, text.as_str())
    } else {
        Styled::of(text.as_str())
    }
}

/// A row of an overview: the label in a column of its own, and the value.
pub open spec fn overview_row(label: Seq<char>, value: Seq<char>) -> Seq<Mark> {
    plain(pad_right(label, 14) + " "@ + value + "\n"@)
}

/// Appends a row of an overview.
pub fn append_write_overview_row(output: &mut Styled, label: &str, value: &str)
    ensures
        final(output)@ == old(output)@ + overview_row(label@, value@),
{
    let mut text = text_pad_right(label, 14);
    text.push_str(" ");
    text.push_str(value);
    text.push_str("\n");
    output.push(text.as_str());
}

/// Appends a row with a number.
pub fn append_overview_count(output: &mut Styled, label: &str, count: u128)
    ensures
        final(output)@ == old(output)@ + overview_row(label@, decimal(count as nat)),
{
    append_write_overview_row(output, label, decimal_text(count).as_str());
}

/// How a run went: failed with errors, else with or without warnings.
pub open spec fn status_marks(errors: nat, warnings: nat) -> Seq<Mark> {
    if errors > 0 {
        painted(Tone::Red, "fail"@) + plain("\n"@)
    } else if warnings > 0 {
        painted(Tone::Green, "success"@) + plain(" (with warnings)\n"@)
    } else {
        painted(Tone::Green, "success"@) + plain("\n"@)
    }
}

/// The last row of an overview.
pub open spec fn status_row(errors: nat, warnings: nat) -> Seq<Mark> {
    plain(pad_right("status"@, 14) + " "@) + status_marks(errors, warnings)
}

/// Appends how a run ended.
pub fn append_status_row(output: &mut Styled, errors: u128, warnings: u128)
    ensures
        final(output)@ == old(output)@ + status_row(errors as nat, warnings as nat),
{
    let mut text = text_pad_right("status", 14);
    text.push_str(" ");
    output.push(text.as_str());
    if errors > 0 {
        output.push_painted(Tone::Red, "fail");
        output.push("\n");
    } else if warnings > 0 {
        output.push_painted(Tone::Green, "success");
        output.push(" (with warnings)\n");
    } else {
        output.push_painted(Tone::Green, "success");
        output.push("\n");
    }
    proof {
        assert(output@ =~= old(output)@ + status_row(errors as nat, warnings as nat));
    }
}

/// The label that a file or frame is reported under.
pub open spec fn subtitle(label: Seq<char>) -> Seq<Mark> {
    painted(Tone::BrightCyan, label) + plain("\n"@)
}

/// Appends the title of an image.
pub fn append_write_frame_subtitle(output: &mut Styled, label: &str)
    ensures
        final(output)@ == old(output)@ + subtitle(label@),
{
    output.push_painted(Tone::BrightCyan, label);
    output.push("\n");
    proof {
        assert(output@ =~= old(output)@ + subtitle(label@));
    }
}

/// The path of a file that is not in the current directory.
pub open spec fn path_line(image: FilePath) -> Seq<Mark> {
    if in_current_directory(image) {
        Seq::empty()
    } else {
        plain("file: "@ + image.text@ + "\n"@)
    }
}

/// Appends where an image lies, unless it lies here.
pub fn append_write_file_path(output: &mut Styled, image: &FilePath)
    ensures
        final(output)@ == old(output)@ + path_line(*image),
{
    if !is_current_directory_file(image) {
        let mut text = "file: ".to_owned();
        text.push_str(image.text.as_str());
        text.push_str("\n");
        output.push(text.as_str());
    }
    proof {
        assert(output@ =~= old(output)@ + path_line(*image));
    }
}

} // verus!
