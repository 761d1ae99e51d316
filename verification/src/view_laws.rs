//! What holds of the lines that a reading is shown in.

use crate::cli::ReadFormat;
use crate::exif_data::{FieldView, ValueView};
use crate::file_kind::FileKind;
use crate::labels::{group_at, group_rank};
use crate::order::text_before;
use crate::path::{directory_of, name_of, FilePath};
use crate::payload::is_payload_field;
use crate::read_output::{
    all_groups, context_width, denominator_of, group_marks, groups_until, is_omitted_message,
    iso_speeds, label_width, name_width, pretty_line, pretty_lines, pretty_value, raw_line,
    raw_lines, read_warning_lines, rows_in, rows_of_fields, search_warnings, sort_label, with_row,
    with_read_warnings, FieldFigures, NearestPlaces, PrettyReadRow, PrettyView, Shown,
};
use crate::rows::{file_rows, payload_len, unknown_value, FileFacts, ReadRow, RowView};
use crate::style::{coloured, Mark, Tone};
use crate::text::{decimal, ends_with, repeated, starts_with};
use vstd::prelude::*;
use vstd::utf8::*;

verus! {

// ---------------------------------------------------------------------------
// Widths
// ---------------------------------------------------------------------------
/// The columns of a raw reading are as wide as their longest text, and no wider.
pub proof fn law_columns_fit_the_longest_text(rows: Seq<ReadRow>, i: int)
    requires
        0 <= i < rows.len(),
    ensures
        encode_utf8(rows[i].context@).len() <= context_width(rows),
        encode_utf8(rows[i].name@).len() <= name_width(rows),
        exists|k: int|
            0 <= k < rows.len() && encode_utf8((#[trigger] rows[k]).context@).len()
                == context_width(rows),
        exists|k: int|
            0 <= k < rows.len() && encode_utf8((#[trigger] rows[k]).name@).len() == name_width(
                rows,
            ),
    decreases rows.len(),
{
    let before = rows.drop_last();
    let last: int = rows.len() - 1;
    if before.len() == 0 {
        assert(rows[last].context@ == rows.last().context@);
        assert(encode_utf8(rows[last].context@).len() == context_width(rows));
        assert(encode_utf8(rows[last].name@).len() == name_width(rows));
    } else {
        let j: int = if i < last {
            i
        } else {
            0
        };
        law_columns_fit_the_longest_text(before, j);
        assert(before[j] == rows[j]);
        let c = choose|k: int|
            0 <= k < before.len() && encode_utf8((#[trigger] before[k]).context@).len()
                == context_width(before);
        let n = choose|k: int|
            0 <= k < before.len() && encode_utf8((#[trigger] before[k]).name@).len() == name_width(
                before,
            );
        assert(rows[c] == before[c] && rows[n] == before[n]);
        if encode_utf8(rows.last().context@).len() > context_width(before) {
            assert(encode_utf8(rows[last].context@).len() == context_width(rows));
        }
        if encode_utf8(rows.last().name@).len() > name_width(before) {
            assert(encode_utf8(rows[last].name@).len() == name_width(rows));
        }
    }
}

/// The column of the labels is as wide as the longest of them, and no wider.
pub proof fn law_labels_fit_their_column(rows: Seq<PrettyView>, i: int)
    requires
        0 <= i < rows.len(),
    ensures
        encode_utf8(rows[i].label).len() <= label_width(rows),
        exists|k: int|
            0 <= k < rows.len() && encode_utf8((#[trigger] rows[k]).label).len() == label_width(
                rows,
            ),
    decreases rows.len(),
{
    let before = rows.drop_last();
    let last: int = rows.len() - 1;
    if before.len() == 0 {
        assert(encode_utf8(rows[last].label).len() == label_width(rows));
    } else {
        let j: int = if i < last {
            i
        } else {
            0
        };
        law_labels_fit_their_column(before, j);
        assert(before[j] == rows[j]);
        let c = choose|k: int|
            0 <= k < before.len() && encode_utf8((#[trigger] before[k]).label).len()
                == label_width(before);
        assert(rows[c] == before[c]);
        if encode_utf8(rows.last().label).len() > label_width(before) {
            assert(encode_utf8(rows[last].label).len() == label_width(rows));
        }
    }
}

/// A line shows the label, blanks up to the column of the values, and the value. The
/// label of a place is green, any other as it is.
pub proof fn law_lines_show_labels_and_values(row: PrettyView, width: nat)
    requires
        encode_utf8(row.label).len() <= width,
    ensures
        pretty_line(row, width).len() == 2,
        pretty_line(row, width)[0].1 == row.label,
        pretty_line(row, width)[0].0 == (if row.is_green {
            Some(Tone::Green)
        } else {
            None
        }),
        pretty_line(row, width)[1].0 is None,
        pretty_line(row, width)[1].1.len() == (width - encode_utf8(row.label).len()) + 2
            + row.value.len() + 1,
        forall|i: int|
            0 <= i < (width - encode_utf8(row.label).len()) + 2 ==> #[trigger] pretty_line(
                row,
                width,
            )[1].1[i] == ' ',
        pretty_line(row, width)[1].1.subrange(
            (width - encode_utf8(row.label).len()) + 2,
            (width - encode_utf8(row.label).len()) + 2 + row.value.len(),
        ) == row.value,
        pretty_line(row, width)[1].1.last() == '\n',
{
    reveal_strlit("  ");
    reveal_strlit("\n");
    let n = (width - encode_utf8(row.label).len()) as nat;
    let text = repeated(' ', n) + "  "@ + row.value + "\n"@;
    assert(pretty_line(row, width)[1].1 == text);
    assert(text.subrange(n as int + 2, (n + 2 + row.value.len()) as int) =~= row.value);
}

proof fn lemma_line_is_shown(rows: Seq<PrettyView>, width: nat, i: int)
    requires
        0 <= i < rows.len(),
    ensures
        pretty_lines(rows, width).len() == 2 * rows.len(),
        pretty_lines(rows, width)[2 * i] == pretty_line(rows[i], width)[0],
        pretty_lines(rows, width)[2 * i + 1] == pretty_line(rows[i], width)[1],
    decreases rows.len(),
{
    let before = rows.drop_last();
    if before.len() > 0 {
        let j: int = if i < before.len() {
            i
        } else {
            0
        };
        lemma_line_is_shown(before, width, j);
    } else {
        assert(pretty_lines(before, width).len() == 0);
    }
    assert(pretty_line(rows.last(), width).len() == 2);
}

proof fn lemma_rows_in(rows: Seq<PrettyReadRow>, i: int)
    requires
        0 <= i < rows.len(),
    ensures
        rows_in(rows, rows[i].group).contains(rows[i]@),
    decreases rows.len(),
{
    let group = rows[i].group;
    let all = rows_in(rows, group);
    let before = rows.drop_last();
    if i < before.len() {
        lemma_rows_in(before, i);
        let some = rows_in(before, group);
        let k = choose|k: int| 0 <= k < some.len() && some[k] == before[i]@;
        assert(all[k] == rows[i]@);
    } else {
        assert(all[all.len() - 1] == rows[i]@);
    }
}

proof fn lemma_group_is_shown(rows: Seq<PrettyReadRow>, n: int, r: int, mark: Mark)
    requires
        0 <= r < n,
        group_marks(
            rows,
            group_at(r),
            crate::read_output::none_before(rows, r),
        ).contains(mark),
    ensures
        groups_until(rows, n).contains(mark),
    decreases n,
{
    let before = groups_until(rows, n - 1);
    let own = group_marks(
        rows,
        group_at(n - 1),
        crate::read_output::none_before(rows, n - 1),
    );
    let all = groups_until(rows, n);
    assert(all == before + own);
    if r < n - 1 {
        lemma_group_is_shown(rows, n - 1, r, mark);
        let k = choose|k: int| 0 <= k < before.len() && before[k] == mark;
        assert(all[k] == mark);
    } else {
        let k = choose|k: int| 0 <= k < own.len() && own[k] == mark;
        assert(all[before.len() + k] == mark);
    }
}

/// Every row is shown under the heading of its group: its label, and its value in the
/// column that the group has for values.
pub proof fn law_every_row_is_shown(rows: Seq<PrettyReadRow>, i: int)
    requires
        0 <= i < rows.len(),
    ensures
        all_groups(rows).contains(
            (
                if rows[i].is_green {
                    Some(Tone::Green)
                } else {
                    None
                },
                rows[i].label@,
            ),
        ),
        exists|m: Mark| #[trigger]
            all_groups(rows).contains(m) && m.0 is None && ends_with(m.1, rows[i].value@ + "\n"@),
{
    let row = rows[i]@;
    let group = rows[i].group;
    let own = rows_in(rows, group);
    lemma_rows_in(rows, i);
    let k = choose|k: int| 0 <= k < own.len() && own[k] == row;
    let width = label_width(own);
    let r = group_rank(group);
    assert(group_at(r) == group && 0 <= r < 7);
    let first = crate::read_output::none_before(rows, r);
    let marks = group_marks(rows, group, first);
    let lines = pretty_lines(own, width);
    lemma_line_is_shown(own, width, k);
    let start: int = marks.len() - lines.len();
    assert(marks[start + 2 * k] == lines[2 * k]);
    assert(marks[start + 2 * k + 1] == lines[2 * k + 1]);
    let label = pretty_line(row, width)[0];
    let value = pretty_line(row, width)[1];
    lemma_group_is_shown(rows, 7, r, label);
    lemma_group_is_shown(rows, 7, r, value);
    law_labels_fit_their_column(own, k);
    let n = (width - encode_utf8(row.label).len()) as nat;
    let lead = repeated(' ', n) + "  "@;
    let tail = row.value + "\n"@;
    assert(value.1 =~= lead + tail);
    assert(value.1.subrange(lead.len() as int, (lead.len() + tail.len()) as int) =~= tail);
    assert(all_groups(rows).contains(value));
}

/// A line of a raw reading tells the image, the context, the number, the name and the
/// value of its row; each row has one.
pub proof fn law_raw_rows_have_a_line(rows: Seq<ReadRow>, row: ReadRow, contexts: nat, names: nat)
    ensures
        raw_lines(rows.push(row), contexts, names) == raw_lines(rows, contexts, names).push(
            (None::<Tone>, raw_line(row, contexts, names)),
        ),
        starts_with(raw_line(row, contexts, names), "IFD "@ + decimal(row.ifd as nat) + "  "@
            + row.context@),
        ends_with(raw_line(row, contexts, names), "  "@ + row.value@ + "\n"@),
{
    assert(rows.push(row).drop_last() =~= rows);
    let line = raw_line(row, contexts, names);
    let start = "IFD "@ + decimal(row.ifd as nat) + "  "@ + row.context@;
    assert(line.subrange(0, start.len() as int) =~= start);
    let end = "  "@ + row.value@ + "\n"@;
    assert(line.subrange(line.len() - end.len(), line.len() as int) =~= end);
    assert(raw_lines(rows.push(row), contexts, names) =~= raw_lines(rows, contexts, names).push(
        (None::<Tone>, line),
    ));
}

// ---------------------------------------------------------------------------
// Values
// ---------------------------------------------------------------------------
/// The denominator of an exposure time stands between the slash and the unit.
pub proof fn law_denominators_stand_behind_the_slash(below: Seq<char>)
    ensures
        denominator_of(seq!['1', '/'] + below + seq![' ', 's']) == Some(below),
        below.len() > 0 && below.last() != 's' ==> denominator_of(seq!['1', '/'] + below) == Some(
            below,
        ),
        below.len() > 0 && below[0] != '1' ==> denominator_of(below) is None,
        below.len() > 1 && below[1] != '/' ==> denominator_of(below) is None,
{
    reveal_strlit("1/");
    reveal_strlit(" s");
    assert("1/"@ =~= seq!['1', '/']);
    assert(" s"@ =~= seq![' ', 's']);
    let long = seq!['1', '/'] + below + seq![' ', 's'];
    assert(long.subrange(0, 2) =~= "1/"@);
    let rest = long.skip(2);
    assert(rest =~= below + seq![' ', 's']);
    assert(rest.subrange(rest.len() - 2, rest.len() as int) =~= " s"@);
    assert(rest.take(rest.len() - 2) =~= below);
    let short = seq!['1', '/'] + below;
    assert(short.subrange(0, 2) =~= "1/"@);
    assert(short.skip(2) =~= below);
    if below.len() > 0 && below.last() != 's' && below.len() >= 2 {
        assert(below.subrange(below.len() - 2, below.len() as int)[1] == below.last());
    }
    if below.len() >= 2 {
        assert(below.subrange(0, 2)[0] == below[0]);
        assert(below.subrange(0, 2)[1] == below[1]);
    }
}

/// The speed of a film under its older name is shown unless the newer name tells the
/// same.
pub proof fn law_film_speeds_are_shown_once(
    shown: Shown,
    row: RowView,
    speeds: Seq<Seq<char>>,
    omitted: Seq<char>,
)
    requires
        row.name == "PhotographicSensitivity"@,
        !row.is_unknown,
        row.ifd > 1,
    ensures
        speeds.contains(pretty_value(row, omitted)) ==> with_row(shown, row, speeds, omitted)
            == shown,
        !speeds.contains(pretty_value(row, omitted)) ==> with_row(
            shown,
            row,
            speeds,
            omitted,
        ).rows.len() == shown.rows.len() + 1,
{
    reveal_strlit("PhotographicSensitivity");
    reveal_strlit("GPSLatitudeRef");
    reveal_strlit("GPSLongitudeRef");
    reveal_strlit("StripByteCounts");
    reveal_strlit("StripOffsets");
    assert("PhotographicSensitivity"@.len() == 23);
}

/// The speeds that count are those of rows with the newer name.
pub proof fn law_newer_names_tell_the_speed(rows: Seq<RowView>, row: RowView, omitted: Seq<char>)
    requires
        !row.is_unknown,
    ensures
        row.name == "ISOSpeed"@ ==> iso_speeds(rows.push(row), omitted) == iso_speeds(
            rows,
            omitted,
        ).push(pretty_value(row, omitted)),
        row.name != "ISOSpeed"@ ==> iso_speeds(rows.push(row), omitted) == iso_speeds(
            rows,
            omitted,
        ),
{
    assert(rows.push(row).drop_last() =~= rows);
    reveal_strlit("ISOSpeed");
    reveal_strlit("GPSLatitudeRef");
    reveal_strlit("GPSLongitudeRef");
    reveal_strlit("StripByteCounts");
    reveal_strlit("StripOffsets");
    assert("ISOSpeed"@.len() == 8);
}

/// A row of the thumbnail that tells what the image told already is not shown again;
/// one that tells anything else is.
pub proof fn law_thumbnails_add_what_is_new(
    shown: Shown,
    row: RowView,
    speeds: Seq<Seq<char>>,
    omitted: Seq<char>,
)
    requires
        row.name == "Make"@ || row.name == "Software"@ || row.name == "ExposureTime"@,
        !row.is_unknown,
        row.ifd <= 1,
    ensures
        shown.seen.contains((row.name, row.context, pretty_value(row, omitted))) ==> with_row(
            shown,
            row,
            speeds,
            omitted,
        ) == shown,
        !shown.seen.contains((row.name, row.context, pretty_value(row, omitted))) ==> {
            let after = with_row(shown, row, speeds, omitted);
            &&& after.rows.len() == shown.rows.len() + 1
            &&& after.rows.last().label == row.pretty_name
            &&& after.rows.last().value == pretty_value(row, omitted)
            &&& !after.rows.last().is_green
            &&& after.seen.contains((row.name, row.context, pretty_value(row, omitted)))
        },
{
    reveal_strlit("Make");
    reveal_strlit("Software");
    reveal_strlit("ExposureTime");
    reveal_strlit("PhotographicSensitivity");
    reveal_strlit("GPSLatitudeRef");
    reveal_strlit("GPSLongitudeRef");
    reveal_strlit("StripByteCounts");
    reveal_strlit("StripOffsets");
    assert("Make"@.len() == 4 && "Software"@.len() == 8);
    assert("ExposureTime"@[0] == 'E' && "StripOffsets"@[0] == 'S');
    let key = (row.name, row.context, pretty_value(row, omitted));
    let after = with_row(shown, row, speeds, omitted);
    if !shown.seen.contains(key) {
        assert(after.seen.last() == key);
        assert(after.seen.contains(after.seen.last()));
    }
}

/// The size of a value is that of its texts together, of its bytes, or the count of its
/// parts.
pub proof fn law_values_are_measured(
    texts: Seq<Seq<u8>>,
    text: Seq<u8>,
    bytes: Seq<u8>,
    quotients: Seq<(u32, u32)>,
    count: nat,
)
    ensures
        payload_len(ValueView::Ascii(texts.push(text))) == payload_len(ValueView::Ascii(texts))
            + text.len(),
        payload_len(ValueView::Ascii(Seq::empty())) == 0,
        payload_len(ValueView::Undefined(bytes)) == bytes.len(),
        payload_len(ValueView::Rational(quotients)) == quotients.len(),
        payload_len(ValueView::Other(count)) == count,
{
    assert(texts.push(text).drop_last() =~= texts);
}

/// A long value of an unknown tag is left out of a pretty reading only.
pub proof fn law_long_values_are_left_out(field: FieldView, omitted: Seq<char>)
    ensures
        payload_len(field.value) > 120 ==> unknown_value(field, ReadFormat::Pretty, omitted)
            == omitted,
        payload_len(field.value) <= 120 ==> unknown_value(field, ReadFormat::Pretty, omitted)
            == field.debug,
        unknown_value(field, ReadFormat::Raw, omitted) == field.debug,
{
}

/// What stands for a value that was left out says how to see it.
pub proof fn law_omissions_say_how_to_see_the_value(text: Seq<char>)
    requires
        is_omitted_message(text),
    ensures
        ends_with(text, " (use `--format raw` to view)"@),
        text == "<long value omitted>"@ + " (use `--format raw` to view)"@ || starts_with(
            text,
            "\x1b[33m"@,
        ),
{
    let hint = " (use `--format raw` to view)"@;
    assert(text.subrange(text.len() - hint.len(), text.len() as int) =~= hint);
    let on = "\x1b[33m"@;
    if text == coloured(Tone::Yellow, "<long value omitted>"@) + hint {
        assert(text.subrange(0, on.len() as int) =~= on);
    }
}

/// A pretty reading has a row for every field but the comments that carry custom tags;
/// a raw one for those too.
pub proof fn law_comments_with_tags_are_told_apart(
    fields: Seq<FieldView>,
    figures: Seq<FieldFigures>,
    n: int,
    omitted: Seq<char>,
)
    requires
        0 < n <= fields.len(),
    ensures
        is_payload_field(fields[n - 1]) ==> rows_of_fields(
            fields,
            figures,
            n,
            ReadFormat::Pretty,
            omitted,
        ) == rows_of_fields(fields, figures, n - 1, ReadFormat::Pretty, omitted),
        !is_payload_field(fields[n - 1]) ==> {
            let rows = rows_of_fields(fields, figures, n, ReadFormat::Pretty, omitted);
            &&& rows.drop_last() == rows_of_fields(
                fields,
                figures,
                n - 1,
                ReadFormat::Pretty,
                omitted,
            )
            &&& rows.last().tag_id == fields[n - 1].number
        },
        fields[n - 1].number != 0x9286 ==> !is_payload_field(fields[n - 1]),
{
    let before = rows_of_fields(fields, figures, n - 1, ReadFormat::Pretty, omitted);
    let rows = rows_of_fields(fields, figures, n, ReadFormat::Pretty, omitted);
    if !is_payload_field(fields[n - 1]) {
        assert(rows.drop_last() =~= before);
    }
}

// ---------------------------------------------------------------------------
// Order
// ---------------------------------------------------------------------------
proof fn lemma_before_at(a: Seq<char>, b: Seq<char>, n: int)
    requires
        0 <= n < a.len(),
        n < b.len(),
        a.take(n) == b.take(n),
        (a[n] as int) < (b[n] as int),
    ensures
        text_before(a, b),
    decreases n,
{
    if n > 0 {
        assert(a[0] == a.take(n)[0] && b[0] == b.take(n)[0]);
        let x = a.skip(1);
        let y = b.skip(1);
        assert(x.take(n - 1) =~= a.take(n).skip(1));
        assert(y.take(n - 1) =~= b.take(n).skip(1));
        lemma_before_at(x, y, n - 1);
    }
}

/// The nearest places come before the nearest city.
pub proof fn law_nearest_places_come_before_the_city(suffix: Seq<char>)
    ensures
        text_before(
            sort_label("GPS Nearest Location "@ + suffix),
            sort_label("GPS Nearest City"@),
        ),
{
    reveal_strlit("GPS Nearest Location ");
    reveal_strlit("GPS Nearest City");
    reveal_strlit("GPS Nearest 0 Location ");
    reveal_strlit("GPS Nearest 1 City");
    let place = "GPS Nearest Location "@ + suffix;
    let lead = "GPS Nearest Location "@;
    assert(place.subrange(0, lead.len() as int) =~= lead);
    assert(place.skip(lead.len() as int) =~= suffix);
    let a = "GPS Nearest 0 Location "@ + suffix;
    let b = "GPS Nearest 1 City"@;
    assert(sort_label(place) == a);
    assert(sort_label("GPS Nearest City"@) == b);
    assert(a.take(12) =~= b.take(12));
    lemma_before_at(a, b, 12);
}

/// Texts are in the order of their first characters that differ, and a text comes
/// before those that it starts.
pub proof fn law_texts_are_ordered_by_their_characters(
    start: Seq<char>,
    a: Seq<char>,
    b: Seq<char>,
    x: char,
    y: char,
)
    requires
        (x as int) < (y as int),
    ensures
        text_before(start + seq![x] + a, start + seq![y] + b),
        !text_before(start + seq![y] + b, start + seq![x] + a),
        text_before(start, start + seq![x] + a),
        !text_before(start + seq![x] + a, start),
    decreases start.len(),
{
    let first = start + seq![x] + a;
    let second = start + seq![y] + b;
    if start.len() > 0 {
        let rest = start.skip(1);
        assert(first.skip(1) =~= rest + seq![x] + a);
        assert(second.skip(1) =~= rest + seq![y] + b);
        assert(first[0] == start[0] && second[0] == start[0]);
        law_texts_are_ordered_by_their_characters(rest, a, b, x, y);
    } else {
        assert(first[0] == x && second[0] == y);
    }
}

// ---------------------------------------------------------------------------
// Warnings
// ---------------------------------------------------------------------------
/// A reading without warnings is left as it is, and each warning has a line of its own.
pub proof fn law_warnings_of_a_reading_have_lines(
    text: Seq<char>,
    warnings: Seq<Seq<char>>,
    warning: Seq<char>,
)
    ensures
        with_read_warnings(text, Seq::empty()) == text,
        read_warning_lines(warnings.push(warning)) == read_warning_lines(warnings) + "warning: "@
            + warning + "\n"@,
        warnings.len() > 0 ==> with_read_warnings(text, warnings) == crate::text::trim_end(
            text + "\n\nWarnings:\n"@ + read_warning_lines(warnings),
        ),
{
    assert(warnings.push(warning).drop_last() =~= warnings);
}

/// A search that failed is warned about, and only such a one.
pub proof fn law_failed_searches_are_warned_about(nearest: NearestPlaces)
    ensures
        search_warnings(None).len() == 0,
        nearest.locations is Ok && nearest.city is Ok ==> search_warnings(Some(nearest)).len() == 0,
        nearest.locations is Err ==> search_warnings(Some(nearest))[0]
            == "failed to query nearest locations: "@ + nearest.locations->Err_0@,
        nearest.city is Err ==> search_warnings(Some(nearest)).last()
            == "failed to query nearest city: "@ + nearest.city->Err_0@,
        search_warnings(Some(nearest)).len() == (if nearest.locations is Err {
            1int
        } else {
            0
        }) + (if nearest.city is Err {
            1int
        } else {
            0
        }),
{
}

// ---------------------------------------------------------------------------
// Files
// ---------------------------------------------------------------------------
/// What is told of a file: its name, its directory, its size, the times that are
/// known, its permissions and its kind.
pub proof fn law_files_are_described(
    image: FilePath,
    facts: FileFacts,
    kind: FileKind,
    little_endian: bool,
)
    ensures
        ({
            let rows = file_rows(image, facts, kind, little_endian);
            let n = rows.len();
            &&& n == 8 + (if facts.modified is Some {
                1int
            } else {
                0
            }) + (if facts.accessed is Some {
                1int
            } else {
                0
            }) + (if facts.created is Some {
                1int
            } else {
                0
            })
            &&& rows[0] == ("File Name"@, name_of(image))
            &&& rows[1] == ("Directory"@, directory_of(image))
            &&& rows[2].0 == "File Size"@
            &&& facts.modified is Some ==> rows[3] == (
                "File Modification Date/Time"@,
                facts.modified->Some_0@,
            )
            &&& facts.created is Some ==> rows[n - 6] == (
                "File Creation Date/Time"@,
                facts.created->Some_0@,
            )
            &&& facts.accessed is Some && facts.modified is Some ==> rows[4] == (
                "File Access Date/Time"@,
                facts.accessed->Some_0@,
            )
            &&& rows[n - 5] == ("File Permissions"@, facts.permissions@)
            &&& rows[n - 4] == ("File Type"@, kind.file_type@)
            &&& rows[n - 3] == ("File Type Extension"@, kind.extension@)
            &&& rows[n - 2] == ("MIME Type"@, kind.mime_type@)
            &&& rows[n - 1].0 == "Exif Byte Order"@
        }),
{
}

} // verus!
