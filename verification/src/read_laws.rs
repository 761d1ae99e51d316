//! What holds of everything that a reading shows.

use crate::cli::ReadFormat;
use crate::double::file_size_text;
use crate::exif_data::{FieldView, ValueView};
use crate::labels::{group_at, group_label, group_rank, tag_group, PrettyReadGroup};
use crate::location::{
    candidate_query_text, first_of, is_enough, same_place, ByDistance, GeoLocation,
};
use crate::order::{law_stable_sorted_is_ordered_permutation, stable_sorted, Ranking};
use crate::payload::{comment_bytes, CustomView};
use crate::read_output::{
    iso_speeds, nearest_rows, new_place_rows, numbered_rows, pretty_rows_of, pretty_value,
    rows_of_fields, with_row, with_rows, FieldFigures, NearestPlaces, PrettyView, RowKey, Shown,
};
use crate::rows::{
    byte_order_text, class_text, comment_text, known_value, permissions_text, row_of, ByTag,
    InfoView, ReadRow, RowView,
};
use crate::text::{contains_text, decimal, hex4, stands_at};
use vstd::prelude::*;
use vstd::utf8::*;

verus! {

// ---------------------------------------------------------------------------
// Values
// ---------------------------------------------------------------------------
/// An exposure time is shown without its unit.
pub proof fn law_exposure_times_lose_their_unit(field: FieldView, bare: Seq<char>)
    requires
        field.name == "ExposureTime"@,
        field.shown == bare + seq![' ', 's'],
    ensures
        known_value(field) == bare,
{
    reveal_strlit(" s");
    reveal_strlit("ExposureTime");
    reveal_strlit("UserComment");
    assert("UserComment"@.len() != "ExposureTime"@.len());
    assert(" s"@ =~= seq![' ', 's']);
    assert(field.shown.subrange(bare.len() as int, field.shown.len() as int) =~= " s"@);
    assert(field.shown.take(bare.len() as int) =~= bare);
}

/// Any other value but a user comment is shown as it is.
pub proof fn law_other_values_are_shown_as_they_are(field: FieldView)
    requires
        field.name != "UserComment"@,
        field.name != "ExposureTime"@,
    ensures
        known_value(field) == field.shown,
{
}

/// A user comment is shown as the text that it holds, with or without the mark for
/// ASCII text before it.
pub proof fn law_comments_are_shown_as_text(field: FieldView, bytes: Seq<u8>, text: Seq<char>)
    requires
        field.name == "UserComment"@,
        field.value == ValueView::Undefined(bytes),
        bytes == encode_utf8("ASCII\0\0\0"@) + encode_utf8(text) || (bytes == encode_utf8(text)
            && !(encode_utf8("ASCII\0\0\0"@).len() <= bytes.len() && bytes.take(
            encode_utf8("ASCII\0\0\0"@).len() as int,
        ) == encode_utf8("ASCII\0\0\0"@))),
    ensures
        known_value(field) == text,
{
    let prefix = encode_utf8("ASCII\0\0\0"@);
    encode_utf8_valid_utf8(text);
    encode_utf8_decode_utf8(text);
    assert(comment_bytes(field.value) == Some(bytes));
    if bytes == prefix + encode_utf8(text) {
        assert(bytes.subrange(0, prefix.len() as int) =~= prefix);
        assert(bytes.skip(prefix.len() as int) =~= encode_utf8(text));
    } else if prefix.len() <= bytes.len() {
        assert(bytes.subrange(0, prefix.len() as int) =~= bytes.take(prefix.len() as int));
    }
    assert(comment_text(field.value) == Some(text));
}

/// The row of a known tag tells its name and its value, and before that the
/// coordinate in decimal degrees where the field gives one.
pub proof fn law_rows_tell_names_and_values(
    field: FieldView,
    decimal: Option<Seq<char>>,
    rounded: Option<Seq<char>>,
    format: ReadFormat,
    omitted: Seq<char>,
)
    requires
        field.is_described,
        !(field.value is Unknown),
    ensures
        !row_of(field, decimal, rounded, format, omitted).is_unknown,
        row_of(field, decimal, rounded, format, omitted).name == field.name,
        row_of(field, decimal, rounded, format, omitted).tag_id == field.number,
        row_of(field, decimal, rounded, format, omitted).ifd == field.ifd,
        row_of(field, decimal, rounded, format, omitted).context == field.context_name,
        row_of(field, decimal, rounded, format, omitted).value == (match decimal {
            Some(degrees) => seq!['('] + degrees + seq![')', ' '] + known_value(field),
            None => known_value(field),
        }),
{
    reveal_strlit("(");
    reveal_strlit(") ");
    assert("("@ =~= seq!['(']);
    assert(") "@ =~= seq![')', ' ']);
}

/// The row of a tag that is not known tells its number. Its value is shown whole in a
/// raw reading, and in a pretty one where it is not long.
pub proof fn law_unknown_tags_tell_their_number(
    field: FieldView,
    decimal: Option<Seq<char>>,
    rounded: Option<Seq<char>>,
    omitted: Seq<char>,
)
    requires
        !field.is_described || field.value is Unknown,
    ensures
        row_of(field, decimal, rounded, ReadFormat::Raw, omitted).is_unknown,
        row_of(field, decimal, rounded, ReadFormat::Pretty, omitted).is_unknown,
        row_of(field, decimal, rounded, ReadFormat::Raw, omitted).name == "Tag("@
            + field.context_name + ", 0x"@ + hex4(field.number) + ")"@,
        row_of(field, decimal, rounded, ReadFormat::Raw, omitted).value == field.debug,
        match field.value {
            ValueView::Undefined(bytes) => row_of(
                field,
                decimal,
                rounded,
                ReadFormat::Pretty,
                omitted,
            ).value == (if bytes.len() > 120 {
                omitted
            } else {
                field.debug
            }),
            ValueView::Unknown(count) => row_of(
                field,
                decimal,
                rounded,
                ReadFormat::Pretty,
                omitted,
            ).value == (if count > 120 {
                omitted
            } else {
                field.debug
            }),
            _ => true,
        },
{
}

/// A pretty reading shows a text without the quotes around it, and a value as it is
/// where there are none; a very long value is left out.
pub proof fn law_texts_lose_their_quotes(row: RowView, text: Seq<char>, omitted: Seq<char>)
    requires
        !row.is_unknown,
        row.name != "ExposureTime"@,
        text.len() <= 1998,
    ensures
        row.value == seq!['"'] + text + seq!['"'] ==> pretty_value(row, omitted) == text,
        row.value == text && (text.len() == 0 || text[0] != '"') ==> pretty_value(row, omitted)
            == text,
        row.value.len() > 2000 ==> pretty_value(row, omitted) == omitted,
{
    reveal_strlit("\"");
    assert("\""@ =~= seq!['"']);
    if row.value == seq!['"'] + text + seq!['"'] {
        let value = row.value;
        assert(value.subrange(0, 1) =~= "\""@);
        let rest = value.skip(1);
        assert(rest =~= text + seq!['"']);
        assert(rest.subrange(rest.len() - 1, rest.len() as int) =~= "\""@);
        assert(rest.take(rest.len() - 1) =~= text);
    }
    if row.value == text && (text.len() == 0 || text[0] != '"') && text.len() > 0 {
        assert(text.subrange(0, 1)[0] == text[0]);
    }
}

/// A pretty reading shows an exposure time below a second as one over the rounded
/// denominator.
pub proof fn law_short_exposures_are_rounded(
    row: RowView,
    below: Seq<char>,
    rounded: Seq<char>,
    omitted: Seq<char>,
)
    requires
        row.name == "ExposureTime"@,
        row.value == seq!['1', '/'] + below,
        row.value.len() <= 120,
        row.rounded_denominator == Some(rounded),
    ensures
        pretty_value(row, omitted) == seq!['1', '/'] + rounded,
{
    reveal_strlit("1/");
    assert("1/"@ =~= seq!['1', '/']);
    assert(row.value.subrange(0, 2) =~= "1/"@);
}

// ---------------------------------------------------------------------------
// Rows
// ---------------------------------------------------------------------------
/// Whether a row is one that a pretty reading is to show.
pub open spec fn is_to_be_shown(row: RowView) -> bool {
    &&& !row.is_unknown
    &&& row.name != "GPSLatitudeRef"@
    &&& row.name != "GPSLongitudeRef"@
    &&& row.name != "StripByteCounts"@
    &&& row.name != "StripOffsets"@
}

/// The rows of unknown tags, of the sides of coordinates and of the strips of an
/// image are not shown in a pretty reading.
pub proof fn law_some_rows_are_not_shown(
    shown: Shown,
    row: RowView,
    speeds: Seq<Seq<char>>,
    omitted: Seq<char>,
)
    requires
        row.is_unknown || row.name == "GPSLatitudeRef"@ || row.name == "GPSLongitudeRef"@
            || row.name == "StripByteCounts"@ || row.name == "StripOffsets"@,
    ensures
        with_row(shown, row, speeds, omitted) == shown,
{
}

/// Whether what is shown holds a row for a label and a value.
pub open spec fn tells(rows: Seq<PrettyView>, label: Seq<char>, value: Seq<char>) -> bool {
    exists|k: int|
        0 <= k < rows.len() && (#[trigger] rows[k]).label == label && rows[k].value == value
}

proof fn lemma_tells_more(rows: Seq<PrettyView>, row: PrettyView, label: Seq<char>, value: Seq<char>)
    requires
        tells(rows, label, value),
    ensures
        tells(rows.push(row), label, value),
{
    let k = choose|k: int|
        0 <= k < rows.len() && (#[trigger] rows[k]).label == label && rows[k].value == value;
    assert(rows.push(row)[k] == rows[k]);
}

/// Whether every key that was seen is told.
spec fn tells_seen(shown: Shown, rows: Seq<RowView>) -> bool {
    forall|s: int, i: int|
        #![trigger shown.seen[s], rows[i]]
        0 <= s < shown.seen.len() && 0 <= i < rows.len() && shown.seen[s].0 == rows[i].name
            ==> tells(shown.rows, rows[i].pretty_name, shown.seen[s].2)
}

proof fn lemma_rows_are_told(
    start: Shown,
    rows: Seq<RowView>,
    n: int,
    speeds: Seq<Seq<char>>,
    omitted: Seq<char>,
)
    requires
        0 <= n <= rows.len(),
        start.seen.len() == 0,
        forall|i: int, j: int|
            #![trigger rows[i], rows[j]]
            0 <= i < rows.len() && 0 <= j < rows.len() && rows[i].name == rows[j].name
                ==> rows[i].pretty_name == rows[j].pretty_name,
    ensures
        tells_seen(with_rows(start, rows.take(n), speeds, omitted), rows),
        forall|i: int|
            0 <= i < n && is_to_be_shown(#[trigger] rows[i]) && !(rows[i].name
                == "PhotographicSensitivity"@ && speeds.contains(pretty_value(rows[i], omitted)))
                ==> tells(
                with_rows(start, rows.take(n), speeds, omitted).rows,
                rows[i].pretty_name,
                pretty_value(rows[i], omitted),
            ),
        forall|k: int|
            0 <= k < start.rows.len() ==> tells(
                with_rows(start, rows.take(n), speeds, omitted).rows,
                (#[trigger] start.rows[k]).label,
                start.rows[k].value,
            ),
    decreases n,
{
    let after = with_rows(start, rows.take(n), speeds, omitted);
    if n == 0 {
        assert(after == start);
        assert forall|k: int| 0 <= k < start.rows.len() implies tells(
            after.rows,
            (#[trigger] start.rows[k]).label,
            start.rows[k].value,
        ) by {}
    } else {
        lemma_rows_are_told(start, rows, n - 1, speeds, omitted);
        let before = with_rows(start, rows.take(n - 1), speeds, omitted);
        let row = rows[n - 1];
        let value = pretty_value(row, omitted);
        assert(rows.take(n).drop_last() =~= rows.take(n - 1));
        assert(rows.take(n).last() == row);
        assert(after == with_row(before, row, speeds, omitted));
        if after != before {
            let added = after.rows.last();
            assert(after.rows == before.rows.push(added));
            assert(added.label == row.pretty_name && added.value == value);
            assert(after.rows[before.rows.len() as int] == added);
            assert(tells(after.rows, row.pretty_name, value));
            assert forall|s: int, i: int|
                #![trigger after.seen[s], rows[i]]
                0 <= s < after.seen.len() && 0 <= i < rows.len() && after.seen[s].0
                    == rows[i].name implies tells(
                after.rows,
                rows[i].pretty_name,
                after.seen[s].2,
            ) by {
                if s < before.seen.len() {
                    assert(after.seen[s] == before.seen[s]);
                    lemma_tells_more(before.rows, added, rows[i].pretty_name, after.seen[s].2);
                } else {
                    assert(rows[i].pretty_name == row.pretty_name);
                }
            }
            assert forall|i: int|
                0 <= i < n && is_to_be_shown(#[trigger] rows[i]) && !(rows[i].name
                    == "PhotographicSensitivity"@ && speeds.contains(
                    pretty_value(rows[i], omitted),
                )) implies tells(
                after.rows,
                rows[i].pretty_name,
                pretty_value(rows[i], omitted),
            ) by {
                if i < n - 1 {
                    lemma_tells_more(
                        before.rows,
                        added,
                        rows[i].pretty_name,
                        pretty_value(rows[i], omitted),
                    );
                }
            }
            assert forall|k: int| 0 <= k < start.rows.len() implies tells(
                after.rows,
                (#[trigger] start.rows[k]).label,
                start.rows[k].value,
            ) by {
                lemma_tells_more(before.rows, added, start.rows[k].label, start.rows[k].value);
            }
        } else if is_to_be_shown(row) && !(row.name == "PhotographicSensitivity"@
            && speeds.contains(value)) {
            let key: RowKey = (row.name, row.context, value);
            if before.seen.contains(key) {
                let s = choose|s: int| 0 <= s < before.seen.len() && before.seen[s] == key;
                assert(before.seen[s].0 == rows[n - 1].name);
            } else {
                assert(after.rows.len() == before.rows.len() + 1);
            }
        }
    }
}

/// A pretty reading loses nothing: every row that is to be shown is told by its label
/// and its value, unless it only repeats the speed of the film; so is everything on
/// the file, and every custom tag under its title.
pub proof fn law_pretty_readings_lose_nothing(
    info: Seq<InfoView>,
    rows: Seq<RowView>,
    custom: Seq<CustomView>,
    omitted: Seq<char>,
    i: int,
)
    requires
        forall|i: int, j: int|
            #![trigger rows[i], rows[j]]
            0 <= i < rows.len() && 0 <= j < rows.len() && rows[i].name == rows[j].name
                ==> rows[i].pretty_name == rows[j].pretty_name,
    ensures
        0 <= i < rows.len() && is_to_be_shown(rows[i]) && rows[i].name
            != "PhotographicSensitivity"@ ==> tells(
            pretty_rows_of(info, rows, custom, omitted),
            rows[i].pretty_name,
            pretty_value(rows[i], omitted),
        ),
        0 <= i < info.len() ==> tells(
            pretty_rows_of(info, rows, custom, omitted),
            info[i].0,
            info[i].1,
        ),
        0 <= i < custom.len() ==> tells(
            pretty_rows_of(info, rows, custom, omitted),
            crate::labels::title_of(custom[i].0),
            crate::payload::value_label(custom[i].1),
        ),
{
    let own = info.map_values(|row: InfoView| crate::read_output::info_row(row));
    let more = custom.map_values(|tag: CustomView| crate::read_output::custom_row(tag));
    let start = Shown { rows: own, seen: Seq::empty() };
    let speeds = iso_speeds(rows, omitted);
    let shown = with_rows(start, rows, speeds, omitted);
    let all = pretty_rows_of(info, rows, custom, omitted);
    lemma_rows_are_told(start, rows, rows.len() as int, speeds, omitted);
    assert(rows.take(rows.len() as int) =~= rows);
    assert(all == shown.rows + more);
    if 0 <= i < rows.len() && is_to_be_shown(rows[i]) && rows[i].name
        != "PhotographicSensitivity"@ {
        lemma_tells_behind(
            shown.rows,
            more,
            rows[i].pretty_name,
            pretty_value(rows[i], omitted),
        );
    }
    if 0 <= i < info.len() {
        assert(own[i].label == info[i].0);
        lemma_tells_behind(shown.rows, more, info[i].0, info[i].1);
    }
    if 0 <= i < custom.len() {
        assert(all[shown.rows.len() + i] == more[i]);
    }
}

proof fn lemma_tells_behind(
    rows: Seq<PrettyView>,
    more: Seq<PrettyView>,
    label: Seq<char>,
    value: Seq<char>,
)
    requires
        tells(rows, label, value),
    ensures
        tells(rows + more, label, value),
{
    let k = choose|k: int|
        0 <= k < rows.len() && (#[trigger] rows[k]).label == label && rows[k].value == value;
    assert((rows + more)[k] == rows[k]);
}

/// A raw reading has a row for every field.
pub proof fn law_raw_readings_show_every_field(
    fields: Seq<FieldView>,
    figures: Seq<FieldFigures>,
    n: int,
    omitted: Seq<char>,
)
    requires
        0 <= n <= fields.len(),
    ensures
        rows_of_fields(fields, figures, n, ReadFormat::Raw, omitted).len() == n,
        forall|i: int|
            0 <= i < n ==> (#[trigger] rows_of_fields(
                fields,
                figures,
                n,
                ReadFormat::Raw,
                omitted,
            )[i]).tag_id == fields[i].number,
    decreases n,
{
    if n > 0 {
        law_raw_readings_show_every_field(fields, figures, n - 1, omitted);
    }
}

/// Rows are listed by image, and those of one image and directory by number.
pub proof fn law_rows_are_in_order(rows: Seq<ReadRow>, i: int, j: int)
    requires
        0 <= i < j < rows.len(),
        stable_sorted::<ReadRow, ByTag>(rows)[i].is_unknown == stable_sorted::<ReadRow, ByTag>(
            rows,
        )[j].is_unknown,
    ensures
        stable_sorted::<ReadRow, ByTag>(rows)[i].ifd <= stable_sorted::<ReadRow, ByTag>(rows)[j].ifd,
        stable_sorted::<ReadRow, ByTag>(rows)[i].ifd == stable_sorted::<ReadRow, ByTag>(rows)[j].ifd
            && stable_sorted::<ReadRow, ByTag>(rows)[i].context@ == stable_sorted::<
            ReadRow,
            ByTag,
        >(rows)[j].context@ ==> stable_sorted::<ReadRow, ByTag>(rows)[i].tag_id
            <= stable_sorted::<ReadRow, ByTag>(rows)[j].tag_id,
{
    law_stable_sorted_is_ordered_permutation::<ReadRow, ByTag>(rows);
    let sorted = stable_sorted::<ReadRow, ByTag>(rows);
    assert(!ByTag::before(&sorted[j], &sorted[i]));
}

// ---------------------------------------------------------------------------
// Groups
// ---------------------------------------------------------------------------
/// The groups come in one order: the file, the camera, the film, the exposure, the
/// position, the custom tags, and the rest; each is headed by its name.
pub proof fn law_groups_have_an_order(group: PrettyReadGroup)
    ensures
        group_at(group_rank(group)) == group,
        group_rank(PrettyReadGroup::File) < group_rank(PrettyReadGroup::Camera) < group_rank(
            PrettyReadGroup::Film,
        ) < group_rank(PrettyReadGroup::Exposure) < group_rank(PrettyReadGroup::Gps) < group_rank(
            PrettyReadGroup::Custom,
        ) < group_rank(PrettyReadGroup::Misc),
        0 <= group_rank(group) < 7,
        group_label(group) == (match group {
            PrettyReadGroup::File => "file"@,
            PrettyReadGroup::Camera => "camera"@,
            PrettyReadGroup::Film => "film"@,
            PrettyReadGroup::Exposure => "exposure"@,
            PrettyReadGroup::Gps => "gps"@,
            PrettyReadGroup::Custom => "custom"@,
            PrettyReadGroup::Misc => "misc"@,
        }),
{
}

/// Everything that EXIF files with the position belongs to its group.
pub proof fn law_positions_have_their_group(name: Seq<char>, title: Seq<char>)
    ensures
        tag_group("Gps"@, name, title) == PrettyReadGroup::Gps,
{
}

// ---------------------------------------------------------------------------
// Places
// ---------------------------------------------------------------------------
/// The nearest places are listed by distance, and no place that is left out is nearer
/// than one that is shown.
pub proof fn law_places_are_listed_by_distance(
    candidates: Seq<GeoLocation>,
    limit: nat,
    i: int,
    j: int,
)
    requires
        0 <= i < j < candidates.len(),
    ensures
        first_of(stable_sorted::<GeoLocation, ByDistance>(candidates), limit).len() == (if limit
            < candidates.len() {
            limit
        } else {
            candidates.len()
        }),
        stable_sorted::<GeoLocation, ByDistance>(candidates)[i].distance_rank <= stable_sorted::<
            GeoLocation,
            ByDistance,
        >(candidates)[j].distance_rank,
        i < first_of(stable_sorted::<GeoLocation, ByDistance>(candidates), limit).len()
            ==> first_of(stable_sorted::<GeoLocation, ByDistance>(candidates), limit)[i]
            == stable_sorted::<GeoLocation, ByDistance>(candidates)[i],
{
    law_stable_sorted_is_ordered_permutation::<GeoLocation, ByDistance>(candidates);
    let sorted = stable_sorted::<GeoLocation, ByDistance>(candidates);
    sorted.to_multiset_ensures();
    candidates.to_multiset_ensures();
    assert(!ByDistance::before(&sorted[j], &sorted[i]));
}

proof fn lemma_numbered_rows(prefix: Seq<char>, locations: Seq<GeoLocation>, i: int)
    requires
        0 <= i < locations.len(),
    ensures
        numbered_rows(prefix, locations).len() == locations.len(),
        numbered_rows(prefix, locations)[i].label == prefix + " "@ + decimal((i + 1) as nat),
        numbered_rows(prefix, locations)[i].value == "("@ + locations[i].distance@ + ") "@
            + locations[i].name@ + ", "@ + locations[i].country_code@,
        numbered_rows(prefix, locations)[i].group == PrettyReadGroup::Gps,
    decreases locations.len(),
{
    let before = locations.drop_last();
    if i < before.len() {
        lemma_numbered_rows(prefix, before, i);
        assert(before[i] == locations[i]);
    } else {
        lemma_numbered_len(prefix, before);
    }
}

proof fn lemma_numbered_len(prefix: Seq<char>, locations: Seq<GeoLocation>)
    ensures
        numbered_rows(prefix, locations).len() == locations.len(),
    decreases locations.len(),
{
    if locations.len() > 0 {
        lemma_numbered_len(prefix, locations.drop_last());
    }
}

/// The places nearest to a position are shown in their order, numbered from one, each
/// with its distance, its name and its country.
pub proof fn law_nearest_places_are_numbered(nearest: NearestPlaces, i: int)
    requires
        nearest.locations is Ok,
        0 <= i < nearest.locations->Ok_0@.len(),
    ensures
        nearest_rows(Some(nearest)).len() >= nearest.locations->Ok_0@.len(),
        nearest_rows(Some(nearest))[i].label == "GPS Nearest Location"@ + " "@ + decimal(
            (i + 1) as nat,
        ),
        nearest_rows(Some(nearest))[i].value == "("@ + nearest.locations->Ok_0@[i].distance@
            + ") "@ + nearest.locations->Ok_0@[i].name@ + ", "@
            + nearest.locations->Ok_0@[i].country_code@,
{
    lemma_numbered_rows("GPS Nearest Location"@, nearest.locations->Ok_0@, i);
}

/// The nearest city is shown unless it is listed already.
pub proof fn law_new_cities_are_shown(label: Seq<char>, city: GeoLocation, others: Seq<GeoLocation>)
    ensures
        (forall|i: int|
            0 <= i < others.len() ==> (#[trigger] others[i]).name@ != city.name@) ==> {
            let rows = new_place_rows(label, seq![city], others);
            &&& rows.len() == 1
            &&& rows[0].label == label
        },
        others.contains(city) ==> new_place_rows(label, seq![city], others).len() == 0,
{
    reveal_with_fuel(new_place_rows, 2);
    assert(seq![city].drop_last() =~= Seq::empty());
    if others.contains(city) {
        let i = choose|i: int| 0 <= i < others.len() && others[i] == city;
        assert(crate::location::same_place(others[i], city));
    }
}

proof fn lemma_class(bits: nat)
    ensures
        class_text(bits % 8).len() == 3,
        class_text(bits % 8)[0] == 'r' <==> bits / 4 % 2 == 1,
        class_text(bits % 8)[1] == 'w' <==> bits / 2 % 2 == 1,
        class_text(bits % 8)[2] == 'x' <==> bits % 2 == 1,
{
    assert((bits % 8) / 4 % 2 == bits / 4 % 2);
    assert((bits % 8) / 2 % 2 == bits / 2 % 2);
    assert((bits % 8) % 2 == bits % 2);
}

// ---------------------------------------------------------------------------
// The file
// ---------------------------------------------------------------------------
/// The permissions of a file tell its mode, bit by bit: for the owner, the group and
/// all others whether they may read, write and execute it.
pub proof fn law_permissions_tell_the_mode(mode: nat, is_directory: bool)
    ensures
        permissions_text(mode, is_directory).len() == 10,
        permissions_text(mode, is_directory)[0] == 'd' <==> is_directory,
        permissions_text(mode, is_directory)[1] == 'r' <==> mode / 256 % 2 == 1,
        permissions_text(mode, is_directory)[2] == 'w' <==> mode / 128 % 2 == 1,
        permissions_text(mode, is_directory)[3] == 'x' <==> mode / 64 % 2 == 1,
        permissions_text(mode, is_directory)[4] == 'r' <==> mode / 32 % 2 == 1,
        permissions_text(mode, is_directory)[5] == 'w' <==> mode / 16 % 2 == 1,
        permissions_text(mode, is_directory)[6] == 'x' <==> mode / 8 % 2 == 1,
        permissions_text(mode, is_directory)[7] == 'r' <==> mode / 4 % 2 == 1,
        permissions_text(mode, is_directory)[8] == 'w' <==> mode / 2 % 2 == 1,
        permissions_text(mode, is_directory)[9] == 'x' <==> mode % 2 == 1,
{
    lemma_class(mode / 64);
    lemma_class(mode / 8);
    lemma_class(mode);
    assert(mode / 64 / 4 == mode / 256);
    assert(mode / 64 / 2 == mode / 128);
    assert(mode / 8 / 4 == mode / 32);
    assert(mode / 8 / 2 == mode / 16);
    let owner = class_text(mode / 64 % 8);
    let group = class_text(mode / 8 % 8);
    let others = class_text(mode % 8);
    let text = permissions_text(mode, is_directory);
    assert(text[1] == owner[0] && text[2] == owner[1] && text[3] == owner[2]);
    assert(text[4] == group[0] && text[5] == group[1] && text[6] == group[2]);
    assert(text[7] == others[0] && text[8] == others[1] && text[9] == others[2]);
}

/// A file below a thousand bytes is shown with its size in bytes.
pub proof fn law_small_files_are_counted_in_bytes(bytes: nat)
    requires
        bytes < 1000,
    ensures
        file_size_text(bytes) == decimal(bytes) + " bytes"@,
{
}

/// The two byte orders are told apart by the letters that stand for them.
pub proof fn law_byte_orders_are_told_apart(little_endian: bool)
    ensures
        byte_order_text(little_endian) == (if little_endian {
            "Little-endian (Intel, II)"@
        } else {
            "Big-endian (Motorola, MM)"@
        }),
        byte_order_text(true) != byte_order_text(false),
{
    reveal_strlit("Little-endian (Intel, II)");
    reveal_strlit("Big-endian (Motorola, MM)");
    assert("Little-endian (Intel, II)"@[0] != "Big-endian (Motorola, MM)"@[0]);
}

/// Two places are one only where their names, countries, positions and populations
/// agree.
pub proof fn law_places_are_told_apart(left: GeoLocation, right: GeoLocation)
    ensures
        same_place(left, left),
        same_place(left, right) == same_place(right, left),
        left.name@ != right.name@ ==> !same_place(left, right),
        left.country_code@ != right.country_code@ ==> !same_place(left, right),
        left.latitude_bits != right.latitude_bits ==> !same_place(left, right),
        left.longitude_bits != right.longitude_bits ==> !same_place(left, right),
        left.population != right.population ==> !same_place(left, right),
{
}

/// A search has found enough once as many places as are asked for lie within its
/// radius; nothing beyond them matters.
pub proof fn law_searches_end_with_enough_places(
    found: Seq<GeoLocation>,
    more: Seq<GeoLocation>,
    limit: nat,
)
    requires
        limit > 0,
    ensures
        found.len() < limit ==> !is_enough(found, limit),
        found.len() >= limit && !found[limit - 1].within_radius ==> !is_enough(found, limit),
        found.len() == limit && found.last().within_radius ==> is_enough(found + more, limit),
{
}

/// A search across the date line takes places on either side of it, any other those
/// between; a minimum of the population is asked for where there is one.
pub proof fn law_queries_ask_for_what_is_searched(has_minimum: bool)
    ensures
        contains_text(
            candidate_query_text(true, has_minimum),
            "(longitude >= ?3 OR longitude <= ?4)"@,
        ),
        contains_text(
            candidate_query_text(false, has_minimum),
            "longitude BETWEEN ?3 AND ?4"@,
        ),
        has_minimum ==> contains_text(
            candidate_query_text(true, has_minimum),
            "AND population > ?5"@,
        ) && contains_text(candidate_query_text(false, has_minimum), "AND population > ?5"@),
{
    let start =
        "\n        SELECT name, country_code, latitude, longitude, population, elevation\n        FROM locations\n        WHERE latitude BETWEEN ?1 AND ?2\n"@;
    reveal_strlit("          AND (longitude >= ?3 OR longitude <= ?4)\n");
    reveal_strlit("          AND longitude BETWEEN ?3 AND ?4\n");
    reveal_strlit("          AND population > ?5\n");
    reveal_strlit("(longitude >= ?3 OR longitude <= ?4)");
    reveal_strlit("longitude BETWEEN ?3 AND ?4");
    reveal_strlit("AND population > ?5");
    let wide = "          AND (longitude >= ?3 OR longitude <= ?4)\n"@;
    let narrow = "          AND longitude BETWEEN ?3 AND ?4\n"@;
    let people = "          AND population > ?5\n"@;
    let either = "(longitude >= ?3 OR longitude <= ?4)"@;
    let between = "longitude BETWEEN ?3 AND ?4"@;
    let more = "AND population > ?5"@;
    assert(wide.subrange(14, 14int + either.len()) =~= either);
    assert(narrow.subrange(14, 14int + between.len()) =~= between);
    assert(people.subrange(10, 10int + more.len()) =~= more);
    let across = candidate_query_text(true, has_minimum);
    let within = candidate_query_text(false, has_minimum);
    let n = start.len() as int;
    assert(across.subrange(n + 14, n + 14 + either.len()) =~= wide.subrange(
        14,
        14int + either.len(),
    ));
    assert(stands_at(across, either, n + 14));
    assert(within.subrange(n + 14, n + 14 + between.len()) =~= narrow.subrange(
        14,
        14int + between.len(),
    ));
    assert(stands_at(within, between, n + 14));
    if has_minimum {
        let a = n + wide.len() + 10;
        assert(across.subrange(a, a + more.len()) =~= people.subrange(10, 10int + more.len()));
        assert(stands_at(across, more, a));
        let b = n + narrow.len() + 10;
        assert(within.subrange(b, b + more.len()) =~= people.subrange(10, 10int + more.len()));
        assert(stands_at(within, more, b));
    }
}

} // verus!
