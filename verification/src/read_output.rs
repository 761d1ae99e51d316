//! The report of a reading.

use crate::cli::ReadFormat;
use crate::exif_data::{field_views, ExifData, ExifField, FieldView};
use crate::labels::{
    classify_info_label, classify_tag, group_at, group_label, group_rank, info_group, tag_group,
    title_case_tag_name, title_of, PrettyReadGroup,
};
use crate::location::{is_same_geo_location, same_place, GeoLocation};
use crate::order::{
    is_text_before, lemma_text_before_asymmetric, lemma_text_before_splits, lemma_text_before_total,
    stable_sort, stable_sorted, text_before, Ranking,
};
use crate::payload::{
    custom_tag_value_label, custom_tags_from_exif, custom_views, is_exifmeta_custom_payload_field,
    is_payload_field, tags_of_fields, value_label, CustomTag, CustomView,
};
use crate::report::{append_check_heading, byte_len, heading};
use crate::rows::{
    info_views, row_of, row_views, sort_read_rows, ByTag, InfoView, ReadInfoRow, ReadRow, RowView,
    PRETTY_KNOWN_VALUE_DISPLAY_LIMIT, PRETTY_UNKNOWN_VALUE_DISPLAY_LIMIT,
};
use crate::style::{coloured, paint, painted, plain, renders, Mark, Styled, Tone};
use crate::text::{
    copy_texts, decimal, decimal_text, hex4, hex4_text, list_contains, pad_right, repeat_char,
    repeated, same, slice_option, strip_prefix, strip_suffix, text_option, text_pad_right,
    text_strip_prefix, text_strip_suffix, text_trim_end, texts, trim_end,
};
use vstd::prelude::*;
use vstd::string::*;
use vstd::utf8::encode_utf8;

verus! {

// ---------------------------------------------------------------------------
// Raw readings
// ---------------------------------------------------------------------------
/// The bytes that the longest context of the rows takes.
pub open spec fn context_width(rows: Seq<ReadRow>) -> nat
    decreases rows.len(),
{
    if rows.len() == 0 {
        0
    } else {
        let before = context_width(rows.drop_last());
        let own = encode_utf8(rows.last().context@).len();
        if own > before {
            own
        } else {
            before
        }
    }
}

/// The bytes that the longest name of the rows takes.
pub open spec fn name_width(rows: Seq<ReadRow>) -> nat
    decreases rows.len(),
{
    if rows.len() == 0 {
        0
    } else {
        let before = name_width(rows.drop_last());
        let own = encode_utf8(rows.last().name@).len();
        if own > before {
            own
        } else {
            before
        }
    }
}

/// A line of a raw reading.
pub open spec fn raw_line(row: ReadRow, contexts: nat, names: nat) -> Seq<char> {
    "IFD "@ + decimal(row.ifd as nat) + "  "@ + pad_right(row.context@, contexts) + "  0x"@ + hex4(
        row.tag_id,
    ) + "  "@ + pad_right(row.name@, names) + "  "@ + row.value@ + "\n"@
}

/// The lines of a raw reading.
pub open spec fn raw_lines(rows: Seq<ReadRow>, contexts: nat, names: nat) -> Seq<Mark>
    decreases rows.len(),
{
    if rows.len() == 0 {
        Seq::empty()
    } else {
        raw_lines(rows.drop_last(), contexts, names) + plain(raw_line(rows.last(), contexts, names))
    }
}

/// Appends the rows of a raw reading.
pub fn append_raw_read_rows(output: &mut Styled, rows: &Vec<ReadRow>)
    ensures
        final(output)@ == old(output)@ + raw_lines(rows@, context_width(rows@), name_width(rows@)),
{
    let mut contexts: usize = 0;
    let mut names: usize = 0;
    let mut i: usize = 0;
    while i < rows.len()
        invariant
            i <= rows@.len(),
            contexts == context_width(rows@.take(i as int)),
            names == name_width(rows@.take(i as int)),
        decreases rows@.len() - i,
    {
        proof {
            assert(rows@.take(i + 1).drop_last() =~= rows@.take(i as int));
        }
        let context: usize = byte_len(rows[i].context.as_str());
        let name: usize = byte_len(rows[i].name.as_str());
        if context > contexts {
            contexts = context;
        }
        if name > names {
            names = name;
        }
        i += 1;
    }
    proof {
        assert(rows@.take(rows@.len() as int) =~= rows@);
        assert(output@ + Seq::<Mark>::empty() =~= output@);
    }
    let mut k: usize = 0;
    while k < rows.len()
        invariant
            k <= rows@.len(),
            output@ == old(output)@ + raw_lines(
                rows@.take(k as int),
                contexts as nat,
                names as nat,
            ),
        decreases rows@.len() - k,
    {
        let row = &rows[k];
        proof {
            assert(rows@.take(k + 1).drop_last() =~= rows@.take(k as int));
        }
        let mut line = "IFD ".to_owned();
        line.push_str(decimal_text(row.ifd as u128).as_str());
        line.push_str("  ");
        line.push_str(text_pad_right(row.context.as_str(), contexts).as_str());
        line.push_str("  0x");
        line.push_str(hex4_text(row.tag_id).as_str());
        line.push_str("  ");
        line.push_str(text_pad_right(row.name.as_str(), names).as_str());
        line.push_str("  ");
        line.push_str(row.value.as_str());
        line.push_str("\n");
        output.push(line.as_str());
        k += 1;
        proof {
            assert(output@ =~= old(output)@ + raw_lines(
                rows@.take(k as int),
                contexts as nat,
                names as nat,
            ));
        }
    }
    proof {
        assert(rows@.take(rows@.len() as int) =~= rows@);
    }
}

// ---------------------------------------------------------------------------
// Pretty values
// ---------------------------------------------------------------------------
/// What is said in place of a value that is too long to show: with a label that
/// may be in colour.
pub open spec fn is_omitted_message(text: Seq<char>) -> bool {
    let hint = " (use `--format raw` to view)"@;
    ||| text == "<long value omitted>"@ + hint
    ||| text == coloured(Tone::Yellow, "<long value omitted>"@) + hint
}

/// What stands in place of a long value.
pub fn pretty_unknown_value_omitted_message() -> (r: String)
    ensures
        is_omitted_message(r@),
{
    let mut message = paint(Tone::Yellow, "<long value omitted>");
    message.push_str(" (use `--format raw` to view)");
    message
}

/// The denominator of an exposure time below a second, as it is written.
pub open spec fn denominator_of(value: Seq<char>) -> Option<Seq<char>> {
    match strip_prefix(value, "1/"@) {
        Some(rest) => match strip_suffix(rest, " s"@) {
            Some(bare) => Some(bare),
            None => Some(rest),
        },
        None => None,
    }
}

/// What stands below the line in an exposure time.
pub fn exposure_denominator(value: &str) -> (r: Option<&str>)
    ensures
        slice_option(r) == denominator_of(value@),
{
    match text_strip_prefix(value, "1/") {
        Some(rest) => match text_strip_suffix(rest, " s") {
            Some(bare) => Some(bare),
            None => Some(rest),
        },
        None => None,
    }
}

/// An exposure time below a second with a whole denominator. There is none
/// where the denominator is no number that could be rounded.
pub open spec fn exposure_text(value: Seq<char>, rounded: Option<Seq<char>>) -> Option<Seq<char>> {
    if denominator_of(value) is Some {
        match rounded {
            Some(rounded) => Some("1/"@ + rounded),
            None => None,
        }
    } else {
        None
    }
}

/// An exposure time with a whole denominator.
pub fn pretty_exposure_time(value: &str, rounded: &Option<String>) -> (r: Option<String>)
    ensures
        text_option(r) == exposure_text(value@, text_option(*rounded)),
{
    match exposure_denominator(value) {
        Some(_) => match rounded {
            Some(rounded) => {
                let mut text = "1/".to_owned();
                text.push_str(rounded.as_str());
                Some(text)
            },
            None => None,
        },
        None => None,
    }
}

/// A value without the quotes around it.
pub open spec fn unquoted(value: Seq<char>) -> Option<Seq<char>> {
    match strip_prefix(value, "\""@) {
        Some(rest) => strip_suffix(rest, "\""@),
        None => None,
    }
}

/// The value of a row as it is shown: a message in place of a long one, an
/// exposure time with a whole denominator, and known values without quotes.
pub open spec fn pretty_value(row: RowView, omitted: Seq<char>) -> Seq<char> {
    let limit = if row.is_unknown {
        PRETTY_UNKNOWN_VALUE_DISPLAY_LIMIT
    } else {
        PRETTY_KNOWN_VALUE_DISPLAY_LIMIT
    };
    if row.value.len() > limit {
        omitted
    } else if row.name == "ExposureTime"@ {
        match exposure_text(row.value, row.rounded_denominator) {
            Some(text) => text,
            None => row.value,
        }
    } else if !row.is_unknown && unquoted(row.value) is Some {
        unquoted(row.value)->Some_0
    } else {
        row.value
    }
}

/// The value of a row as it is shown.
pub fn pretty_read_value(row: &ReadRow, omitted: &str) -> (r: String)
    ensures
        r@ == pretty_value(row@, omitted@),
{
    let length: usize = row.value.as_str().unicode_len();
    if row.is_unknown && length > PRETTY_UNKNOWN_VALUE_DISPLAY_LIMIT {
        return omitted.to_owned();
    }
    if !row.is_unknown && length > PRETTY_KNOWN_VALUE_DISPLAY_LIMIT {
        return omitted.to_owned();
    }
    if same(row.name.as_str(), "ExposureTime") {
        return match pretty_exposure_time(row.value.as_str(), &row.rounded_denominator) {
            Some(text) => text,
            None => row.value.clone(),
        };
    }
    if !row.is_unknown {
        match text_strip_prefix(row.value.as_str(), "\"") {
            Some(rest) => match text_strip_suffix(rest, "\"") {
                Some(bare) => {
                    return bare.to_owned();
                },
                None => {},
            },
            None => {},
        }
    }
    row.value.clone()
}

// ---------------------------------------------------------------------------
// Pretty rows
// ---------------------------------------------------------------------------
/// A row of a pretty reading; its label may be in green.
#[derive(Debug)]
pub struct PrettyReadRow {
    pub group: PrettyReadGroup,
    pub label: String,
    pub is_green: bool,
    pub value: String,
}

pub struct PrettyView {
    pub group: PrettyReadGroup,
    pub label: Seq<char>,
    pub is_green: bool,
    pub value: Seq<char>,
}

impl View for PrettyReadRow {
    type V = PrettyView;

    open spec fn view(&self) -> PrettyView {
        PrettyView {
            group: self.group,
            label: self.label@,
            is_green: self.is_green,
            value: self.value@,
        }
    }
}

pub open spec fn pretty_views(rows: Seq<PrettyReadRow>) -> Seq<PrettyView> {
    rows.map_values(|row: PrettyReadRow| row@)
}

/// Rows that a pretty reading leaves out: those of tags that are not known, and
/// those that only other rows make sense of.
pub open spec fn is_left_out(row: RowView) -> bool {
    ||| row.is_unknown
    ||| row.name == "GPSLatitudeRef"@
    ||| row.name == "GPSLongitudeRef"@
    ||| row.name == "StripByteCounts"@
    ||| row.name == "StripOffsets"@
}

/// Whether a pretty reading leaves a row out.
pub fn is_pretty_omitted_row(row: &ReadRow) -> (r: bool)
    ensures
        r == is_left_out(row@),
{
    let name = row.name.as_str();
    row.is_unknown || same(name, "GPSLatitudeRef") || same(name, "GPSLongitudeRef") || same(
        name,
        "StripByteCounts",
    ) || same(name, "StripOffsets")
}

/// The speeds of the film that the rows give.
pub open spec fn iso_speeds(rows: Seq<RowView>, omitted: Seq<char>) -> Seq<Seq<char>>
    decreases rows.len(),
{
    if rows.len() == 0 {
        Seq::empty()
    } else if !is_left_out(rows.last()) && rows.last().name == "ISOSpeed"@ {
        iso_speeds(rows.drop_last(), omitted).push(pretty_value(rows.last(), omitted))
    } else {
        iso_speeds(rows.drop_last(), omitted)
    }
}

fn find_iso_speeds(rows: &Vec<ReadRow>, omitted: &str) -> (r: Vec<String>)
    ensures
        texts(r@) == iso_speeds(row_views(rows@), omitted@),
{
    let ghost all = row_views(rows@);
    let mut out: Vec<String> = Vec::new();
    let mut i: usize = 0;
    proof {
        assert(texts(out@) =~= Seq::empty());
    }
    while i < rows.len()
        invariant
            i <= rows@.len(),
            all == row_views(rows@),
            texts(out@) == iso_speeds(all.take(i as int), omitted@),
        decreases rows@.len() - i,
    {
        let ghost before = texts(out@);
        proof {
            assert(all.take(i + 1).drop_last() =~= all.take(i as int));
        }
        if !is_pretty_omitted_row(&rows[i]) && same(rows[i].name.as_str(), "ISOSpeed") {
            let value = pretty_read_value(&rows[i], omitted);
            let ghost text = value@;
            out.push(value);
            proof {
                assert(texts(out@) =~= before.push(text));
            }
        }
        i += 1;
    }
    proof {
        assert(all.take(all.len() as int) =~= all);
    }
    out
}

/// Whether a row only repeats the speed of the film.
pub open spec fn repeats_iso_speed(name: Seq<char>, value: Seq<char>, speeds: Seq<Seq<char>>) -> bool {
    name == "PhotographicSensitivity"@ && speeds.contains(value)
}

/// Whether a row only repeats the speed of the film.
pub fn is_duplicate_photographic_sensitivity(name: &str, value: &str, speeds: &Vec<String>) -> (r:
    bool)
    ensures
        r == repeats_iso_speed(name@, value@, texts(speeds@)),
{
    same(name, "PhotographicSensitivity") && list_contains(speeds, value)
}

/// What tells the rows of the image and of its thumbnail apart: name, context
/// and value.
pub type RowKey = (Seq<char>, Seq<char>, Seq<char>);

/// Rows that are shown so far, and the keys of those of the image and of its
/// thumbnail.
pub struct Shown {
    pub rows: Seq<PrettyView>,
    pub seen: Seq<RowKey>,
}

/// The rows with one more, unless it is left out, or repeats what is shown.
pub open spec fn with_row(
    shown: Shown,
    row: RowView,
    speeds: Seq<Seq<char>>,
    omitted: Seq<char>,
) -> Shown {
    let value = pretty_value(row, omitted);
    let key = (row.name, row.context, value);
    let paired = row.ifd == 0 || row.ifd == 1;
    if is_left_out(row) || repeats_iso_speed(row.name, value, speeds) {
        shown
    } else if paired && shown.seen.contains(key) {
        shown
    } else {
        Shown {
            rows: shown.rows.push(
                PrettyView {
                    group: tag_group(row.context, row.name, row.pretty_name),
                    label: row.pretty_name,
                    is_green: false,
                    value,
                },
            ),
            seen: if paired {
                shown.seen.push(key)
            } else {
                shown.seen
            },
        }
    }
}

pub open spec fn with_rows(
    shown: Shown,
    rows: Seq<RowView>,
    speeds: Seq<Seq<char>>,
    omitted: Seq<char>,
) -> Shown
    decreases rows.len(),
{
    if rows.len() == 0 {
        shown
    } else {
        with_row(with_rows(shown, rows.drop_last(), speeds, omitted), rows.last(), speeds, omitted)
    }
}

/// The rows that are not left out.
pub open spec fn rows_to_show(rows: Seq<RowView>) -> Seq<RowView>
    decreases rows.len(),
{
    if rows.len() == 0 {
        Seq::empty()
    } else if is_left_out(rows.last()) {
        rows_to_show(rows.drop_last())
    } else {
        rows_to_show(rows.drop_last()).push(rows.last())
    }
}

/// Rows that are left out, such as those of unknown tags, change nothing in what
/// is shown of the others.
pub proof fn law_left_out_rows_change_nothing(
    shown: Shown,
    rows: Seq<RowView>,
    speeds: Seq<Seq<char>>,
    omitted: Seq<char>,
)
    ensures
        with_rows(shown, rows, speeds, omitted) == with_rows(
            shown,
            rows_to_show(rows),
            speeds,
            omitted,
        ),
    decreases rows.len(),
{
    if rows.len() > 0 {
        law_left_out_rows_change_nothing(shown, rows.drop_last(), speeds, omitted);
        if !is_left_out(rows.last()) {
            assert(rows_to_show(rows).drop_last() =~= rows_to_show(rows.drop_last()));
        }
    }
}

/// No tag of the thumbnail is shown that repeats one of the image, nor the other
/// way round.
pub proof fn law_thumbnail_repeats_nothing(
    shown: Shown,
    rows: Seq<RowView>,
    speeds: Seq<Seq<char>>,
    omitted: Seq<char>,
)
    requires
        shown.seen.no_duplicates(),
    ensures
        with_rows(shown, rows, speeds, omitted).seen.no_duplicates(),
    decreases rows.len(),
{
    if rows.len() > 0 {
        law_thumbnail_repeats_nothing(shown, rows.drop_last(), speeds, omitted);
    }
}

/// The row of what is known of the file.
pub open spec fn info_row(row: InfoView) -> PrettyView {
    PrettyView { group: info_group(row.0), label: row.0, is_green: false, value: row.1 }
}

/// The row of a custom tag.
pub open spec fn custom_row(tag: CustomView) -> PrettyView {
    PrettyView {
        group: PrettyReadGroup::Custom,
        label: title_of(tag.0),
        is_green: false,
        value: value_label(tag.1),
    }
}

/// The rows of a pretty reading: on the file, of the tags, and of the custom
/// tags.
pub open spec fn pretty_rows_of(
    info: Seq<InfoView>,
    rows: Seq<RowView>,
    custom: Seq<CustomView>,
    omitted: Seq<char>,
) -> Seq<PrettyView> {
    with_rows(
        Shown { rows: info.map_values(|row: InfoView| info_row(row)), seen: Seq::empty() },
        rows,
        iso_speeds(rows, omitted),
        omitted,
    ).rows + custom.map_values(|tag: CustomView| custom_row(tag))
}

/// A key of a row.
struct SeenRow {
    name: String,
    context: String,
    value: String,
}

spec fn seen_views(seen: Seq<SeenRow>) -> Seq<RowKey> {
    seen.map_values(|row: SeenRow| (row.name@, row.context@, row.value@))
}

fn has_seen(seen: &Vec<SeenRow>, name: &str, context: &str, value: &str) -> (r: bool)
    ensures
        r == seen_views(seen@).contains((name@, context@, value@)),
{
    let ghost all = seen_views(seen@);
    let mut i: usize = 0;
    while i < seen.len()
        invariant
            i <= seen@.len(),
            all == seen_views(seen@),
            forall|k: int| 0 <= k < i ==> #[trigger] all[k] != (name@, context@, value@),
        decreases seen@.len() - i,
    {
        let row = &seen[i];
        if same(row.name.as_str(), name) && same(row.context.as_str(), context) && same(
            row.value.as_str(),
            value,
        ) {
            proof {
                assert(all[i as int] == (name@, context@, value@));
            }
            return true;
        }
        i += 1;
    }
    false
}

fn show_row(
    out: &mut Vec<PrettyReadRow>,
    seen: &mut Vec<SeenRow>,
    row: &ReadRow,
    speeds: &Vec<String>,
    omitted: &str,
)
    ensures
        ({
            let before = Shown { rows: pretty_views(old(out)@), seen: seen_views(old(seen)@) };
            let after = with_row(before, row@, texts(speeds@), omitted@);
            &&& pretty_views(final(out)@) == after.rows
            &&& seen_views(final(seen)@) == after.seen
        }),
{
    let ghost rows_before = pretty_views(out@);
    let ghost seen_before = seen_views(seen@);
    if is_pretty_omitted_row(row) {
        return ;
    }
    let value = pretty_read_value(row, omitted);
    if is_duplicate_photographic_sensitivity(row.name.as_str(), value.as_str(), speeds) {
        return ;
    }
    if row.ifd == 0 || row.ifd == 1 {
        if has_seen(seen, row.name.as_str(), row.context.as_str(), value.as_str()) {
            return ;
        }
        seen.push(
            SeenRow { name: row.name.clone(), context: row.context.clone(), value: value.clone() },
        );
        proof {
            assert(seen_views(seen@) =~= seen_before.push((row@.name, row@.context, value@)));
        }
    }
    let group = classify_tag(
        row.context.as_str(),
        row.name.as_str(),
        row.pretty_name.as_str(),
    );
    let ghost text = value@;
    out.push(PrettyReadRow { group, label: row.pretty_name.clone(), is_green: false, value });
    proof {
        assert(pretty_views(out@) =~= rows_before.push(
            PrettyView { group, label: row@.pretty_name, is_green: false, value: text },
        ));
    }
}

/// The rows of a pretty reading.
#[verifier::loop_isolation(false)]
pub fn pretty_read_rows(
    info: &Vec<ReadInfoRow>,
    rows: &Vec<ReadRow>,
    custom: &Vec<CustomTag>,
    omitted: &str,
) -> (r: Vec<PrettyReadRow>)
    ensures
        pretty_views(r@) == pretty_rows_of(
            info_views(info@),
            row_views(rows@),
            custom_views(custom@),
            omitted@,
        ),
{
    let mut out: Vec<PrettyReadRow> = Vec::new();
    let ghost infos = info_views(info@);
    let mut i: usize = 0;
    while i < info.len()
        invariant
            i <= info@.len(),
            infos == info_views(info@),
            out@.len() == i,
            forall|k: int| 0 <= k < i ==> (#[trigger] out@[k])@ == info_row(infos[k]),
        decreases info@.len() - i,
    {
        out.push(
            PrettyReadRow {
                group: classify_info_label(info[i].name.as_str()),
                label: info[i].name.clone(),
                is_green: false,
                value: info[i].value.clone(),
            },
        );
        i += 1;
    }
    let speeds = find_iso_speeds(rows, omitted);
    let mut seen: Vec<SeenRow> = Vec::new();
    let ghost all = row_views(rows@);
    let ghost start = Shown { rows: pretty_views(out@), seen: seen_views(seen@) };
    proof {
        assert(start.rows =~= infos.map_values(|row: InfoView| info_row(row)));
        assert(start.seen =~= Seq::empty());
    }
    let mut j: usize = 0;
    while j < rows.len()
        invariant
            j <= rows@.len(),
            all == row_views(rows@),
            (Shown { rows: pretty_views(out@), seen: seen_views(seen@) }) == with_rows(
                start,
                all.take(j as int),
                texts(speeds@),
                omitted@,
            ),
        decreases rows@.len() - j,
    {
        proof {
            assert(all.take(j + 1).drop_last() =~= all.take(j as int));
            assert(all.take(j + 1).last() == rows@[j as int]@);
        }
        show_row(&mut out, &mut seen, &rows[j], &speeds, omitted);
        j += 1;
    }
    let ghost shown = pretty_views(out@);
    let ghost tags = custom_views(custom@);
    let mut k: usize = 0;
    proof {
        assert(all.take(all.len() as int) =~= all);
        assert(shown =~= shown + tags.take(0).map_values(|tag: CustomView| custom_row(tag)));
    }
    while k < custom.len()
        invariant
            k <= custom@.len(),
            tags == custom_views(custom@),
            pretty_views(out@) == shown + tags.take(k as int).map_values(
                |tag: CustomView| custom_row(tag),
            ),
        decreases custom@.len() - k,
    {
        let ghost before = pretty_views(out@);
        out.push(
            PrettyReadRow {
                group: PrettyReadGroup::Custom,
                label: title_case_tag_name(custom[k].name.as_str()),
                is_green: false,
                value: custom_tag_value_label(&custom[k].value),
            },
        );
        k += 1;
        proof {
            assert(pretty_views(out@) =~= before.push(custom_row(tags[k - 1])));
            assert(pretty_views(out@) =~= shown + tags.take(k as int).map_values(
                |tag: CustomView| custom_row(tag),
            ));
        }
    }
    proof {
        assert(tags.take(tags.len() as int) =~= tags);
    }
    out
}

// ---------------------------------------------------------------------------
// Places
// ---------------------------------------------------------------------------
/// The value of the row of a place.
pub open spec fn place_value(location: GeoLocation) -> Seq<char> {
    "("@ + location.distance@ + ") "@ + location.name@ + ", "@ + location.country_code@
}

/// The row of a place.
pub open spec fn place_row(label: Seq<char>, location: GeoLocation) -> PrettyView {
    PrettyView { group: PrettyReadGroup::Gps, label, is_green: true, value: place_value(location) }
}

/// Appends the row of a place.
pub fn append_location_row(rows: &mut Vec<PrettyReadRow>, label: &str, location: &GeoLocation)
    ensures
        pretty_views(final(rows)@) == pretty_views(old(rows)@).push(place_row(label@, *location)),
{
    let ghost before = pretty_views(rows@);
    let mut value = "(".to_owned();
    value.push_str(location.distance.as_str());
    value.push_str(") ");
    value.push_str(location.name.as_str());
    value.push_str(", ");
    value.push_str(location.country_code.as_str());
    rows.push(
        PrettyReadRow {
            group: PrettyReadGroup::Gps,
            label: label.to_owned(),
            is_green: true,
            value,
        },
    );
    proof {
        assert(pretty_views(rows@) =~= before.push(place_row(label@, *location)));
    }
}

/// The rows of places, numbered from one.
pub open spec fn numbered_rows(prefix: Seq<char>, locations: Seq<GeoLocation>) -> Seq<PrettyView>
    decreases locations.len(),
{
    if locations.len() == 0 {
        Seq::empty()
    } else {
        numbered_rows(prefix, locations.drop_last()).push(
            place_row(prefix + " "@ + decimal(locations.len()), locations.last()),
        )
    }
}

/// Appends the rows of places, numbered.
pub fn append_location_rows(
    rows: &mut Vec<PrettyReadRow>,
    prefix: &str,
    locations: &Vec<GeoLocation>,
)
    ensures
        pretty_views(final(rows)@) == pretty_views(old(rows)@) + numbered_rows(
            prefix@,
            locations@,
        ),
{
    let ghost before = pretty_views(rows@);
    let mut i: usize = 0;
    proof {
        assert(before + Seq::<PrettyView>::empty() =~= before);
    }
    while i < locations.len()
        invariant
            i <= locations@.len(),
            pretty_views(rows@) == before + numbered_rows(prefix@, locations@.take(i as int)),
        decreases locations@.len() - i,
    {
        proof {
            assert(locations@.take(i + 1).drop_last() =~= locations@.take(i as int));
        }
        let mut label = prefix.to_owned();
        label.push_str(" ");
        label.push_str(decimal_text(i as u128 + 1).as_str());
        append_location_row(rows, label.as_str(), &locations[i]);
        i += 1;
        proof {
            assert(pretty_views(rows@) =~= before + numbered_rows(
                prefix@,
                locations@.take(i as int),
            ));
        }
    }
    proof {
        assert(locations@.take(locations@.len() as int) =~= locations@);
    }
}

/// Whether a place is among others.
pub open spec fn is_listed(location: GeoLocation, others: Seq<GeoLocation>) -> bool {
    exists|i: int| 0 <= i < others.len() && same_place(#[trigger] others[i], location)
}

/// The rows of the places that are not among others.
pub open spec fn new_place_rows(
    label: Seq<char>,
    locations: Seq<GeoLocation>,
    others: Seq<GeoLocation>,
) -> Seq<PrettyView>
    decreases locations.len(),
{
    if locations.len() == 0 {
        Seq::empty()
    } else {
        let before = new_place_rows(label, locations.drop_last(), others);
        if is_listed(locations.last(), others) {
            before
        } else {
            before.push(place_row(label, locations.last()))
        }
    }
}

/// Appends the rows of places that are not among others.
pub fn append_non_duplicate_location_rows(
    rows: &mut Vec<PrettyReadRow>,
    label: &str,
    locations: &Vec<GeoLocation>,
    others: &Vec<GeoLocation>,
)
    ensures
        pretty_views(final(rows)@) == pretty_views(old(rows)@) + new_place_rows(
            label@,
            locations@,
            others@,
        ),
{
    let ghost before = pretty_views(rows@);
    let mut i: usize = 0;
    proof {
        assert(before + Seq::<PrettyView>::empty() =~= before);
    }
    while i < locations.len()
        invariant
            i <= locations@.len(),
            pretty_views(rows@) == before + new_place_rows(
                label@,
                locations@.take(i as int),
                others@,
            ),
        decreases locations@.len() - i,
    {
        proof {
            assert(locations@.take(i + 1).drop_last() =~= locations@.take(i as int));
        }
        let mut listed = false;
        let mut k: usize = 0;
        while k < others.len()
            invariant
                i < locations@.len(),
                k <= others@.len(),
                listed == (exists|m: int|
                    0 <= m < k && same_place(#[trigger] others@[m], locations@[i as int])),
            decreases others@.len() - k,
        {
            if is_same_geo_location(&others[k], &locations[i]) {
                listed = true;
            }
            k += 1;
        }
        if !listed {
            append_location_row(rows, label, &locations[i]);
        }
        i += 1;
        proof {
            assert(pretty_views(rows@) =~= before + new_place_rows(
                label@,
                locations@.take(i as int),
                others@,
            ));
        }
    }
    proof {
        assert(locations@.take(locations@.len() as int) =~= locations@);
    }
}

/// What came of searching the places nearest to an image: the nearest ones, and
/// the nearest city.
#[derive(Debug)]
pub struct NearestPlaces {
    pub locations: Result<Vec<GeoLocation>, String>,
    pub city: Result<Vec<GeoLocation>, String>,
}

/// The nearest places that were found.
pub open spec fn found_places(found: Result<Vec<GeoLocation>, String>) -> Seq<GeoLocation> {
    match found {
        Ok(locations) => locations@,
        Err(_) => Seq::empty(),
    }
}

/// The rows of the nearest places, and of the nearest city unless it is one of
/// them.
pub open spec fn nearest_rows(nearest: Option<NearestPlaces>) -> Seq<PrettyView> {
    match nearest {
        None => Seq::empty(),
        Some(nearest) => numbered_rows("GPS Nearest Location"@, found_places(nearest.locations))
            + new_place_rows(
            "GPS Nearest City"@,
            found_places(nearest.city),
            found_places(nearest.locations),
        ),
    }
}

/// What there is to warn about in a search.
pub open spec fn search_warnings(nearest: Option<NearestPlaces>) -> Seq<Seq<char>> {
    match nearest {
        None => Seq::empty(),
        Some(nearest) => (match nearest.locations {
            Ok(_) => Seq::empty(),
            Err(error) => seq!["failed to query nearest locations: "@ + error@],
        }) + (match nearest.city {
            Ok(_) => Seq::empty(),
            Err(error) => seq!["failed to query nearest city: "@ + error@],
        }),
    }
}

/// Appends the rows of the places nearest to an image.
pub fn append_nearest_location_rows(
    rows: &mut Vec<PrettyReadRow>,
    nearest: &Option<NearestPlaces>,
    warnings: &mut Vec<String>,
)
    ensures
        pretty_views(final(rows)@) == pretty_views(old(rows)@) + nearest_rows(*nearest),
        texts(final(warnings)@) == texts(old(warnings)@) + search_warnings(*nearest),
{
    let ghost rows_before = pretty_views(rows@);
    let ghost warnings_before = texts(warnings@);
    let none: Vec<GeoLocation> = Vec::new();
    match nearest {
        None => {},
        Some(nearest) => {
            let locations = match &nearest.locations {
                Ok(locations) => locations,
                Err(error) => {
                    let mut warning = "failed to query nearest locations: ".to_owned();
                    warning.push_str(error.as_str());
                    warnings.push(warning);
                    &none
                },
            };
            proof {
                assert(locations@ =~= found_places(nearest.locations));
            }
            append_location_rows(rows, "GPS Nearest Location", locations);
            match &nearest.city {
                Ok(city) => {
                    append_non_duplicate_location_rows(rows, "GPS Nearest City", city, locations);
                },
                Err(error) => {
                    let mut warning = "failed to query nearest city: ".to_owned();
                    warning.push_str(error.as_str());
                    warnings.push(warning);
                },
            }
        },
    }
    proof {
        assert(pretty_views(rows@) =~= rows_before + nearest_rows(*nearest));
        assert(texts(warnings@) =~= warnings_before + search_warnings(*nearest));
    }
}

// ---------------------------------------------------------------------------
// Pretty readings
// ---------------------------------------------------------------------------
/// The label that a row is sorted by: the nearest places come before the nearest
/// city.
pub open spec fn sort_label(label: Seq<char>) -> Seq<char> {
    match strip_prefix(label, "GPS Nearest Location "@) {
        Some(suffix) => "GPS Nearest 0 Location "@ + suffix,
        None => if label == "GPS Nearest City"@ {
            "GPS Nearest 1 City"@
        } else {
            label
        },
    }
}

/// What rows of a group are sorted by.
pub fn pretty_read_row_sort_label(row: &PrettyReadRow) -> (r: String)
    ensures
        r@ == sort_label(row.label@),
{
    match text_strip_prefix(row.label.as_str(), "GPS Nearest Location ") {
        Some(suffix) => {
            let mut label = "GPS Nearest 0 Location ".to_owned();
            label.push_str(suffix);
            label
        },
        None => if same(row.label.as_str(), "GPS Nearest City") {
            "GPS Nearest 1 City".to_owned()
        } else {
            row.label.clone()
        },
    }
}

/// Rows by group, then by label and value.
pub struct ByGroup {}

impl Ranking<PrettyReadRow> for ByGroup {
    open spec fn before(a: &PrettyReadRow, b: &PrettyReadRow) -> bool {
        if group_rank(a.group) != group_rank(b.group) {
            group_rank(a.group) < group_rank(b.group)
        } else if sort_label(a.label@) != sort_label(b.label@) {
            text_before(sort_label(a.label@), sort_label(b.label@))
        } else {
            text_before(a.value@, b.value@)
        }
    }

    fn is_before(a: &PrettyReadRow, b: &PrettyReadRow) -> (r: bool) {
        let left: usize = a.group.output_order();
        let right: usize = b.group.output_order();
        if left != right {
            return left < right;
        }
        let x = pretty_read_row_sort_label(a);
        let y = pretty_read_row_sort_label(b);
        if !same(x.as_str(), y.as_str()) {
            is_text_before(x.as_str(), y.as_str())
        } else {
            is_text_before(a.value.as_str(), b.value.as_str())
        }
    }

    proof fn lemma_asymmetric(a: &PrettyReadRow, b: &PrettyReadRow) {
        lemma_text_before_asymmetric(sort_label(a.label@), sort_label(b.label@));
        lemma_text_before_asymmetric(a.value@, b.value@);
    }

    proof fn lemma_splits(a: &PrettyReadRow, middle: &PrettyReadRow, b: &PrettyReadRow) {
        let x = sort_label(a.label@);
        let y = sort_label(middle.label@);
        let z = sort_label(b.label@);
        if x != z && text_before(x, z) {
            lemma_text_before_splits(x, y, z);
        }
        if x == z && x != y {
            if !text_before(x, y) && !text_before(y, x) {
                lemma_text_before_total(x, y);
            }
        }
        if text_before(a.value@, b.value@) {
            lemma_text_before_splits(a.value@, middle.value@, b.value@);
        }
    }
}

/// The rows of a group.
pub open spec fn rows_in(rows: Seq<PrettyReadRow>, group: PrettyReadGroup) -> Seq<PrettyView>
    decreases rows.len(),
{
    if rows.len() == 0 {
        Seq::empty()
    } else if rows.last().group == group {
        rows_in(rows.drop_last(), group).push(rows.last()@)
    } else {
        rows_in(rows.drop_last(), group)
    }
}

/// The bytes that the longest label of the rows takes.
pub open spec fn label_width(rows: Seq<PrettyView>) -> nat
    decreases rows.len(),
{
    if rows.len() == 0 {
        0
    } else {
        let before = label_width(rows.drop_last());
        let own = encode_utf8(rows.last().label).len();
        if own > before {
            own
        } else {
            before
        }
    }
}

/// The label of a row, in green where it is.
pub open spec fn label_marks(row: PrettyView) -> Seq<Mark> {
    if row.is_green {
        painted(Tone::Green, row.label)
    } else {
        plain(row.label)
    }
}

/// A line of a pretty reading.
pub open spec fn pretty_line(row: PrettyView, width: nat) -> Seq<Mark> {
    label_marks(row) + plain(
        repeated(' ', (width - encode_utf8(row.label).len()) as nat) + "  "@ + row.value + "\n"@,
    )
}

pub open spec fn pretty_lines(rows: Seq<PrettyView>, width: nat) -> Seq<Mark>
    decreases rows.len(),
{
    if rows.len() == 0 {
        Seq::empty()
    } else {
        pretty_lines(rows.drop_last(), width) + pretty_line(rows.last(), width)
    }
}

/// A group of a pretty reading, if it has rows.
pub open spec fn group_marks(
    rows: Seq<PrettyReadRow>,
    group: PrettyReadGroup,
    first: bool,
) -> Seq<Mark> {
    let own = rows_in(rows, group);
    if own.len() == 0 {
        Seq::empty()
    } else {
        (if first {
            Seq::empty()
        } else {
            plain("\n"@)
        }) + heading(group_label(group)) + pretty_lines(own, label_width(own))
    }
}

fn append_pretty_line(output: &mut Styled, row: &PrettyReadRow, width: usize)
    requires
        encode_utf8(row.label@).len() <= width,
    ensures
        final(output)@ == old(output)@ + pretty_line(row@, width as nat),
{
    if row.is_green {
        output.push_painted(Tone::Green, row.label.as_str());
    } else {
        output.push(row.label.as_str());
    }
    let taken: usize = byte_len(row.label.as_str());
    let mut text = repeat_char(' ', width - taken);
    text.push_str("  ");
    text.push_str(row.value.as_str());
    text.push_str("\n");
    output.push(text.as_str());
    proof {
        assert(output@ =~= old(output)@ + pretty_line(row@, width as nat));
    }
}

proof fn lemma_label_width(rows: Seq<PrettyView>, i: int)
    requires
        0 <= i < rows.len(),
    ensures
        encode_utf8(rows[i].label).len() <= label_width(rows),
    decreases rows.len(),
{
    if i < rows.len() - 1 {
        lemma_label_width(rows.drop_last(), i);
    }
}

/// The position of a row in its group.
proof fn lemma_rows_in_contains(rows: Seq<PrettyReadRow>, group: PrettyReadGroup, i: int)
    requires
        0 <= i < rows.len(),
        rows[i].group == group,
    ensures
        encode_utf8(rows[i].label@).len() <= label_width(rows_in(rows, group)),
    decreases rows.len(),
{
    let own = rows_in(rows, group);
    if i == rows.len() - 1 {
        assert(own.last() == rows[i]@);
        lemma_label_width(own, own.len() - 1);
    } else {
        lemma_rows_in_contains(rows.drop_last(), group, i);
        if rows.last().group == group {
            assert(own.drop_last() =~= rows_in(rows.drop_last(), group));
        }
    }
}

#[verifier::loop_isolation(false)]
fn append_group(
    output: &mut Styled,
    rows: &Vec<PrettyReadRow>,
    group: PrettyReadGroup,
    first_group: &mut bool,
)
    ensures
        final(output)@ == old(output)@ + group_marks(rows@, group, *old(first_group)),
        *final(first_group) == (*old(first_group) && rows_in(rows@, group).len() == 0),
{
    let mut width: usize = 0;
    let mut empty = true;
    let mut i: usize = 0;
    while i < rows.len()
        invariant
            i <= rows@.len(),
            width == label_width(rows_in(rows@.take(i as int), group)),
            empty == (rows_in(rows@.take(i as int), group).len() == 0),
        decreases rows@.len() - i,
    {
        proof {
            assert(rows@.take(i + 1).drop_last() =~= rows@.take(i as int));
            let before = rows_in(rows@.take(i as int), group);
            assert(before.push(rows@[i as int]@).drop_last() =~= before);
        }
        if rows[i].group == group {
            empty = false;
            let taken: usize = byte_len(rows[i].label.as_str());
            if taken > width {
                width = taken;
            }
        }
        i += 1;
    }
    proof {
        assert(rows@.take(rows@.len() as int) =~= rows@);
    }
    if empty {
        proof {
            assert(output@ =~= old(output)@ + group_marks(rows@, group, *old(first_group)));
        }
        return ;
    }
    if !*first_group {
        output.push("\n");
    }
    *first_group = false;
    append_check_heading(output, group.label());
    let ghost headed = output@;
    let mut k: usize = 0;
    proof {
        assert(headed + Seq::<Mark>::empty() =~= headed);
    }
    while k < rows.len()
        invariant
            k <= rows@.len(),
            output@ == headed + pretty_lines(
                rows_in(rows@.take(k as int), group),
                width as nat,
            ),
        decreases rows@.len() - k,
    {
        proof {
            assert(rows@.take(k + 1).drop_last() =~= rows@.take(k as int));
            let before = rows_in(rows@.take(k as int), group);
            assert(before.push(rows@[k as int]@).drop_last() =~= before);
        }
        if rows[k].group == group {
            proof {
                lemma_rows_in_contains(rows@, group, k as int);
            }
            append_pretty_line(output, &rows[k], width);
        }
        k += 1;
        proof {
            assert(output@ =~= headed + pretty_lines(
                rows_in(rows@.take(k as int), group),
                width as nat,
            ));
        }
    }
    proof {
        assert(rows@.take(rows@.len() as int) =~= rows@);
        assert(output@ =~= old(output)@ + group_marks(rows@, group, *old(first_group)));
    }
}

/// Whether none of the rows is in the groups before one.
pub open spec fn none_before(rows: Seq<PrettyReadRow>, rank: int) -> bool {
    forall|group: PrettyReadGroup|
        group_rank(group) < rank ==> (#[trigger] rows_in(rows, group)).len() == 0
}

/// The first `n` groups of a pretty reading, in their order.
pub open spec fn groups_until(rows: Seq<PrettyReadRow>, n: int) -> Seq<Mark>
    decreases n,
{
    if n <= 0 {
        Seq::empty()
    } else {
        groups_until(rows, n - 1) + group_marks(rows, group_at(n - 1), none_before(rows, n - 1))
    }
}

/// The groups of a pretty reading, in their order.
pub open spec fn all_groups(rows: Seq<PrettyReadRow>) -> Seq<Mark> {
    groups_until(rows, 7)
}

proof fn lemma_none_before_step(rows: Seq<PrettyReadRow>, n: int)
    requires
        0 <= n < 7,
    ensures
        none_before(rows, n + 1) == (none_before(rows, n) && rows_in(rows, group_at(n)).len() == 0),
{
    let group = group_at(n);
    assert(group_rank(group) == n);
    if none_before(rows, n) && rows_in(rows, group).len() == 0 {
        assert forall|other: PrettyReadGroup| group_rank(other) < n + 1 implies (
        #[trigger] rows_in(rows, other)).len() == 0 by {
            if group_rank(other) == n {
                assert(other == group);
            }
        }
    }
    if none_before(rows, n + 1) {
        assert(rows_in(rows, group).len() == 0);
    }
}

/// Appends the groups of sorted rows.
pub fn append_pretty_groups(output: &mut Styled, rows: &Vec<PrettyReadRow>)
    ensures
        final(output)@ == old(output)@ + all_groups(rows@),
{
    let mut first = true;
    let mut i: usize = 0;
    proof {
        assert(output@ + Seq::<Mark>::empty() =~= output@);
        assert(none_before(rows@, 0));
    }
    while i < 7
        invariant
            i <= 7,
            first == none_before(rows@, i as int),
            output@ == old(output)@ + groups_until(rows@, i as int),
        decreases 7 - i,
    {
        proof {
            lemma_none_before_step(rows@, i as int);
        }
        append_group(output, rows, PrettyReadGroup::at(i), &mut first);
        i += 1;
        proof {
            assert(output@ =~= old(output)@ + groups_until(rows@, i as int));
        }
    }
}

/// Whether `rows` say what `views` say.
pub open spec fn are_rows(rows: Seq<PrettyReadRow>, views: Seq<PrettyView>) -> bool {
    pretty_views(rows) == views
}

/// The marks of a pretty reading of some rows: those rows, sorted, in groups.
pub open spec fn is_pretty_reading(marks: Seq<Mark>, views: Seq<PrettyView>) -> bool {
    exists|rows: Seq<PrettyReadRow>|
        #![trigger are_rows(rows, views)]
        are_rows(rows, views) && marks == all_groups(stable_sorted::<PrettyReadRow, ByGroup>(rows))
}

/// A pretty reading.
pub fn append_pretty_read_rows(
    info: &Vec<ReadInfoRow>,
    rows: &Vec<ReadRow>,
    custom: &Vec<CustomTag>,
    nearest: &Option<NearestPlaces>,
    warnings: &mut Vec<String>,
    omitted: &str,
) -> (r: Styled)
    ensures
        is_pretty_reading(
            r@,
            pretty_rows_of(
                info_views(info@),
                row_views(rows@),
                custom_views(custom@),
                omitted@,
            ) + nearest_rows(*nearest),
        ),
        texts(final(warnings)@) == texts(old(warnings)@) + search_warnings(*nearest),
{
    let mut pretty = pretty_read_rows(info, rows, custom, omitted);
    append_nearest_location_rows(&mut pretty, nearest, warnings);
    let ghost all = pretty@;
    proof {
        assert(are_rows(
            all,
            pretty_rows_of(
                info_views(info@),
                row_views(rows@),
                custom_views(custom@),
                omitted@,
            ) + nearest_rows(*nearest),
        ));
    }
    let sorted = stable_sort::<PrettyReadRow, ByGroup>(pretty);
    let mut output = Styled::new();
    append_pretty_groups(&mut output, &sorted);
    proof {
        assert(output@ =~= all_groups(sorted@));
    }
    output
}

// ---------------------------------------------------------------------------
// Readings
// ---------------------------------------------------------------------------
/// What was found out about the fields of an image that no whole number tells:
/// for each field the coordinate it gives, and the denominator of its exposure
/// time, both as they are shown.
#[derive(Debug)]
pub struct FieldFigures {
    pub decimal: Option<String>,
    pub rounded_denominator: Option<String>,
}

/// Everything that was read of an image.
#[derive(Debug)]
pub struct ReadMetadata {
    pub exif: ExifData,
    /// One for each field.
    pub figures: Vec<FieldFigures>,
    pub nearest: Option<NearestPlaces>,
    pub warnings: Vec<String>,
    pub file_info: Vec<ReadInfoRow>,
}

/// The coordinate that a field was found to give.
pub open spec fn decimal_at(figures: Seq<FieldFigures>, i: int) -> Option<Seq<char>> {
    if 0 <= i < figures.len() {
        text_option(figures[i].decimal)
    } else {
        None
    }
}

/// The denominator that the exposure time of a field was found to have.
pub open spec fn denominator_at(figures: Seq<FieldFigures>, i: int) -> Option<Seq<char>> {
    if 0 <= i < figures.len() {
        text_option(figures[i].rounded_denominator)
    } else {
        None
    }
}

/// The rows of the first `n` fields: a pretty reading leaves out the payload of
/// custom tags.
pub open spec fn rows_of_fields(
    fields: Seq<FieldView>,
    figures: Seq<FieldFigures>,
    n: int,
    format: ReadFormat,
    omitted: Seq<char>,
) -> Seq<RowView>
    decreases n,
{
    if n <= 0 {
        Seq::empty()
    } else {
        let before = rows_of_fields(fields, figures, n - 1, format, omitted);
        let field = fields[n - 1];
        if format == ReadFormat::Raw || !is_payload_field(field) {
            before.push(
                row_of(
                    field,
                    decimal_at(figures, n - 1),
                    denominator_at(figures, n - 1),
                    format,
                    omitted,
                ),
            )
        } else {
            before
        }
    }
}

/// The rows of the fields of an image.
pub fn rows_from_fields(
    fields: &Vec<ExifField>,
    figures: &Vec<FieldFigures>,
    format: ReadFormat,
    omitted: &str,
) -> (r: Vec<ReadRow>)
    ensures
        row_views(r@) == rows_of_fields(
            field_views(fields@),
            figures@,
            fields@.len() as int,
            format,
            omitted@,
        ),
{
    let ghost all = field_views(fields@);
    let mut out: Vec<ReadRow> = Vec::new();
    let none: Option<String> = None;
    let mut i: usize = 0;
    proof {
        assert(row_views(out@) =~= Seq::empty());
    }
    while i < fields.len()
        invariant
            i <= fields@.len(),
            all == field_views(fields@),
            none is None,
            row_views(out@) == rows_of_fields(all, figures@, i as int, format, omitted@),
        decreases fields@.len() - i,
    {
        let ghost before = row_views(out@);
        let field = &fields[i];
        if format == ReadFormat::Raw || !is_exifmeta_custom_payload_field(field) {
            let row = if i < figures.len() {
                ReadRow::from_field(
                    field,
                    &figures[i].decimal,
                    &figures[i].rounded_denominator,
                    format,
                    omitted,
                )
            } else {
                ReadRow::from_field(field, &none, &none, format, omitted)
            };
            let ghost view = row@;
            out.push(row);
            proof {
                assert(row_views(out@) =~= before.push(view));
            }
        }
        i += 1;
    }
    out
}

/// What is said of an image without tags.
pub open spec fn empty_marks(format: ReadFormat) -> Seq<Mark> {
    match format {
        ReadFormat::Pretty => painted(Tone::Yellow, "<No EXIF metadata found>"@),
        ReadFormat::Raw => plain("<No EXIF metadata found>"@),
    }
}

/// What is said of an image without attributes.
pub fn format_empty_exif_message(format: ReadFormat) -> (r: Styled)
    ensures
        r@ == empty_marks(format),
{
    match format {
        ReadFormat::Pretty => Styled::of_painted(Tone::Yellow, "<No EXIF metadata found>"),
        ReadFormat::Raw => Styled::of("<No EXIF metadata found>"),
    }
}

/// One line for each warning.
pub open spec fn read_warning_lines(warnings: Seq<Seq<char>>) -> Seq<char>
    decreases warnings.len(),
{
    if warnings.len() == 0 {
        Seq::empty()
    } else {
        read_warning_lines(warnings.drop_last()) + "warning: "@ + warnings.last() + "\n"@
    }
}

/// A reading with the warnings behind it.
pub open spec fn with_read_warnings(text: Seq<char>, warnings: Seq<Seq<char>>) -> Seq<char> {
    if warnings.len() == 0 {
        text
    } else {
        trim_end(text + "\n\nWarnings:\n"@ + read_warning_lines(warnings))
    }
}

fn append_read_warnings(text: String, warnings: &Vec<String>) -> (r: String)
    ensures
        r@ == with_read_warnings(text@, texts(warnings@)),
{
    let ghost all = texts(warnings@);
    if warnings.len() == 0 {
        return text;
    }
    let mut output = text;
    output.push_str("\n\nWarnings:\n");
    let ghost headed = output@;
    let mut i: usize = 0;
    proof {
        assert(headed + Seq::<char>::empty() =~= headed);
    }
    while i < warnings.len()
        invariant
            i <= warnings@.len(),
            all == texts(warnings@),
            output@ == headed + read_warning_lines(all.take(i as int)),
        decreases warnings@.len() - i,
    {
        proof {
            assert(all.take(i + 1).drop_last() =~= all.take(i as int));
        }
        output.push_str("warning: ");
        output.push_str(warnings[i].as_str());
        output.push_str("\n");
        i += 1;
        proof {
            assert(output@ =~= headed + read_warning_lines(all.take(i as int)));
        }
    }
    proof {
        assert(all.take(all.len() as int) =~= all);
    }
    text_trim_end(output.as_str()).to_owned()
}

/// The rows of a raw reading: sorted, in lines.
pub open spec fn is_raw_reading(marks: Seq<Mark>, views: Seq<RowView>) -> bool {
    exists|rows: Seq<ReadRow>|
        #![trigger row_views(rows)]
        row_views(rows) == views && {
            let sorted = stable_sorted::<ReadRow, ByTag>(rows);
            marks == raw_lines(sorted, context_width(sorted), name_width(sorted))
        }
}

/// The rows of a pretty reading, out of rows that are sorted first.
pub open spec fn is_sorted_pretty_reading(
    marks: Seq<Mark>,
    views: Seq<RowView>,
    metadata: ReadMetadata,
    omitted: Seq<char>,
) -> bool {
    exists|rows: Seq<ReadRow>|
        #![trigger row_views(rows)]
        row_views(rows) == views && is_pretty_reading(
            marks,
            pretty_rows_of(
                info_views(metadata.file_info@),
                row_views(stable_sorted::<ReadRow, ByTag>(rows)),
                tags_of_fields(field_views(metadata.exif.fields@)),
                omitted,
            ) + nearest_rows(metadata.nearest),
        )
}

/// Whether a text is the reading of an image, with `omitted` in place of values
/// that are too long: a message where there are no tags, else the rows in the
/// format that is asked for, without blanks at the end, and behind them the
/// warnings. Only a pretty reading searches for places.
pub open spec fn is_reading(
    text: Seq<char>,
    metadata: ReadMetadata,
    format: ReadFormat,
    omitted: Seq<char>,
) -> bool {
    let fields = field_views(metadata.exif.fields@);
    let views = rows_of_fields(
        fields,
        metadata.figures@,
        fields.len() as int,
        format,
        omitted,
    );
    let custom = tags_of_fields(fields);
    exists|marks: Seq<Mark>, shown: Seq<char>| #[trigger]
        renders(marks, shown) && if views.len() == 0 && custom.len() == 0 {
            &&& marks == empty_marks(format)
            &&& text == with_read_warnings(shown, texts(metadata.warnings@))
        } else {
            match format {
                ReadFormat::Pretty => {
                    &&& is_sorted_pretty_reading(marks, views, metadata, omitted)
                    &&& text == with_read_warnings(
                        trim_end(shown),
                        texts(metadata.warnings@) + search_warnings(metadata.nearest),
                    )
                },
                ReadFormat::Raw => {
                    &&& is_raw_reading(marks, views)
                    &&& text == with_read_warnings(trim_end(shown), texts(metadata.warnings@))
                },
            }
        }
}

/// The whole report of a reading.
pub fn format_read_output(metadata: &ReadMetadata, format: ReadFormat) -> (r: String)
    ensures
        exists|omitted: Seq<char>| #[trigger]
            is_omitted_message(omitted) && is_reading(r@, *metadata, format, omitted),
{
    let omitted = pretty_unknown_value_omitted_message();
    let mut warnings = copy_texts(&metadata.warnings);
    let custom = custom_tags_from_exif(&metadata.exif.fields);
    let rows = rows_from_fields(
        &metadata.exif.fields,
        &metadata.figures,
        format,
        omitted.as_str(),
    );
    let ghost views = row_views(rows@);
    proof {
        assert(views.len() == rows@.len());
        assert(custom_views(custom@).len() == custom@.len());
        assert(is_omitted_message(omitted@));
    }
    if rows.len() == 0 && custom.len() == 0 {
        let message = format_empty_exif_message(format);
        let shown = message.render();
        proof {
            assert(renders(message@, shown@));
        }
        return append_read_warnings(shown, &warnings);
    }
    let ghost unsorted = rows@;
    let rows = sort_read_rows(rows);
    proof {
        assert(row_views(unsorted) == views);
    }
    let marks = match format {
        ReadFormat::Pretty => append_pretty_read_rows(
            &metadata.file_info,
            &rows,
            &custom,
            &metadata.nearest,
            &mut warnings,
            omitted.as_str(),
        ),
        ReadFormat::Raw => {
            let mut output = Styled::new();
            append_raw_read_rows(&mut output, &rows);
            proof {
                assert(output@ =~= raw_lines(rows@, context_width(rows@), name_width(rows@)));
            }
            output
        },
    };
    let shown = marks.render();
    let trimmed = text_trim_end(shown.as_str()).to_owned();
    let r = append_read_warnings(trimmed, &warnings);
    proof {
        assert(renders(marks@, shown@));
    }
    r
}

} // verus!
