//! The rows of a reading: one for each field, and those on the file.

use crate::cli::ReadFormat;
use crate::double::{file_size_text, format_file_size};
use crate::exif_data::{field_views, ExifField, FieldValue, FieldView, TagContext, ValueView};
use crate::file_kind::{has_bytes_at, FileKind};
use crate::labels::{title_case_tag_name, title_of};
use crate::order::{
    is_text_before, law_stable_sorted_is_ordered_permutation, lemma_text_before_asymmetric,
    lemma_text_before_splits, lemma_text_before_total, stable_sort, stable_sorted, text_before,
    Ranking,
};
use crate::path::{directory_name, directory_of, file_name, name_of, FilePath};
use crate::payload::{ascii_prefix, comment_bytes, user_comment_bytes, without_prefix};
use crate::text::{hex4, hex4_text, same, strip_suffix, text_option, text_strip_suffix};
use vstd::prelude::*;
use vstd::string::*;
use vstd::utf8::*;

verus! {

/// A row of a reading.
#[derive(Debug)]
pub struct ReadRow {
    pub is_unknown: bool,
    pub ifd: usize,
    pub context: String,
    pub tag_id: u16,
    pub name: String,
    pub pretty_name: String,
    pub value: String,
    /// The denominator of an exposure time, rounded to a whole number, where the
    /// value has one.
    pub rounded_denominator: Option<String>,
}

/// What a row says.
pub struct RowView {
    pub is_unknown: bool,
    pub ifd: nat,
    pub context: Seq<char>,
    pub tag_id: u16,
    pub name: Seq<char>,
    pub pretty_name: Seq<char>,
    pub value: Seq<char>,
    pub rounded_denominator: Option<Seq<char>>,
}

impl View for ReadRow {
    type V = RowView;

    open spec fn view(&self) -> RowView {
        RowView {
            is_unknown: self.is_unknown,
            ifd: self.ifd as nat,
            context: self.context@,
            tag_id: self.tag_id,
            name: self.name@,
            pretty_name: self.pretty_name@,
            value: self.value@,
            rounded_denominator: text_option(self.rounded_denominator),
        }
    }
}

pub open spec fn row_views(rows: Seq<ReadRow>) -> Seq<RowView> {
    rows.map_values(|row: ReadRow| row@)
}

pub const PRETTY_UNKNOWN_VALUE_DISPLAY_LIMIT: usize = 120;

pub const PRETTY_KNOWN_VALUE_DISPLAY_LIMIT: usize = 2000;

// ---------------------------------------------------------------------------
// Values
// ---------------------------------------------------------------------------
/// The length of all texts of a value together.
pub open spec fn texts_len(values: Seq<Seq<u8>>) -> nat
    decreases values.len(),
{
    if values.len() == 0 {
        0
    } else {
        texts_len(values.drop_last()) + values.last().len()
    }
}

/// How much a value holds.
pub open spec fn payload_len(value: ValueView) -> nat {
    match value {
        ValueView::Ascii(values) => texts_len(values),
        ValueView::Undefined(bytes) => bytes.len(),
        ValueView::Rational(values) => values.len(),
        ValueView::Unknown(count) => count as nat,
        ValueView::Other(count) => count,
    }
}

/// How long the value of an unknown tag is.
pub fn unknown_value_payload_len(value: &FieldValue) -> (r: u128)
    ensures
        r == payload_len(value@),
{
    match value {
        FieldValue::Ascii(values) => {
            let ghost all = values@.map_values(|v: Vec<u8>| v@);
            let mut total: u128 = 0;
            let mut i: usize = 0;
            while i < values.len()
                invariant
                    i <= values.len(),
                    all == values@.map_values(|v: Vec<u8>| v@),
                    total == texts_len(all.take(i as int)),
                    total <= i * usize::MAX,
                decreases values@.len() - i,
            {
                proof {
                    assert(all.take(i + 1).drop_last() =~= all.take(i as int));
                    assert(all.take(i + 1).last() == values@[i as int]@);
                    assert(i * usize::MAX + usize::MAX == (i + 1) * usize::MAX)
                        by (nonlinear_arith);
                    assert((i + 1) * usize::MAX <= u128::MAX) by (nonlinear_arith)
                        requires
                            i + 1 <= usize::MAX,
                            usize::MAX <= 0xffff_ffff_ffff_ffff,
                    ;
                }
                total += values[i].len() as u128;
                i += 1;
            }
            proof {
                assert(all.take(all.len() as int) =~= all);
            }
            total
        },
        FieldValue::Undefined(bytes) => bytes.len() as u128,
        FieldValue::Rational(values) => values.len() as u128,
        FieldValue::Unknown(count) => *count as u128,
        FieldValue::Other(count) => *count as u128,
    }
}

/// The value of a tag that is not known: as it is written for debugging, or in a
/// pretty reading a message in place of a long one.
pub open spec fn unknown_value(
    field: FieldView,
    format: ReadFormat,
    omitted: Seq<char>,
) -> Seq<char> {
    if format == ReadFormat::Pretty && payload_len(field.value)
        > PRETTY_UNKNOWN_VALUE_DISPLAY_LIMIT {
        omitted
    } else {
        field.debug
    }
}

/// The value of an unknown tag as it is shown.
pub fn format_unknown_field_value(field: &ExifField, format: ReadFormat, omitted: &str) -> (r:
    String)
    ensures
        r@ == unknown_value(field@, format, omitted@),
{
    if format == ReadFormat::Pretty && unknown_value_payload_len(&field.value)
        > PRETTY_UNKNOWN_VALUE_DISPLAY_LIMIT as u128 {
        omitted.to_owned()
    } else {
        field.debug.clone()
    }
}

/// `std::str::from_utf8`: the text that bytes encode, where they are valid
/// UTF-8.
#[verifier::external_body]
fn utf8_text(bytes: &[u8]) -> (r: Option<String>)
    ensures
        r is Some <==> valid_utf8(bytes@),
        r is Some ==> r->Some_0@ == decode_utf8(bytes@),
{
    std::str::from_utf8(bytes).ok().map(|text| text.to_owned())
}

/// The text that bytes encode.
pub open spec fn text_in(bytes: Seq<u8>) -> Option<Seq<char>> {
    if valid_utf8(bytes) {
        Some(decode_utf8(bytes))
    } else {
        None
    }
}

/// The text of a user comment, where it is text.
pub open spec fn comment_text(value: ValueView) -> Option<Seq<char>> {
    match comment_bytes(value) {
        Some(bytes) => text_in(without_prefix(bytes, ascii_prefix())),
        None => None,
    }
}

fn bytes_behind(bytes: &Vec<u8>, from: usize) -> (r: Vec<u8>)
    requires
        from <= bytes@.len(),
    ensures
        r@ == bytes@.skip(from as int),
{
    let mut out: Vec<u8> = Vec::new();
    let mut i: usize = from;
    while i < bytes.len()
        invariant
            from <= i <= bytes@.len(),
            out@ =~= bytes@.subrange(from as int, i as int),
        decreases bytes@.len() - i,
    {
        out.push(bytes[i]);
        i += 1;
    }
    proof {
        assert(out@ =~= bytes@.skip(from as int));
    }
    out
}

/// The text of a user comment.
pub fn visible_user_comment_text(field: &ExifField) -> (r: Option<String>)
    ensures
        text_option(r) == comment_text(field@.value),
{
    let bytes = match user_comment_bytes(field) {
        Some(bytes) => bytes,
        None => return None,
    };
    let prefix = "ASCII\0\0\0".as_bytes();
    if has_bytes_at(bytes.as_slice(), 0, prefix) {
        let body = bytes_behind(bytes, prefix.len());
        utf8_text(body.as_slice())
    } else {
        utf8_text(bytes.as_slice())
    }
}

/// The value of a tag that is known: a user comment as its text, an exposure
/// time without its unit, anything else as it is shown.
pub open spec fn known_value(field: FieldView) -> Seq<char> {
    if field.name == "UserComment"@ && comment_text(field.value) is Some {
        comment_text(field.value)->Some_0
    } else if field.name == "ExposureTime"@ && strip_suffix(field.shown, " s"@) is Some {
        strip_suffix(field.shown, " s"@)->Some_0
    } else {
        field.shown
    }
}

/// The value of a known tag as it is shown.
pub fn format_known_field_value(field: &ExifField) -> (r: String)
    ensures
        r@ == known_value(field@),
{
    if same(field.name.as_str(), "UserComment") {
        if let Some(text) = visible_user_comment_text(field) {
            return text;
        }
    }
    if same(field.name.as_str(), "ExposureTime") {
        if let Some(bare) = text_strip_suffix(field.shown.as_str(), " s") {
            return bare.to_owned();
        }
    }
    field.shown.clone()
}

// ---------------------------------------------------------------------------
// Rows
// ---------------------------------------------------------------------------
/// Whether a field is one of which not enough is known to show it.
pub open spec fn is_unknown_field(field: FieldView) -> bool {
    !field.is_described || field.value is Unknown
}

/// The name of a field.
pub open spec fn row_name(field: FieldView) -> Seq<char> {
    if is_unknown_field(field) {
        "Tag("@ + field.context_name + ", 0x"@ + hex4(field.number) + ")"@
    } else {
        field.name
    }
}

/// The row of a field. `decimal` is the coordinate that the field gives, in
/// decimal degrees, where it gives one.
pub open spec fn row_of(
    field: FieldView,
    decimal: Option<Seq<char>>,
    rounded_denominator: Option<Seq<char>>,
    format: ReadFormat,
    omitted: Seq<char>,
) -> RowView {
    let unknown = is_unknown_field(field);
    RowView {
        is_unknown: unknown,
        ifd: field.ifd as nat,
        context: field.context_name,
        tag_id: field.number,
        name: row_name(field),
        pretty_name: if unknown {
            "Unknown "@ + field.context_name + " Tag"@
        } else {
            title_of(field.name)
        },
        value: if unknown {
            unknown_value(field, format, omitted)
        } else {
            match decimal {
                Some(decimal) => "("@ + decimal + ") "@ + known_value(field),
                None => known_value(field),
            }
        },
        rounded_denominator,
    }
}

impl ReadRow {
    /// The row of a field.
    pub fn from_field(
        field: &ExifField,
        decimal: &Option<String>,
        rounded_denominator: &Option<String>,
        format: ReadFormat,
        omitted: &str,
    ) -> (r: ReadRow)
        ensures
            r@ == row_of(
                field@,
                text_option(*decimal),
                text_option(*rounded_denominator),
                format,
                omitted@,
            ),
    {
        let is_unknown = !field.is_described || match &field.value {
            FieldValue::Unknown(_) => true,
            _ => false,
        };
        let name = if is_unknown {
            let mut name = "Tag(".to_owned();
            name.push_str(field.context_name.as_str());
            name.push_str(", 0x");
            name.push_str(hex4_text(field.number).as_str());
            name.push_str(")");
            name
        } else {
            field.name.clone()
        };
        let pretty_name = if is_unknown {
            let mut name = "Unknown ".to_owned();
            name.push_str(field.context_name.as_str());
            name.push_str(" Tag");
            name
        } else {
            title_case_tag_name(field.name.as_str())
        };
        let value = if is_unknown {
            format_unknown_field_value(field, format, omitted)
        } else {
            let known = format_known_field_value(field);
            match decimal {
                Some(decimal) => {
                    let mut value = "(".to_owned();
                    value.push_str(decimal.as_str());
                    value.push_str(") ");
                    value.push_str(known.as_str());
                    value
                },
                None => known,
            }
        };
        ReadRow {
            is_unknown,
            ifd: field.ifd as usize,
            context: field.context_name.clone(),
            tag_id: field.number,
            name,
            pretty_name,
            value,
            rounded_denominator: crate::text::copy_text_option(rounded_denominator),
        }
    }
}

/// Rows in the order of a reading: known tags first, then by image, context,
/// number and name.
pub struct ByTag {}

impl Ranking<ReadRow> for ByTag {
    open spec fn before(a: &ReadRow, b: &ReadRow) -> bool {
        if a.is_unknown != b.is_unknown {
            b.is_unknown
        } else if a.ifd != b.ifd {
            a.ifd < b.ifd
        } else if a.context@ != b.context@ {
            text_before(a.context@, b.context@)
        } else if a.tag_id != b.tag_id {
            a.tag_id < b.tag_id
        } else {
            text_before(a.name@, b.name@)
        }
    }

    fn is_before(a: &ReadRow, b: &ReadRow) -> (r: bool) {
        if a.is_unknown != b.is_unknown {
            b.is_unknown
        } else if a.ifd != b.ifd {
            a.ifd < b.ifd
        } else if !same(a.context.as_str(), b.context.as_str()) {
            is_text_before(a.context.as_str(), b.context.as_str())
        } else if a.tag_id != b.tag_id {
            a.tag_id < b.tag_id
        } else {
            is_text_before(a.name.as_str(), b.name.as_str())
        }
    }

    proof fn lemma_asymmetric(a: &ReadRow, b: &ReadRow) {
        lemma_text_before_asymmetric(a.context@, b.context@);
        lemma_text_before_asymmetric(a.name@, b.name@);
    }

    proof fn lemma_splits(a: &ReadRow, middle: &ReadRow, b: &ReadRow) {
        if a.context@ != b.context@ && text_before(a.context@, b.context@) {
            lemma_text_before_splits(a.context@, middle.context@, b.context@);
        }
        if a.context@ == b.context@ && a.context@ != middle.context@ {
            if !text_before(a.context@, middle.context@) && !text_before(
                middle.context@,
                a.context@,
            ) {
                lemma_text_before_total(a.context@, middle.context@);
            }
        }
        if text_before(a.name@, b.name@) {
            lemma_text_before_splits(a.name@, middle.name@, b.name@);
        }
    }
}

/// Sorts rows, those of unknown tags last.
pub fn sort_read_rows(rows: Vec<ReadRow>) -> (r: Vec<ReadRow>)
    ensures
        r@ == stable_sorted::<ReadRow, ByTag>(rows@),
{
    stable_sort::<ReadRow, ByTag>(rows)
}

/// The rows of tags that nothing is known of come after all others.
pub proof fn law_unknown_rows_come_last(rows: Seq<ReadRow>, i: int, j: int)
    requires
        0 <= i < j < rows.len(),
        stable_sorted::<ReadRow, ByTag>(rows)[i].is_unknown,
    ensures
        stable_sorted::<ReadRow, ByTag>(rows)[j].is_unknown,
{
    law_stable_sorted_is_ordered_permutation::<ReadRow, ByTag>(rows);
    let sorted = stable_sorted::<ReadRow, ByTag>(rows);
    assert(!ByTag::before(&sorted[j], &sorted[i]));
}

// ---------------------------------------------------------------------------
// Coordinates
// ---------------------------------------------------------------------------
/// A coordinate: degrees, minutes and seconds as quotients, and whether it is
/// south or west.
#[derive(Debug, Clone, Copy)]
pub struct GpsReading {
    pub degrees: (u32, u32),
    pub minutes: (u32, u32),
    pub seconds: (u32, u32),
    pub negative: bool,
}

pub open spec fn is_latitude(field: FieldView) -> bool {
    field.context == TagContext::Gps && field.number == 0x0002
}

pub open spec fn is_longitude(field: FieldView) -> bool {
    field.context == TagContext::Gps && field.number == 0x0004
}

/// The last field of an image with a number among those on the position.
pub open spec fn gps_field(fields: Seq<FieldView>, number: u16, ifd: u16) -> Option<FieldView>
    decreases fields.len(),
{
    if fields.len() == 0 {
        None
    } else if fields.last().context == TagContext::Gps && fields.last().number == number
        && fields.last().ifd == ifd {
        Some(fields.last())
    } else {
        gps_field(fields.drop_last(), number, ifd)
    }
}

/// The text of a field that says on which side a coordinate lies.
pub open spec fn reference_text(field: FieldView) -> Option<Seq<char>> {
    match field.value {
        ValueView::Ascii(values) => if values.len() > 0 {
            text_in(values[0])
        } else {
            None
        },
        _ => None,
    }
}

/// Whether a coordinate is south or west.
pub open spec fn is_negative(fields: Seq<FieldView>, field: FieldView) -> bool {
    let number = if is_latitude(field) {
        0x0001u16
    } else {
        0x0003u16
    };
    match gps_field(fields, number, field.ifd) {
        Some(reference) => reference_text(reference) == Some("S"@) || reference_text(reference)
            == Some("W"@),
        None => false,
    }
}

/// The coordinate that a field gives, if it gives one.
pub open spec fn coordinate_of(fields: Seq<FieldView>, field: FieldView) -> Option<GpsReading> {
    if is_latitude(field) || is_longitude(field) {
        match field.value {
            ValueView::Rational(values) => if values.len() >= 3 {
                Some(
                    GpsReading {
                        degrees: values[0],
                        minutes: values[1],
                        seconds: values[2],
                        negative: is_negative(fields, field),
                    },
                )
            } else {
                None
            },
            _ => None,
        }
    } else {
        None
    }
}

/// The half of the globe that a field tells.
pub fn gps_reference(field: &ExifField) -> (r: Option<String>)
    ensures
        text_option(r) == reference_text(field@),
{
    match &field.value {
        FieldValue::Ascii(values) => if values.len() > 0 {
            utf8_text(values[0].as_slice())
        } else {
            None
        },
        _ => None,
    }
}

fn find_gps_field(fields: &Vec<ExifField>, number: u16, ifd: u16) -> (r: Option<&ExifField>)
    ensures
        match r {
            Some(field) => gps_field(field_views(fields@), number, ifd) == Some(field@),
            None => gps_field(field_views(fields@), number, ifd) is None,
        },
{
    let ghost all = field_views(fields@);
    let mut n: usize = fields.len();
    proof {
        assert(all.take(all.len() as int) =~= all);
    }
    while n > 0
        invariant
            n <= fields@.len(),
            all == field_views(fields@),
            gps_field(all, number, ifd) == gps_field(all.take(n as int), number, ifd),
        decreases n,
    {
        proof {
            assert(all.take(n as int).last() == fields@[n - 1]@);
            assert(all.take(n as int).drop_last() =~= all.take(n - 1));
        }
        let field = &fields[n - 1];
        if field.context == TagContext::Gps && field.number == number && field.ifd == ifd {
            return Some(field);
        }
        n -= 1;
    }
    None
}

/// The coordinate that a field gives, if it gives one.
pub fn decimal_gps_coordinate(fields: &Vec<ExifField>, field: &ExifField) -> (r: Option<GpsReading>)
    ensures
        r == coordinate_of(field_views(fields@), field@),
{
    if field.context != TagContext::Gps || (field.number != 0x0002 && field.number != 0x0004) {
        return None;
    }
    let number: u16 = if field.number == 0x0002 {
        0x0001
    } else {
        0x0003
    };
    match &field.value {
        FieldValue::Rational(values) => {
            if values.len() < 3 {
                return None;
            }
            let negative = match find_gps_field(fields, number, field.ifd) {
                Some(reference) => match gps_reference(reference) {
                    Some(text) => same(text.as_str(), "S") || same(text.as_str(), "W"),
                    None => false,
                },
                None => false,
            };
            Some(
                GpsReading {
                    degrees: values[0],
                    minutes: values[1],
                    seconds: values[2],
                    negative,
                },
            )
        },
        _ => None,
    }
}

/// The first field with a number among those on the position.
pub open spec fn first_gps_field(fields: Seq<FieldView>, number: u16) -> Option<FieldView>
    decreases fields.len(),
{
    if fields.len() == 0 {
        None
    } else if fields[0].context == TagContext::Gps && fields[0].number == number {
        Some(fields[0])
    } else {
        first_gps_field(fields.skip(1), number)
    }
}

fn find_first_gps_field(fields: &Vec<ExifField>, number: u16) -> (r: Option<&ExifField>)
    ensures
        match r {
            Some(field) => first_gps_field(field_views(fields@), number) == Some(field@),
            None => first_gps_field(field_views(fields@), number) is None,
        },
{
    let ghost all = field_views(fields@);
    let mut i: usize = 0;
    proof {
        assert(all.skip(0) =~= all);
    }
    while i < fields.len()
        invariant
            i <= fields@.len(),
            all == field_views(fields@),
            first_gps_field(all, number) == first_gps_field(all.skip(i as int), number),
        decreases fields@.len() - i,
    {
        proof {
            assert(all.skip(i as int)[0] == fields@[i as int]@);
            assert(all.skip(i as int).skip(1) =~= all.skip(i + 1));
        }
        let field = &fields[i];
        if field.context == TagContext::Gps && field.number == number {
            return Some(field);
        }
        i += 1;
    }
    None
}

/// The position of an image: its first latitude and its first longitude, where
/// both are coordinates.
pub open spec fn position_of(fields: Seq<FieldView>) -> Option<(GpsReading, GpsReading)> {
    match (first_gps_field(fields, 0x0002), first_gps_field(fields, 0x0004)) {
        (Some(latitude), Some(longitude)) => match (
            coordinate_of(fields, latitude),
            coordinate_of(fields, longitude),
        ) {
            (Some(latitude), Some(longitude)) => Some((latitude, longitude)),
            _ => None,
        },
        _ => None,
    }
}

/// The position of an image.
pub fn gps_coordinates(fields: &Vec<ExifField>) -> (r: Option<(GpsReading, GpsReading)>)
    ensures
        r == position_of(field_views(fields@)),
{
    let latitude = match find_first_gps_field(fields, 0x0002) {
        Some(field) => field,
        None => return None,
    };
    let longitude = match find_first_gps_field(fields, 0x0004) {
        Some(field) => field,
        None => return None,
    };
    match (
        decimal_gps_coordinate(fields, latitude),
        decimal_gps_coordinate(fields, longitude),
    ) {
        (Some(latitude), Some(longitude)) => Some((latitude, longitude)),
        _ => None,
    }
}

// ---------------------------------------------------------------------------
// The file
// ---------------------------------------------------------------------------
/// A row on the file.
#[derive(Debug)]
pub struct ReadInfoRow {
    pub name: String,
    pub value: String,
}

/// What a row on the file says.
pub type InfoView = (Seq<char>, Seq<char>);

impl View for ReadInfoRow {
    type V = InfoView;

    open spec fn view(&self) -> InfoView {
        (self.name@, self.value@)
    }
}

pub open spec fn info_views(rows: Seq<ReadInfoRow>) -> Seq<InfoView> {
    rows.map_values(|row: ReadInfoRow| row@)
}

impl ReadInfoRow {
    /// A row on the file.
    pub fn new(name: &str, value: &str) -> (r: ReadInfoRow)
        ensures
            r@ == (name@, value@),
    {
        ReadInfoRow { name: name.to_owned(), value: value.to_owned() }
    }
}

/// What the file system says of a file. Times are as they are shown, where they
/// are known.
#[derive(Debug)]
pub struct FileFacts {
    pub size: u64,
    pub modified: Option<String>,
    pub accessed: Option<String>,
    pub created: Option<String>,
    pub permissions: String,
}

pub open spec fn byte_order_text(little_endian: bool) -> Seq<char> {
    if little_endian {
        "Little-endian (Intel, II)"@
    } else {
        "Big-endian (Motorola, MM)"@
    }
}

/// A byte order as it is shown.
pub fn format_exif_byte_order(little_endian: bool) -> (r: &'static str)
    ensures
        r@ == byte_order_text(little_endian),
{
    if little_endian {
        "Little-endian (Intel, II)"
    } else {
        "Big-endian (Motorola, MM)"
    }
}

/// A row for a time, where it is known.
pub open spec fn time_row(name: Seq<char>, time: Option<String>) -> Seq<InfoView> {
    match time {
        Some(text) => seq![(name, text@)],
        None => Seq::empty(),
    }
}

/// The rows on a file.
pub open spec fn file_rows(
    image: FilePath,
    facts: FileFacts,
    kind: FileKind,
    little_endian: bool,
) -> Seq<InfoView> {
    seq![
        ("File Name"@, name_of(image)),
        ("Directory"@, directory_of(image)),
        ("File Size"@, file_size_text(facts.size as nat)),
    ] + time_row("File Modification Date/Time"@, facts.modified) + time_row(
        "File Access Date/Time"@,
        facts.accessed,
    ) + time_row("File Creation Date/Time"@, facts.created) + seq![
        ("File Permissions"@, facts.permissions@),
        ("File Type"@, kind.file_type@),
        ("File Type Extension"@, kind.extension@),
        ("MIME Type"@, kind.mime_type@),
        ("Exif Byte Order"@, byte_order_text(little_endian)),
    ]
}

fn push_row(rows: &mut Vec<ReadInfoRow>, name: &str, value: &str)
    ensures
        info_views(final(rows)@) == info_views(old(rows)@).push((name@, value@)),
{
    let ghost before = info_views(rows@);
    rows.push(ReadInfoRow::new(name, value));
    proof {
        assert(info_views(rows@) =~= before.push((name@, value@)));
    }
}

fn push_time(rows: &mut Vec<ReadInfoRow>, name: &str, time: &Option<String>)
    ensures
        info_views(final(rows)@) == info_views(old(rows)@) + time_row(name@, *time),
{
    let ghost before = info_views(rows@);
    match time {
        Some(text) => push_row(rows, name, text.as_str()),
        None => {},
    }
    proof {
        assert(info_views(rows@) =~= before + time_row(name@, *time));
    }
}

/// The rows on a file.
pub fn file_info(image: &FilePath, facts: &FileFacts, kind: &FileKind, little_endian: bool) -> (r:
    Vec<ReadInfoRow>)
    ensures
        info_views(r@) == file_rows(*image, *facts, *kind, little_endian),
{
    let mut rows: Vec<ReadInfoRow> = Vec::new();
    push_row(&mut rows, "File Name", file_name(image).as_str());
    push_row(&mut rows, "Directory", directory_name(image).as_str());
    push_row(&mut rows, "File Size", format_file_size(facts.size).as_str());
    push_time(&mut rows, "File Modification Date/Time", &facts.modified);
    push_time(&mut rows, "File Access Date/Time", &facts.accessed);
    push_time(&mut rows, "File Creation Date/Time", &facts.created);
    push_row(&mut rows, "File Permissions", facts.permissions.as_str());
    push_row(&mut rows, "File Type", kind.file_type);
    push_row(&mut rows, "File Type Extension", kind.extension.as_str());
    push_row(&mut rows, "MIME Type", kind.mime_type);
    push_row(&mut rows, "Exif Byte Order", format_exif_byte_order(little_endian));
    proof {
        assert(info_views(rows@) =~= file_rows(*image, *facts, *kind, little_endian));
    }
    rows
}

/// The permissions of one class of users, from the three bits of their own.
pub open spec fn class_text(bits: nat) -> Seq<char> {
    seq![
        if bits / 4 % 2 == 1 { 'r' } else { '-' },
        if bits / 2 % 2 == 1 { 'w' } else { '-' },
        if bits % 2 == 1 { 'x' } else { '-' },
    ]
}

/// The permissions of a file, from its mode: the owner, the group, and all
/// others.
pub open spec fn permissions_text(mode: nat, is_directory: bool) -> Seq<char> {
    seq![if is_directory { 'd' } else { '-' }] + class_text(mode / 64 % 8) + class_text(
        mode / 8 % 8,
    ) + class_text(mode % 8)
}

fn push_class(out: &mut String, bits: u32)
    requires
        bits < 8,
    ensures
        final(out)@ == old(out)@ + class_text(bits as nat),
{
    out.push(
        if bits / 4 % 2 == 1 {
            'r'
        } else {
            '-'
        },
    );
    out.push(
        if bits / 2 % 2 == 1 {
            'w'
        } else {
            '-'
        },
    );
    out.push(
        if bits % 2 == 1 {
            'x'
        } else {
            '-'
        },
    );
    proof {
        assert(out@ =~= old(out)@ + class_text(bits as nat));
    }
}

/// Permissions as they are shown.
pub fn format_permissions(mode: u32, is_directory: bool) -> (r: String)
    ensures
        r@ == permissions_text(mode as nat, is_directory),
{
    let mut out = String::new();
    out.push(
        if is_directory {
            'd'
        } else {
            '-'
        },
    );
    push_class(&mut out, mode / 64 % 8);
    push_class(&mut out, mode / 8 % 8);
    push_class(&mut out, mode % 8);
    proof {
        assert(out@ =~= permissions_text(mode as nat, is_directory));
    }
    out
}

} // verus!
