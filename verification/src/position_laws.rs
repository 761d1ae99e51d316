//! What holds of positions, written and read.

use crate::convert::{position_tags, GpsPosition};
use crate::exif_data::{FieldView, TagContext, ValueView};
use crate::rows::{
    coordinate_of, first_gps_field, gps_field, position_of, reference_text, GpsReading,
};
use crate::writable::{ByteTag, RatioTag, TextTag, UnsignedRatio, WritableView};
use vstd::prelude::*;
use vstd::utf8::*;

verus! {

// ---------------------------------------------------------------------------
// Writing
// ---------------------------------------------------------------------------
/// A position to the south is written with an `S`, any other with an `N`; one to the
/// west with a `W`, any other with an `E`. The distances are written as they are.
pub proof fn law_hemispheres_are_written(position: GpsPosition)
    ensures
        position_tags(position).contains(
            WritableView::Text(
                TextTag::GpsLatitudeRef,
                seq![if position.south { 'S' } else { 'N' }],
            ),
        ),
        position_tags(position).contains(
            WritableView::Text(
                TextTag::GpsLongitudeRef,
                seq![if position.west { 'W' } else { 'E' }],
            ),
        ),
        position_tags(position).contains(
            WritableView::Ratios(RatioTag::GpsLatitude, position.latitude@),
        ),
        position_tags(position).contains(
            WritableView::Ratios(RatioTag::GpsLongitude, position.longitude@),
        ),
{
    reveal_strlit("S");
    reveal_strlit("N");
    reveal_strlit("W");
    reveal_strlit("E");
    let tags = position_tags(position);
    assert("S"@ =~= seq!['S'] && "N"@ =~= seq!['N']);
    assert("W"@ =~= seq!['W'] && "E"@ =~= seq!['E']);
    assert(tags[0] == WritableView::Text(
        TextTag::GpsLatitudeRef,
        seq![if position.south { 'S' } else { 'N' }],
    ));
    assert(tags[1] == WritableView::Ratios(RatioTag::GpsLatitude, position.latitude@));
    assert(tags[2] == WritableView::Text(
        TextTag::GpsLongitudeRef,
        seq![if position.west { 'W' } else { 'E' }],
    ));
    assert(tags[3] == WritableView::Ratios(RatioTag::GpsLongitude, position.longitude@));
}

/// Positions on different sides of the equator are never written with the same
/// tags, nor those on different sides of the prime meridian.
pub proof fn law_sides_are_told_apart(one: GpsPosition, other: GpsPosition)
    requires
        position_tags(one) == position_tags(other),
    ensures
        one.south == other.south,
        one.west == other.west,
        one.latitude@ == other.latitude@,
        one.longitude@ == other.longitude@,
        one.altitude == other.altitude,
{
    reveal_strlit("S");
    reveal_strlit("N");
    reveal_strlit("W");
    reveal_strlit("E");
    let a = position_tags(one);
    let b = position_tags(other);
    assert("S"@[0] == 'S' && "N"@[0] == 'N' && "W"@[0] == 'W' && "E"@[0] == 'E');
    assert(a[0] == b[0] && a[1] == b[1] && a[2] == b[2] && a[3] == b[3]);
    if one.altitude is Some && other.altitude is Some {
        assert(a[5] == b[5] && a[6] == b[6]);
        let x = one.altitude->Some_0;
        let y = other.altitude->Some_0;
        let p = seq![if x.below_sea_level { 1u8 } else { 0u8 }];
        let q = seq![if y.below_sea_level { 1u8 } else { 0u8 }];
        assert(a[5] == WritableView::Bytes(ByteTag::GpsAltitudeRef, p));
        assert(b[5] == WritableView::Bytes(ByteTag::GpsAltitudeRef, q));
        assert(p[0] == q[0]);
        let v = seq![x.height];
        let w = seq![y.height];
        assert(a[6] == WritableView::Ratios(RatioTag::GpsAltitude, v));
        assert(b[6] == WritableView::Ratios(RatioTag::GpsAltitude, w));
        assert(v[0] == w[0]);
    } else {
        assert(a.len() == b.len());
    }
}

/// A height is written with a one where it is below sea level, else with a zero; no
/// tag on the height is written where it is not known.
pub proof fn law_heights_are_written(position: GpsPosition)
    ensures
        match position.altitude {
            Some(altitude) => {
                &&& position_tags(position).contains(
                    WritableView::Bytes(
                        ByteTag::GpsAltitudeRef,
                        seq![if altitude.below_sea_level { 1u8 } else { 0u8 }],
                    ),
                )
                &&& position_tags(position).contains(
                    WritableView::Ratios(RatioTag::GpsAltitude, seq![altitude.height]),
                )
            },
            None => forall|k: int|
                0 <= k < position_tags(position).len() ==> match #[trigger] position_tags(
                    position,
                )[k] {
                    WritableView::Bytes(_, _) => false,
                    WritableView::Ratios(tag, _) => tag != RatioTag::GpsAltitude,
                    _ => true,
                },
        },
{
    let tags = position_tags(position);
    if position.altitude is Some {
        let altitude = position.altitude->Some_0;
        assert(tags[5] == WritableView::Bytes(
            ByteTag::GpsAltitudeRef,
            seq![if altitude.below_sea_level { 1u8 } else { 0u8 }],
        ));
        assert(tags[6] == WritableView::Ratios(RatioTag::GpsAltitude, seq![altitude.height]));
    }
}

// ---------------------------------------------------------------------------
// Reading
// ---------------------------------------------------------------------------
proof fn lemma_last_gps_field(fields: Seq<FieldView>, number: u16, ifd: u16, r: int)
    requires
        0 <= r < fields.len(),
        fields[r].context == TagContext::Gps,
        fields[r].number == number,
        fields[r].ifd == ifd,
        forall|k: int|
            r < k < fields.len() ==> !((#[trigger] fields[k]).context == TagContext::Gps
                && fields[k].number == number && fields[k].ifd == ifd),
    ensures
        gps_field(fields, number, ifd) == Some(fields[r]),
    decreases fields.len(),
{
    if r < fields.len() - 1 {
        let before = fields.drop_last();
        assert(fields[fields.len() - 1] == fields.last());
        assert forall|k: int| r < k < before.len() implies !((#[trigger] before[k]).context
            == TagContext::Gps && before[k].number == number && before[k].ifd == ifd) by {
            assert(before[k] == fields[k]);
        }
        lemma_last_gps_field(before, number, ifd, r);
    }
}

proof fn lemma_letter_is_read(field: FieldView, values: Seq<Seq<u8>>, letter: char)
    requires
        field.value == ValueView::Ascii(values),
        values.len() > 0,
        values[0] == encode_utf8(seq![letter]),
    ensures
        reference_text(field) == Some(seq![letter]),
{
    encode_utf8_valid_utf8(seq![letter]);
    encode_utf8_decode_utf8(seq![letter]);
}

/// A coordinate has the degrees, minutes and seconds of its field. It is negative
/// where the field that tells its side says `S` or `W`, and not where that says
/// anything else. `r` is the place of that field, the last of its kind.
pub proof fn law_hemispheres_are_read(
    fields: Seq<FieldView>,
    field: FieldView,
    values: Seq<(u32, u32)>,
    r: int,
    sides: Seq<Seq<u8>>,
    letter: char,
)
    requires
        field.context == TagContext::Gps,
        field.number == 0x0002 || field.number == 0x0004,
        field.value == ValueView::Rational(values),
        values.len() >= 3,
        0 <= r < fields.len(),
        fields[r].context == TagContext::Gps,
        fields[r].number == field.number - 1,
        fields[r].ifd == field.ifd,
        fields[r].value == ValueView::Ascii(sides),
        sides.len() > 0,
        sides[0] == encode_utf8(seq![letter]),
        forall|k: int|
            r < k < fields.len() ==> !((#[trigger] fields[k]).context == TagContext::Gps
                && fields[k].number == field.number - 1 && fields[k].ifd == field.ifd),
    ensures
        coordinate_of(fields, field) == Some(
            GpsReading {
                degrees: values[0],
                minutes: values[1],
                seconds: values[2],
                negative: letter == 'S' || letter == 'W',
            },
        ),
{
    lemma_last_gps_field(fields, (field.number - 1) as u16, field.ifd, r);
    lemma_letter_is_read(fields[r], sides, letter);
    reveal_strlit("S");
    reveal_strlit("W");
    assert("S"@ =~= seq!['S']);
    assert("W"@ =~= seq!['W']);
    assert(seq![letter][0] == letter);
    assert(seq!['S'][0] == 'S');
    assert(seq!['W'][0] == 'W');
}

/// A coordinate without a field that tells its side is not negative.
pub proof fn law_coordinates_without_a_side_are_positive(
    fields: Seq<FieldView>,
    field: FieldView,
    values: Seq<(u32, u32)>,
)
    requires
        field.context == TagContext::Gps,
        field.number == 0x0002 || field.number == 0x0004,
        field.value == ValueView::Rational(values),
        values.len() >= 3,
        forall|k: int|
            0 <= k < fields.len() ==> !((#[trigger] fields[k]).context == TagContext::Gps
                && fields[k].number == field.number - 1),
    ensures
        coordinate_of(fields, field) is Some,
        !coordinate_of(fields, field)->Some_0.negative,
{
    lemma_no_gps_field(fields, (field.number - 1) as u16, field.ifd);
}

proof fn lemma_no_gps_field(fields: Seq<FieldView>, number: u16, ifd: u16)
    requires
        forall|k: int|
            0 <= k < fields.len() ==> !((#[trigger] fields[k]).context == TagContext::Gps
                && fields[k].number == number),
    ensures
        gps_field(fields, number, ifd) is None,
    decreases fields.len(),
{
    if fields.len() > 0 {
        let before = fields.drop_last();
        assert(fields[fields.len() - 1] == fields.last());
        assert forall|k: int| 0 <= k < before.len() implies !((#[trigger] before[k]).context
            == TagContext::Gps && before[k].number == number) by {
            assert(before[k] == fields[k]);
        }
        lemma_no_gps_field(before, number, ifd);
    }
}

/// No other field gives a coordinate, and none with fewer than three quotients.
pub proof fn law_other_fields_give_no_coordinate(fields: Seq<FieldView>, field: FieldView)
    ensures
        coordinate_of(fields, field) is Some ==> field.context == TagContext::Gps && (field.number
            == 0x0002 || field.number == 0x0004) && field.value is Rational
            && field.value->Rational_0.len() >= 3,
{
}

// ---------------------------------------------------------------------------
// Writing and reading
// ---------------------------------------------------------------------------
/// Whether a field of the first image shows a tag on the position.
pub open spec fn shows(field: FieldView, tag: WritableView) -> bool {
    &&& field.context == TagContext::Gps
    &&& field.ifd == 0
    &&& match tag {
        WritableView::Text(TextTag::GpsLatitudeRef, text) => field.number == 0x0001 && field.value
            == ValueView::Ascii(seq![encode_utf8(text)]),
        WritableView::Ratios(RatioTag::GpsLatitude, values) => field.number == 0x0002
            && field.value == ValueView::Rational(pairs(values)),
        WritableView::Text(TextTag::GpsLongitudeRef, text) => field.number == 0x0003 && field.value
            == ValueView::Ascii(seq![encode_utf8(text)]),
        WritableView::Ratios(RatioTag::GpsLongitude, values) => field.number == 0x0004
            && field.value == ValueView::Rational(pairs(values)),
        _ => field.number != 0x0001 && field.number != 0x0002 && field.number != 0x0003
            && field.number != 0x0004,
    }
}

/// Quotients as they are read.
pub open spec fn pairs(values: Seq<UnsignedRatio>) -> Seq<(u32, u32)> {
    values.map_values(|value: UnsignedRatio| (value.numerator, value.denominator))
}

/// Whether the fields on the position are those of some tags.
pub open spec fn show_all(fields: Seq<FieldView>, tags: Seq<WritableView>) -> bool {
    &&& forall|k: int|
        0 <= k < tags.len() ==> exists|i: int|
            0 <= i < fields.len() && shows(fields[i], #[trigger] tags[k])
    &&& forall|i: int|
        0 <= i < fields.len() && (#[trigger] fields[i]).context == TagContext::Gps ==> exists|k: int|
            0 <= k < tags.len() && shows(fields[i], #[trigger] tags[k])
}

proof fn lemma_first_gps_field(fields: Seq<FieldView>, number: u16)
    ensures
        match first_gps_field(fields, number) {
            Some(found) => exists|i: int|
                0 <= i < fields.len() && #[trigger] fields[i] == found && found.context
                    == TagContext::Gps && found.number == number,
            None => forall|i: int|
                0 <= i < fields.len() ==> !((#[trigger] fields[i]).context == TagContext::Gps
                    && fields[i].number == number),
        },
    decreases fields.len(),
{
    if fields.len() > 0 {
        let rest = fields.skip(1);
        if fields[0].context == TagContext::Gps && fields[0].number == number {
            assert(first_gps_field(fields, number) == Some(fields[0]));
        } else {
            lemma_first_gps_field(rest, number);
            match first_gps_field(rest, number) {
                Some(found) => {
                    let i = choose|i: int|
                        0 <= i < rest.len() && #[trigger] rest[i] == found && found.context
                            == TagContext::Gps && found.number == number;
                    assert(fields[i + 1] == found);
                },
                None => {
                    assert forall|i: int| 0 <= i < fields.len() implies !((
                    #[trigger] fields[i]).context == TagContext::Gps && fields[i].number
                        == number) by {
                        if i > 0 {
                            assert(rest[i - 1] == fields[i]);
                        }
                    }
                },
            }
        }
    }
}

proof fn lemma_found_gps_field(fields: Seq<FieldView>, number: u16, ifd: u16)
    ensures
        match gps_field(fields, number, ifd) {
            Some(found) => exists|i: int|
                0 <= i < fields.len() && #[trigger] fields[i] == found && found.context
                    == TagContext::Gps && found.number == number && found.ifd == ifd,
            None => forall|i: int|
                0 <= i < fields.len() ==> !((#[trigger] fields[i]).context == TagContext::Gps
                    && fields[i].number == number && fields[i].ifd == ifd),
        },
    decreases fields.len(),
{
    if fields.len() > 0 {
        let before = fields.drop_last();
        let last = fields.last();
        assert(fields[fields.len() - 1] == last);
        if !(last.context == TagContext::Gps && last.number == number && last.ifd == ifd) {
            lemma_found_gps_field(before, number, ifd);
            match gps_field(before, number, ifd) {
                Some(found) => {
                    let i = choose|i: int|
                        0 <= i < before.len() && #[trigger] before[i] == found && found.context
                            == TagContext::Gps && found.number == number && found.ifd == ifd;
                    assert(fields[i] == found);
                },
                None => {
                    assert forall|i: int| 0 <= i < fields.len() implies !((
                    #[trigger] fields[i]).context == TagContext::Gps && fields[i].number == number
                        && fields[i].ifd == ifd) by {
                        if i < before.len() {
                            assert(before[i] == fields[i]);
                        }
                    }
                },
            }
        }
    }
}

proof fn lemma_position_tags(position: GpsPosition)
    ensures
        ({
            let tags = position_tags(position);
            &&& tags.len() >= 5
            &&& tags[0] == WritableView::Text(
                TextTag::GpsLatitudeRef,
                if position.south { "S"@ } else { "N"@ },
            )
            &&& tags[1] == WritableView::Ratios(RatioTag::GpsLatitude, position.latitude@)
            &&& tags[2] == WritableView::Text(
                TextTag::GpsLongitudeRef,
                if position.west { "W"@ } else { "E"@ },
            )
            &&& tags[3] == WritableView::Ratios(RatioTag::GpsLongitude, position.longitude@)
            &&& forall|k: int|
                4 <= k < tags.len() ==> match #[trigger] tags[k] {
                    WritableView::Text(tag, _) => tag == TextTag::GpsMapDatum,
                    WritableView::Ratios(tag, _) => tag == RatioTag::GpsAltitude,
                    _ => true,
                }
        }),
{
}

proof fn lemma_shown_field(position: GpsPosition, fields: Seq<FieldView>, i: int)
    requires
        show_all(fields, position_tags(position)),
        0 <= i < fields.len(),
        fields[i].context == TagContext::Gps,
    ensures
        fields[i].ifd == 0,
        fields[i].number == 0x0001 ==> fields[i].value == ValueView::Ascii(
            seq![encode_utf8(if position.south { "S"@ } else { "N"@ })],
        ),
        fields[i].number == 0x0002 ==> fields[i].value == ValueView::Rational(
            pairs(position.latitude@),
        ),
        fields[i].number == 0x0003 ==> fields[i].value == ValueView::Ascii(
            seq![encode_utf8(if position.west { "W"@ } else { "E"@ })],
        ),
        fields[i].number == 0x0004 ==> fields[i].value == ValueView::Rational(
            pairs(position.longitude@),
        ),
{
    let tags = position_tags(position);
    lemma_position_tags(position);
    let k = choose|k: int| 0 <= k < tags.len() && shows(fields[i], #[trigger] tags[k]);
    if k >= 4 {
        assert(match tags[k] {
            WritableView::Text(tag, _) => tag == TextTag::GpsMapDatum,
            WritableView::Ratios(tag, _) => tag == RatioTag::GpsAltitude,
            _ => true,
        });
    } else {
        assert(k == 0 || k == 1 || k == 2 || k == 3);
    }
}

proof fn lemma_position_is_shown(position: GpsPosition, fields: Seq<FieldView>)
    requires
        show_all(fields, position_tags(position)),
    ensures
        ({
            let latitude = first_gps_field(fields, 0x0002);
            let longitude = first_gps_field(fields, 0x0004);
            let latitude_side = gps_field(fields, 0x0001, 0);
            let longitude_side = gps_field(fields, 0x0003, 0);
            &&& latitude is Some && longitude is Some
            &&& latitude_side is Some && longitude_side is Some
            &&& latitude->Some_0.context == TagContext::Gps
            &&& longitude->Some_0.context == TagContext::Gps
            &&& latitude->Some_0.number == 0x0002
            &&& longitude->Some_0.number == 0x0004
            &&& latitude->Some_0.ifd == 0
            &&& longitude->Some_0.ifd == 0
            &&& latitude->Some_0.value == ValueView::Rational(pairs(position.latitude@))
            &&& longitude->Some_0.value == ValueView::Rational(pairs(position.longitude@))
            &&& latitude_side->Some_0.value == ValueView::Ascii(
                seq![encode_utf8(if position.south { "S"@ } else { "N"@ })],
            )
            &&& longitude_side->Some_0.value == ValueView::Ascii(
                seq![encode_utf8(if position.west { "W"@ } else { "E"@ })],
            )
        }),
{
    let tags = position_tags(position);
    lemma_position_tags(position);
    let i0 = choose|i: int| 0 <= i < fields.len() && shows(fields[i], tags[0]);
    let i1 = choose|i: int| 0 <= i < fields.len() && shows(fields[i], tags[1]);
    let i2 = choose|i: int| 0 <= i < fields.len() && shows(fields[i], tags[2]);
    let i3 = choose|i: int| 0 <= i < fields.len() && shows(fields[i], tags[3]);
    assert(fields[i0].number == 0x0001 && fields[i0].context == TagContext::Gps);
    assert(fields[i1].number == 0x0002 && fields[i1].context == TagContext::Gps);
    assert(fields[i2].number == 0x0003 && fields[i2].context == TagContext::Gps);
    assert(fields[i3].number == 0x0004 && fields[i3].context == TagContext::Gps);
    lemma_first_gps_field(fields, 0x0002);
    lemma_first_gps_field(fields, 0x0004);
    lemma_found_gps_field(fields, 0x0001, 0);
    lemma_found_gps_field(fields, 0x0003, 0);
    let latitude = first_gps_field(fields, 0x0002)->Some_0;
    let longitude = first_gps_field(fields, 0x0004)->Some_0;
    let latitude_side = gps_field(fields, 0x0001, 0)->Some_0;
    let longitude_side = gps_field(fields, 0x0003, 0)->Some_0;
    let a = choose|i: int| 0 <= i < fields.len() && #[trigger] fields[i] == latitude;
    let b = choose|i: int| 0 <= i < fields.len() && #[trigger] fields[i] == longitude;
    let c = choose|i: int| 0 <= i < fields.len() && #[trigger] fields[i] == latitude_side;
    let d = choose|i: int| 0 <= i < fields.len() && #[trigger] fields[i] == longitude_side;
    lemma_shown_field(position, fields, a);
    lemma_shown_field(position, fields, b);
    lemma_shown_field(position, fields, c);
    lemma_shown_field(position, fields, d);
}

/// A position that is written is read back: with the same distances, to the south
/// where it was to the south, and to the west where it was to the west.
pub proof fn law_written_positions_are_read_back(position: GpsPosition, fields: Seq<FieldView>)
    requires
        position.latitude@.len() == 3,
        position.longitude@.len() == 3,
        show_all(fields, position_tags(position)),
    ensures
        position_of(fields) == Some(
            (
                GpsReading {
                    degrees: pairs(position.latitude@)[0],
                    minutes: pairs(position.latitude@)[1],
                    seconds: pairs(position.latitude@)[2],
                    negative: position.south,
                },
                GpsReading {
                    degrees: pairs(position.longitude@)[0],
                    minutes: pairs(position.longitude@)[1],
                    seconds: pairs(position.longitude@)[2],
                    negative: position.west,
                },
            ),
        ),
{
    lemma_position_is_shown(position, fields);
    let south = if position.south { "S"@ } else { "N"@ };
    let west = if position.west { "W"@ } else { "E"@ };
    reveal_strlit("S");
    reveal_strlit("N");
    reveal_strlit("W");
    reveal_strlit("E");
    assert("S"@[0] == 'S' && "N"@[0] == 'N' && "W"@[0] == 'W' && "E"@[0] == 'E');
    encode_utf8_valid_utf8(south);
    encode_utf8_decode_utf8(south);
    encode_utf8_valid_utf8(west);
    encode_utf8_decode_utf8(west);
    assert(reference_text(gps_field(fields, 0x0001, 0)->Some_0) == Some(south));
    assert(reference_text(gps_field(fields, 0x0003, 0)->Some_0) == Some(west));
}

} // verus!
