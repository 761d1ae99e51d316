//! What holds of every value that is turned into a tag.

use crate::convert::{
    all_digits, as_datetime, as_ratio, as_string, as_u16, as_u32, as_u8, clean_number,
    digits_value, exif_date, parsed_u32, tag_for, MeasuredView,
};
use crate::text::{
    decimal, ends_with, is_digit, starts_with, trim, trim_end, trim_end_text, trim_start,
    white_space,
};
use crate::writable::{tag_name, TextTag, UnsignedRatio, WritableView};
use crate::yaml::Yaml;
use vstd::prelude::*;
use vstd::utf8::*;

verus! {

// ---------------------------------------------------------------------------
// Dates
// ---------------------------------------------------------------------------
/// A date with a time is written with a colon for each dash, and with every other
/// character as it is and where it is.
pub proof fn law_dates_keep_all_but_their_dashes(text: Seq<char>)
    requires
        encode_utf8(text).len() != 10 || encode_utf8(text)[4] != 0x2d,
    ensures
        exif_date(text).len() == text.len(),
        forall|i: int|
            0 <= i < text.len() && text[i] == '-' ==> #[trigger] exif_date(text)[i] == ':',
        forall|i: int|
            0 <= i < text.len() && text[i] != '-' ==> #[trigger] exif_date(text)[i] == text[i],
{
}

proof fn lemma_encoding_is_no_shorter(text: Seq<char>)
    ensures
        encode_utf8(text).len() >= text.len(),
    decreases text.len(),
{
    if text.len() > 0 {
        lemma_encoding_is_no_shorter(text.drop_first());
    }
}

/// A text of more than ten characters is a date with a time: it is written with a
/// colon for each dash, and as it is otherwise, without the blanks around it.
pub proof fn law_times_of_dates_stay(text: Seq<char>)
    requires
        trim(text).len() > 10,
    ensures
        as_datetime(Yaml::Text(text)) is Some,
        as_datetime(Yaml::Text(text))->Some_0.len() == trim(text).len(),
        forall|i: int|
            0 <= i < trim(text).len() ==> #[trigger] as_datetime(Yaml::Text(text))->Some_0[i] == (
            if trim(text)[i] == '-' {
                ':'
            } else {
                trim(text)[i]
            }),
{
    lemma_encoding_is_no_shorter(trim(text));
    law_dates_keep_all_but_their_dashes(trim(text));
}

proof fn lemma_low_byte_is_a_char(text: Seq<char>, i: int)
    requires
        0 <= i < encode_utf8(text).len(),
        encode_utf8(text)[i] < 0x80,
    ensures
        exists|k: int| 0 <= k < text.len() && #[trigger] text[k] as u32 == encode_utf8(text)[i] as u32,
    decreases text.len(),
{
    let c = text[0] as u32;
    let first = encode_scalar(c);
    let rest = text.drop_first();
    char_is_scalar(text[0]);
    if i < first.len() {
        if has_width_1_encoding(c) {
            assert(leading_byte_width_1(c) as u32 == c) by (bit_vector)
                requires
                    has_width_1_encoding(c),
            ;
            assert(text[0] as u32 == encode_utf8(text)[i] as u32);
        } else {
            assert(leading_byte_width_2(c) >= 0x80) by (bit_vector);
            assert(leading_byte_width_3(c) >= 0x80) by (bit_vector);
            assert(leading_byte_width_4(c) >= 0x80) by (bit_vector);
            assert(last_continuation_byte(c) >= 0x80) by (bit_vector);
            assert(second_last_continuation_byte(c) >= 0x80) by (bit_vector);
            assert(third_last_continuation_byte(c) >= 0x80) by (bit_vector);
            assert(false);
        }
    } else {
        assert(encode_utf8(text)[i] == encode_utf8(rest)[i - first.len()]);
        lemma_low_byte_is_a_char(rest, i - first.len());
        let k = choose|k: int|
            0 <= k < rest.len() && #[trigger] rest[k] as u32 == encode_utf8(text)[i] as u32;
        assert(text[k + 1] == rest[k]);
    }
}

/// A text without dashes is written as it is.
pub proof fn law_dates_without_dashes_stay(text: Seq<char>)
    requires
        !text.contains('-'),
    ensures
        exif_date(text) == text,
{
    if encode_utf8(text).len() == 10 && encode_utf8(text)[4] == 0x2d {
        lemma_low_byte_is_a_char(text, 4);
        let k = choose|k: int| 0 <= k < text.len() && #[trigger] text[k] as u32 == 0x2du32;
        char_u32_cast(text[k], 0x2du32);
        char_u32_cast('-', 0x2du32);
        assert(text[k] == '-');
    }
    assert(exif_date(text) =~= text);
}

proof fn lemma_ascii_part(text: Seq<char>, from: int, to: int)
    requires
        is_ascii_chars(text),
        0 <= from <= to <= text.len(),
    ensures
        encode_utf8(text).subrange(from, to) == encode_utf8(text.subrange(from, to)),
        decode_utf8(encode_utf8(text).subrange(from, to)) == text.subrange(from, to),
        valid_utf8(encode_utf8(text).subrange(from, to)),
{
    let part = text.subrange(from, to);
    is_ascii_chars_encode_utf8(text);
    is_ascii_chars_encode_utf8(part);
    assert(encode_utf8(text).subrange(from, to) =~= encode_utf8(part)) by {
        assert forall|i: int| 0 <= i < part.len() implies encode_utf8(text)[from + i]
            == encode_utf8(part)[i] by {
            assert(part[i] == text[from + i]);
        }
    }
    encode_utf8_decode_utf8(part);
    encode_utf8_valid_utf8(part);
}

proof fn lemma_ascii_boundary(text: Seq<char>, i: int)
    requires
        is_ascii_chars(text),
        0 <= i < text.len(),
    ensures
        is_char_boundary(encode_utf8(text), i),
{
    is_ascii_chars_encode_utf8(text);
    encode_utf8_valid_utf8(text);
    assert(text[i] as u8 == encode_utf8(text)[i]);
    is_char_boundary_iff_not_is_continuation_byte(encode_utf8(text), i);
}

/// A day alone, ten characters with a dash behind the year, is written with colons
/// and at midnight; its year, month and day are those of the text.
pub proof fn law_days_are_written_at_midnight(text: Seq<char>)
    requires
        is_ascii_chars(text),
        text.len() == 10,
        text[4] == '-',
    ensures
        exif_date(text).len() == 19,
        exif_date(text).subrange(0, 4) == text.subrange(0, 4),
        exif_date(text)[4] == ':',
        exif_date(text).subrange(5, 7) == text.subrange(5, 7),
        exif_date(text)[7] == ':',
        exif_date(text).subrange(8, 10) == text.subrange(8, 10),
        exif_date(text).subrange(10, 19) == seq![' ', '0', '0', ':', '0', '0', ':', '0', '0'],
{
    let bytes = encode_utf8(text);
    is_ascii_chars_encode_utf8(text);
    assert(bytes[4] == text[4] as u8);
    lemma_ascii_boundary(text, 4);
    let one = text.subrange(4, 10);
    let two = one.subrange(1, 6);
    let three = two.subrange(2, 5);
    lemma_ascii_part(text, 4, 10);
    lemma_ascii_boundary(one, 1);
    lemma_ascii_part(one, 1, 6);
    lemma_ascii_boundary(two, 2);
    lemma_ascii_part(two, 2, 5);
    lemma_ascii_boundary(three, 1);
    lemma_ascii_part(text, 0, 4);
    lemma_ascii_part(text, 5, 7);
    lemma_ascii_part(text, 8, 10);
    reveal_strlit(":");
    reveal_strlit(" 00:00:00");
    let r = exif_date(text);
    assert(r == text.subrange(0, 4) + ":"@ + text.subrange(5, 7) + ":"@ + text.subrange(8, 10)
        + " 00:00:00"@);
    assert(r.subrange(0, 4) =~= text.subrange(0, 4));
    assert(r.subrange(5, 7) =~= text.subrange(5, 7));
    assert(r.subrange(8, 10) =~= text.subrange(8, 10));
    assert(r.subrange(10, 19) =~= seq![' ', '0', '0', ':', '0', '0', ':', '0', '0']);
}

/// The tags for dates hold what the value is as a date, and nothing else does.
pub proof fn law_date_tags_hold_dates(value: Yaml, measured: MeasuredView)
    requires
        as_string(value) is Some,
    ensures
        tag_for("DateTimeOriginal"@, value, measured) == Some(
            WritableView::Text(TextTag::DateTimeOriginal, exif_date(as_string(value)->Some_0)),
        ),
        tag_for("CreateDate"@, value, measured) == Some(
            WritableView::Text(TextTag::CreateDate, exif_date(as_string(value)->Some_0)),
        ),
        tag_for("ModifyDate"@, value, measured) == Some(
            WritableView::Text(TextTag::ModifyDate, exif_date(as_string(value)->Some_0)),
        ),
{
    lemma_names_of_tags_differ();
}

/// The names of tags that can be written differ in length or in a letter.
proof fn lemma_names_of_tags_differ()
    ensures
        "Artist"@.len() == 6,
        "Photographer"@.len() == 12 && "Photographer"@[0] == 'P',
        "Copyright"@.len() == 9 && "Copyright"@[0] == 'C',
        "GPSLatitudeRef"@.len() == 14 && "GPSLatitudeRef"@[3] == 'L',
        "GPSLongitudeRef"@.len() == 15 && "GPSLongitudeRef"@[0] == 'G',
        "GPSMapDatum"@.len() == 11 && "GPSMapDatum"@[0] == 'G' && "GPSMapDatum"@[3] == 'M',
        "ImageDescription"@.len() == 16 && "ImageDescription"@[0] == 'I',
        "LensMake"@.len() == 8 && "LensMake"@[0] == 'L',
        "LensModel"@.len() == 9 && "LensModel"@[0] == 'L',
        "Make"@.len() == 4,
        "Model"@.len() == 5 && "Model"@[0] == 'M',
        "Software"@.len() == 8 && "Software"@[0] == 'S',
        "CreateDate"@.len() == 10 && "CreateDate"@[0] == 'C',
        "DateTimeOriginal"@.len() == 16 && "DateTimeOriginal"@[0] == 'D',
        "ModifyDate"@.len() == 10 && "ModifyDate"@[0] == 'M',
        "ExposureProgram"@.len() == 15 && "ExposureProgram"@[0] == 'E',
        "Flash"@.len() == 5 && "Flash"@[0] == 'F',
        "ISO"@.len() == 3,
        "ISOSpeedRatings"@.len() == 15 && "ISOSpeedRatings"@[0] == 'I',
        "LightSource"@.len() == 11 && "LightSource"@[0] == 'L',
        "MeteringMode"@.len() == 12 && "MeteringMode"@[0] == 'M',
        "Orientation"@.len() == 11 && "Orientation"@[0] == 'O',
        "WhiteBalance"@.len() == 12 && "WhiteBalance"@[0] == 'W',
        "ExposureTime"@.len() == 12 && "ExposureTime"@[0] == 'E',
        "FNumber"@.len() == 7,
        "FocalLength"@.len() == 11 && "FocalLength"@[0] == 'F',
        "GPSAltitude"@.len() == 11 && "GPSAltitude"@[0] == 'G' && "GPSAltitude"@[3] == 'A',
        "MaxApertureValue"@.len() == 16 && "MaxApertureValue"@[0] == 'M',
        "FileSource"@.len() == 10 && "FileSource"@[0] == 'F',
        "GPSAltitudeRef"@.len() == 14 && "GPSAltitudeRef"@[3] == 'A',
        "GPSLatitude"@.len() == 11 && "GPSLatitude"@[0] == 'G' && "GPSLatitude"@[3] == 'L',
        "GPSLongitude"@.len() == 12 && "GPSLongitude"@[0] == 'G',
        "ISOSpeed"@.len() == 8 && "ISOSpeed"@[0] == 'I',
        "$Location"@.len() == 9 && "$Location"@[0] == '$',
        "UserComment"@.len() == 11 && "UserComment"@[0] == 'U',
{
    reveal_strlit("Artist");
    reveal_strlit("Photographer");
    reveal_strlit("Copyright");
    reveal_strlit("GPSLatitudeRef");
    reveal_strlit("GPSLongitudeRef");
    reveal_strlit("GPSMapDatum");
    reveal_strlit("ImageDescription");
    reveal_strlit("LensMake");
    reveal_strlit("LensModel");
    reveal_strlit("Make");
    reveal_strlit("Model");
    reveal_strlit("Software");
    reveal_strlit("CreateDate");
    reveal_strlit("DateTimeOriginal");
    reveal_strlit("ModifyDate");
    reveal_strlit("ExposureProgram");
    reveal_strlit("Flash");
    reveal_strlit("ISO");
    reveal_strlit("ISOSpeedRatings");
    reveal_strlit("LightSource");
    reveal_strlit("MeteringMode");
    reveal_strlit("Orientation");
    reveal_strlit("WhiteBalance");
    reveal_strlit("ExposureTime");
    reveal_strlit("FNumber");
    reveal_strlit("FocalLength");
    reveal_strlit("GPSAltitude");
    reveal_strlit("MaxApertureValue");
    reveal_strlit("FileSource");
    reveal_strlit("GPSAltitudeRef");
    reveal_strlit("GPSLatitude");
    reveal_strlit("GPSLongitude");
    reveal_strlit("ISOSpeed");
    reveal_strlit("$Location");
    reveal_strlit("UserComment");
}


// ---------------------------------------------------------------------------
// Names
// ---------------------------------------------------------------------------
/// A tag is written under the name that the metadata file gives it. Two names stand
/// for another: the photographer is the artist, and the speed ratings are the speed.
pub proof fn law_tags_go_by_their_names(name: Seq<char>, value: Yaml, measured: MeasuredView)
    requires
        tag_for(name, value, measured) is Some,
    ensures
        tag_name(tag_for(name, value, measured)->Some_0) == Some(
            if name == "Photographer"@ {
                "Artist"@
            } else if name == "ISOSpeedRatings"@ {
                "ISO"@
            } else {
                name
            },
        ),
{
    lemma_names_of_tags_differ();
}

/// Two names for one tag write the same.
pub proof fn law_other_names_write_the_same(value: Yaml, measured: MeasuredView)
    ensures
        tag_for("Photographer"@, value, measured) == tag_for("Artist"@, value, measured),
        tag_for("ISOSpeedRatings"@, value, measured) == tag_for("ISO"@, value, measured),
{
    lemma_names_of_tags_differ();
}

/// A tag for a text holds the text without the blanks around it, the digits of a
/// number, or the word for a truth value. It is not written for anything else.
pub proof fn law_text_tags_hold_texts(name: Seq<char>, value: Yaml, measured: MeasuredView)
    requires
        name == "Artist"@ || name == "Photographer"@ || name == "Copyright"@ || name
            == "GPSLatitudeRef"@ || name == "GPSLongitudeRef"@ || name == "GPSMapDatum"@ || name
            == "ImageDescription"@ || name == "LensMake"@ || name == "LensModel"@ || name
            == "Make"@ || name == "Model"@ || name == "Software"@,
    ensures
        match value {
            Yaml::Text(text) => if trim(text).len() > 0 {
                tag_for(name, value, measured) matches Some(WritableView::Text(_, written))
                    && written == trim(text)
            } else {
                tag_for(name, value, measured) is None
            },
            Yaml::Number(text, _, _) => tag_for(name, value, measured) matches Some(
                WritableView::Text(_, written),
            ) && written == text,
            Yaml::Bool(truth) => tag_for(name, value, measured) matches Some(
                WritableView::Text(_, written),
            ) && written == (if truth {
                "true"@
            } else {
                "false"@
            }),
            _ => tag_for(name, value, measured) is None,
        },
{
    lemma_names_of_tags_differ();
}

// ---------------------------------------------------------------------------
// Whole numbers
// ---------------------------------------------------------------------------
/// A whole number is written as it is where the tag has room for it, and not at all
/// where it has not.
pub proof fn law_whole_numbers_are_written_as_they_are(
    name: Seq<char>,
    text: Seq<char>,
    signed: Option<i64>,
    n: u64,
    measured: MeasuredView,
)
    ensures
        name == "ExposureProgram"@ || name == "Flash"@ || name == "ISO"@ || name
            == "ISOSpeedRatings"@ || name == "LightSource"@ || name == "MeteringMode"@ || name
            == "Orientation"@ || name == "WhiteBalance"@ ==> {
            let tag = tag_for(name, Yaml::Number(text, signed, Some(n)), measured);
            if n <= 65535 {
                tag matches Some(WritableView::Short(_, written)) && written == n
            } else {
                tag is None
            }
        },
        name == "FileSource"@ || name == "GPSAltitudeRef"@ ==> {
            let tag = tag_for(name, Yaml::Number(text, signed, Some(n)), measured);
            if n <= 255 {
                tag matches Some(WritableView::Bytes(_, written)) && written.len() == 1
                    && written[0] == n
            } else {
                tag is None
            }
        },
        name == "ISOSpeed"@ ==> {
            let tag = tag_for(name, Yaml::Number(text, signed, Some(n)), measured);
            if n <= 0xffff_ffff {
                tag matches Some(WritableView::IsoSpeed(written)) && written == n
            } else {
                tag is None
            }
        },
{
    lemma_names_of_tags_differ();
}

/// The digits of a number are read as that number, where it fits 32 bits.
pub proof fn law_digits_are_read_as_their_number(n: nat)
    ensures
        parsed_u32(decimal(n)) == (if n <= 0xffff_ffff {
            Some(n as u32)
        } else {
            None
        }),
        parsed_u32(seq!['+'] + decimal(n)) == parsed_u32(decimal(n)),
{
    lemma_decimal(n);
    assert((seq!['+'] + decimal(n)).skip(1) =~= decimal(n));
}

proof fn lemma_decimal(n: nat)
    ensures
        decimal(n).len() > 0,
        all_digits(decimal(n)),
        digits_value(decimal(n)) == n,
    decreases n,
{
    reveal_with_fuel(digits_value, 2);
    if n >= 10 {
        lemma_decimal(n / 10);
        let before = decimal(n / 10);
        let all = decimal(n);
        assert(all.drop_last() =~= before);
        assert forall|i: int| 0 <= i < all.len() implies is_digit(#[trigger] all[i]) by {
            if i < before.len() {
                assert(all[i] == before[i]);
            }
        }
    } else {
        assert(decimal(n).drop_last() =~= Seq::<char>::empty());
    }
}

/// One digit more makes a number ten times as large, and adds the digit.
pub proof fn law_digits_add_up(text: Seq<char>, n: u32, c: char)
    requires
        parsed_u32(text) == Some(n),
        '0' <= c <= '9',
    ensures
        parsed_u32(text.push(c)) == ({
            let more = 10 * n + (c as u32 - '0' as u32);
            if more <= 0xffff_ffff {
                Some(more as u32)
            } else {
                None
            }
        }),
{
    let longer = text.push(c);
    if text[0] == '+' {
        assert(longer.skip(1) =~= text.skip(1).push(c));
        assert(longer.skip(1).drop_last() =~= text.skip(1));
        assert forall|i: int| 0 <= i < longer.skip(1).len() implies is_digit(
            #[trigger] longer.skip(1)[i],
        ) by {
            if i < text.skip(1).len() {
                assert(longer.skip(1)[i] == text.skip(1)[i]);
            }
        }
    } else {
        assert(longer.drop_last() =~= text);
        assert forall|i: int| 0 <= i < longer.len() implies is_digit(#[trigger] longer[i]) by {
            if i < text.len() {
                assert(longer[i] == text[i]);
            }
        }
    }
}

/// Nothing but digits, behind a plus sign or not, is read as a number.
pub proof fn law_numbers_are_digits(text: Seq<char>, i: int)
    requires
        parsed_u32(text) is Some,
        0 <= i < text.len(),
    ensures
        '0' as u32 <= text[i] as u32 <= '9' as u32 || (i == 0 && text[i] == '+' && text.len() > 1),
{
    if text[0] == '+' {
        if i > 0 {
            assert(text.skip(1)[i - 1] == text[i]);
        }
    }
}

/// Whether a text starts and ends with a digit.
pub open spec fn is_figure(text: Seq<char>) -> bool {
    &&& text.len() > 0
    &&& '0' as u32 <= text[0] as u32 <= '9' as u32
    &&& '0' as u32 <= text.last() as u32 <= '9' as u32
}

proof fn lemma_figure_stays_trimmed(text: Seq<char>)
    requires
        text.len() > 0,
        !white_space(text[0]),
        !white_space(text.last()),
    ensures
        trim(text) == text,
{
}

proof fn lemma_figure_is_clean(text: Seq<char>)
    requires
        is_figure(text),
    ensures
        trim(text) == text,
        !starts_with(text, "f/"@),
        !starts_with(text, "F/"@),
        trim_end_text(text, "mm"@) == text,
        trim_end_text(text, "MM"@) == text,
{
    reveal_strlit("f/");
    reveal_strlit("F/");
    reveal_strlit("mm");
    reveal_strlit("MM");
    lemma_figure_stays_trimmed(text);
    if starts_with(text, "f/"@) {
        assert(text.subrange(0, 2)[0] == 'f');
    }
    if starts_with(text, "F/"@) {
        assert(text.subrange(0, 2)[0] == 'F');
    }
    if ends_with(text, "mm"@) {
        assert(text.subrange(text.len() - 2, text.len() as int)[1] == 'm');
    }
    if ends_with(text, "MM"@) {
        assert(text.subrange(text.len() - 2, text.len() as int)[1] == 'M');
    }
}

/// The sign of an aperture and the unit of a length are no part of a number.
pub proof fn law_numbers_lose_signs_and_units(text: Seq<char>)
    requires
        is_figure(text),
    ensures
        clean_number(text) == text,
        clean_number("f/"@ + text) == text,
        clean_number("F/"@ + text) == text,
        clean_number(text + "mm"@) == text,
        clean_number(text + "MM"@) == text,
        clean_number(text + " mm"@) == text,
{
    reveal_strlit("f/");
    reveal_strlit("F/");
    reveal_strlit("mm");
    reveal_strlit("MM");
    reveal_strlit(" mm");
    lemma_figure_is_clean(text);
    assert(clean_number(text) == text);
    let a = "f/"@ + text;
    lemma_figure_stays_trimmed(a);
    assert(a.subrange(0, 2) =~= "f/"@);
    assert(a.skip(2) =~= text);
    let b = "F/"@ + text;
    lemma_figure_stays_trimmed(b);
    assert(b.subrange(0, 2) =~= "F/"@);
    assert(b.subrange(0, 2)[0] == 'F');
    assert(!starts_with(b, "f/"@));
    assert(b.skip(2) =~= text);
    let c = text + "mm"@;
    lemma_figure_stays_trimmed(c);
    lemma_no_sign(text, c);
    assert(c.subrange(c.len() - 2, c.len() as int) =~= "mm"@);
    assert(c.take(c.len() - 2) =~= text);
    assert(trim_end_text(c, "mm"@) == text);
    let d = text + "MM"@;
    lemma_figure_stays_trimmed(d);
    lemma_no_sign(text, d);
    assert(d.subrange(d.len() - 2, d.len() as int)[1] == 'M');
    assert(trim_end_text(d, "mm"@) == d);
    assert(d.subrange(d.len() - 2, d.len() as int) =~= "MM"@);
    assert(d.take(d.len() - 2) =~= text);
    assert(trim_end_text(d, "MM"@) == text);
    let e = text + " mm"@;
    let f = text.push(' ');
    lemma_figure_stays_trimmed(e);
    lemma_no_sign(text, e);
    assert(e.subrange(e.len() - 2, e.len() as int) =~= "mm"@);
    assert(e.take(e.len() - 2) =~= f);
    if ends_with(f, "mm"@) {
        assert(f.subrange(f.len() - 2, f.len() as int)[1] == 'm');
    }
    if ends_with(f, "MM"@) {
        assert(f.subrange(f.len() - 2, f.len() as int)[1] == 'M');
    }
    assert(trim_end_text(e, "mm"@) == trim_end_text(f, "mm"@));
    assert(trim_end_text(f, "mm"@) == f);
    assert(trim_end_text(f, "MM"@) == f);
    assert(trim_start(f) == f);
    assert(f.take(f.len() - 1) =~= text);
    assert(trim_end(f) == trim_end(text));
    assert(trim_end(text) == text);
}

proof fn lemma_no_sign(text: Seq<char>, longer: Seq<char>)
    requires
        is_figure(text),
        longer.len() > text.len(),
        longer[0] == text[0],
    ensures
        !starts_with(longer, "f/"@),
        !starts_with(longer, "F/"@),
{
    reveal_strlit("f/");
    reveal_strlit("F/");
    if starts_with(longer, "f/"@) {
        assert(longer.subrange(0, 2)[0] == 'f');
    }
    if starts_with(longer, "F/"@) {
        assert(longer.subrange(0, 2)[0] == 'F');
    }
}

proof fn lemma_decimal_is_figure(n: nat)
    ensures
        is_figure(decimal(n)),
        !decimal(n).contains('/'),
{
    lemma_decimal(n);
    assert(is_digit(decimal(n)[0]));
    assert(is_digit(decimal(n)[decimal(n).len() - 1]));
    if decimal(n).contains('/') {
        let i = choose|i: int| 0 <= i < decimal(n).len() && decimal(n)[i] == '/';
        assert(is_digit(decimal(n)[i]));
    }
}

/// The digits of a number in a text are written as the number is.
pub proof fn law_digits_count_as_numbers(
    n: u64,
    text: Seq<char>,
    signed: Option<i64>,
)
    ensures
        as_u32(Yaml::Text(decimal(n as nat))) == as_u32(Yaml::Number(text, signed, Some(n))),
        as_u16(Yaml::Text(decimal(n as nat))) == as_u16(Yaml::Number(text, signed, Some(n))),
        as_u8(Yaml::Text(decimal(n as nat))) == as_u8(Yaml::Number(text, signed, Some(n))),
{
    lemma_decimal_is_figure(n as nat);
    law_numbers_lose_signs_and_units(decimal(n as nat));
    law_digits_are_read_as_their_number(n as nat);
}

// ---------------------------------------------------------------------------
// Quotients
// ---------------------------------------------------------------------------
/// Two numbers with a slash between them are written as their quotient, as they
/// stand; not where the second is zero, or one of them does not fit.
pub proof fn law_fractions_are_written_as_they_stand(
    above: nat,
    below: nat,
    measured: Option<UnsignedRatio>,
)
    ensures
        as_ratio(Yaml::Text(decimal(above) + seq!['/'] + decimal(below)), measured) == (if below
            != 0 && above <= 0xffff_ffff && below <= 0xffff_ffff {
            Some(UnsignedRatio { numerator: above as u32, denominator: below as u32 })
        } else {
            None
        }),
{
    let a = decimal(above);
    let b = decimal(below);
    let text = a + seq!['/'] + b;
    lemma_decimal_is_figure(above);
    lemma_decimal_is_figure(below);
    assert(text[0] == a[0] && text.last() == b.last());
    law_numbers_lose_signs_and_units(text);
    law_numbers_lose_signs_and_units(a);
    law_numbers_lose_signs_and_units(b);
    law_digits_are_read_as_their_number(above);
    law_digits_are_read_as_their_number(below);
    assert(text[a.len() as int] == '/');
    assert(text.contains('/'));
    text.index_of_first_ensures('/');
    let i = text.index_of_first('/')->Some_0;
    if i < a.len() {
        assert(a[i] == '/');
        assert(a.contains('/'));
    }
    assert(i == a.len());
    assert(text.take(i) =~= a);
    assert(text.skip(i + 1) =~= b);
}

/// A value without a slash is written as it was measured.
pub proof fn law_plain_values_are_written_as_measured(
    text: Seq<char>,
    measured: Option<UnsignedRatio>,
)
    requires
        is_figure(text),
        !text.contains('/'),
    ensures
        as_ratio(Yaml::Text(text), measured) == measured,
        as_ratio(Yaml::Text("f/"@ + text), measured) == measured,
        as_ratio(Yaml::Text(text + "mm"@), measured) == measured,
{
    law_numbers_lose_signs_and_units(text);
}

/// The tags for quotients hold the quotient of the value, and those for degrees the
/// degrees; neither is written for a value that has none.
pub proof fn law_quotient_tags_hold_quotients(
    name: Seq<char>,
    value: Yaml,
    measured: MeasuredView,
)
    ensures
        name == "ExposureTime"@ || name == "FNumber"@ || name == "FocalLength"@ || name
            == "GPSAltitude"@ || name == "MaxApertureValue"@ ==> match as_ratio(
            value,
            measured.ratio,
        ) {
            Some(ratio) => tag_for(name, value, measured) matches Some(
                WritableView::Ratios(_, written),
            ) && written == seq![ratio],
            None => tag_for(name, value, measured) is None,
        },
        name == "GPSLatitude"@ || name == "GPSLongitude"@ ==> match measured.degrees {
            Some(degrees) => tag_for(name, value, measured) matches Some(
                WritableView::Ratios(_, written),
            ) && written == degrees,
            None => tag_for(name, value, measured) is None,
        },
{
    lemma_names_of_tags_differ();
}

} // verus!
