//! From the values of a metadata file to the tags that are written.

use crate::check::{location_name, location_name_from_yaml, unknown_location_text};
use crate::check::unknown_location_warning;
use crate::text::{
    chars_of, is_digit, is_digit_char, replace_char, same, split_once, starts_with, text_option,
    text_replace_char, text_split_once, text_strip_prefix, text_trim, text_trim_end_text, trim,
    trim_end_text,
};
use crate::writable::{
    tag_views, ByteTag, RatioTag, ShortTag, TextTag, UnsignedRatio, WritableTag, WritableView,
};
use crate::yaml::{bool_text, yaml_contents, yaml_shape, Yaml, YamlShape};
use serde_yaml::Value;
use vstd::prelude::*;
use vstd::string::*;
use vstd::utf8::*;

verus! {

/// What a value comes to that is read as a number: nothing where it is none.
/// Numbers are rounded to quotients here, so that no more precise ones are
/// needed further on.
#[derive(Debug)]
pub struct Measured {
    /// The number, as millionths.
    pub ratio: Option<UnsignedRatio>,
    /// The size of the number, as degrees, minutes and seconds.
    pub degrees: Option<Vec<UnsignedRatio>>,
}

pub struct MeasuredView {
    pub ratio: Option<UnsignedRatio>,
    pub degrees: Option<Seq<UnsignedRatio>>,
}

impl View for Measured {
    type V = MeasuredView;

    open spec fn view(&self) -> MeasuredView {
        MeasuredView {
            ratio: self.ratio,
            degrees: match self.degrees {
                Some(values) => Some(values@),
                None => None,
            },
        }
    }
}

// ---------------------------------------------------------------------------
// Texts
// ---------------------------------------------------------------------------
/// Whether a value is left out: null, or a blank text.
pub open spec fn is_blank(value: Yaml) -> bool {
    match value {
        Yaml::Null => true,
        Yaml::Text(text) => trim(text).len() == 0,
        _ => false,
    }
}

/// Whether a value is left out or blank.
pub fn is_blank_yaml_value(value: &Value) -> (r: bool)
    ensures
        r == is_blank(yaml_contents(*value)),
{
    match yaml_shape(value) {
        YamlShape::Null => true,
        YamlShape::Text(text) => text_trim(text.as_str()).is_empty(),
        _ => false,
    }
}

/// A value read as a text.
pub open spec fn as_string(value: Yaml) -> Option<Seq<char>> {
    match value {
        Yaml::Text(text) => if trim(text).len() > 0 {
            Some(trim(text))
        } else {
            None
        },
        Yaml::Number(text, _, _) => Some(text),
        Yaml::Bool(value) => Some(
            if value {
                "true"@
            } else {
                "false"@
            },
        ),
        _ => None,
    }
}

/// A value as the text of a tag.
pub fn yaml_string(value: &Value) -> (r: Option<String>)
    ensures
        text_option(r) == as_string(yaml_contents(*value)),
{
    match yaml_shape(value) {
        YamlShape::Text(text) => {
            let trimmed = text_trim(text.as_str());
            if trimmed.is_empty() {
                None
            } else {
                Some(trimmed.to_owned())
            }
        },
        YamlShape::Number(number) => Some(number.text),
        YamlShape::Bool(value) => Some(bool_text(value)),
        _ => None,
    }
}

/// Whether the bytes of a text are those of a date with dashes that can be cut
/// into year, month and day.
pub open spec fn is_dashed_date(bytes: Seq<u8>) -> bool {
    &&& bytes.len() == 10
    &&& bytes[4] == 0x2d
    &&& is_char_boundary(bytes, 4)
    &&& is_char_boundary(bytes.subrange(4, 10), 1)
    &&& is_char_boundary(bytes.subrange(4, 10).subrange(1, 6), 2)
    &&& is_char_boundary(bytes.subrange(4, 10).subrange(1, 6).subrange(2, 5), 1)
}

/// A date as EXIF writes it: with colons, and at midnight where it has no time.
pub open spec fn exif_date(text: Seq<char>) -> Seq<char> {
    let bytes = encode_utf8(text);
    if is_dashed_date(bytes) {
        decode_utf8(bytes.subrange(0, 4)) + ":"@ + decode_utf8(bytes.subrange(5, 7)) + ":"@
            + decode_utf8(bytes.subrange(8, 10)) + " 00:00:00"@
    } else {
        replace_char(text, '-', ':')
    }
}

proof fn lemma_decoded(text: Seq<char>, bytes: Seq<u8>)
    requires
        encode_utf8(text) == bytes,
    ensures
        decode_utf8(bytes) == text,
{
    encode_utf8_decode_utf8(text);
}

fn exif_date_text(text: &str) -> (r: String)
    ensures
        r@ == exif_date(text@),
{
    let ghost whole = encode_utf8(text@);
    let bytes = text.as_bytes();
    if bytes.len() == 10 && bytes[4] == 0x2d && text.is_char_boundary(4) {
        let (year, rest) = text.split_at(4);
        if rest.is_char_boundary(1) {
            let (dash, tail) = rest.split_at(1);
            if tail.is_char_boundary(2) {
                let (month, last) = tail.split_at(2);
                if last.is_char_boundary(1) {
                    let (second_dash, day) = last.split_at(1);
                    let mut out = year.to_owned();
                    out.push_str(":");
                    out.push_str(month);
                    out.push_str(":");
                    out.push_str(day);
                    out.push_str(" 00:00:00");
                    proof {
                        lemma_decoded(year@, whole.subrange(0, 4));
                        assert(whole.subrange(4, 10).subrange(1, 6).subrange(0, 2)
                            =~= whole.subrange(5, 7));
                        lemma_decoded(month@, whole.subrange(5, 7));
                        assert(whole.subrange(4, 10).subrange(1, 6).subrange(2, 5).subrange(1, 3)
                            =~= whole.subrange(8, 10));
                        lemma_decoded(day@, whole.subrange(8, 10));
                    }
                    return out;
                }
            }
        }
    }
    text_replace_char(text, '-', ':')
}

/// A value read as a date.
pub open spec fn as_datetime(value: Yaml) -> Option<Seq<char>> {
    match as_string(value) {
        Some(text) => Some(exif_date(text)),
        None => None,
    }
}

/// A value as a date and time of a tag.
pub fn yaml_datetime(value: &Value) -> (r: Option<String>)
    ensures
        text_option(r) == as_datetime(yaml_contents(*value)),
{
    match yaml_string(value) {
        Some(text) => Some(exif_date_text(text.as_str())),
        None => None,
    }
}

// ---------------------------------------------------------------------------
// Numbers
// ---------------------------------------------------------------------------
/// A number without blanks, the sign of an aperture and the unit of a length.
pub open spec fn clean_number(text: Seq<char>) -> Seq<char> {
    let trimmed = trim(text);
    let bare = if starts_with(trimmed, "f/"@) {
        trimmed.skip("f/"@.len() as int)
    } else if starts_with(trimmed, "F/"@) {
        trimmed.skip("F/"@.len() as int)
    } else {
        trimmed
    };
    trim(trim_end_text(trim_end_text(bare, "mm"@), "MM"@))
}

/// A number without the signs around it.
pub fn clean_numeric_string(text: &str) -> (r: String)
    ensures
        r@ == clean_number(text@),
{
    let trimmed = text_trim(text);
    let bare = match text_strip_prefix(trimmed, "f/") {
        Some(rest) => rest,
        None => match text_strip_prefix(trimmed, "F/") {
            Some(rest) => rest,
            None => trimmed,
        },
    };
    proof {
        reveal_strlit("mm");
        reveal_strlit("MM");
        assert("mm"@.len() == 2 && "MM"@.len() == 2);
    }
    text_trim(text_trim_end_text(text_trim_end_text(bare, "mm"), "MM")).to_owned()
}

/// Whether every character is a decimal digit.
pub open spec fn all_digits(s: Seq<char>) -> bool {
    forall|i: int| 0 <= i < s.len() ==> is_digit(#[trigger] s[i])
}

/// The number that decimal digits write.
pub open spec fn digits_value(s: Seq<char>) -> nat
    decreases s.len(),
{
    if s.len() == 0 {
        0
    } else {
        10 * digits_value(s.drop_last()) + (s.last() as u32 - '0' as u32) as nat
    }
}

/// A whole number with an optional plus sign, where it fits 32 bits.
pub open spec fn parsed_u32(s: Seq<char>) -> Option<u32> {
    let digits = if s.len() > 0 && s[0] == '+' {
        s.skip(1)
    } else {
        s
    };
    if digits.len() > 0 && all_digits(digits) && digits_value(digits) <= u32::MAX {
        Some(digits_value(digits) as u32)
    } else {
        None
    }
}

proof fn lemma_digits_grow(s: Seq<char>, i: int)
    requires
        0 <= i <= s.len(),
    ensures
        digits_value(s.take(i)) <= digits_value(s),
    decreases s.len() - i,
{
    if i == s.len() {
        assert(s.take(i) =~= s);
    } else {
        assert(s.take(i + 1).drop_last() =~= s.take(i));
        lemma_digits_grow(s, i + 1);
    }
}

/// The number that a text spells in decimal digits.
pub fn parse_u32(text: &str) -> (r: Option<u32>)
    ensures
        r == parsed_u32(text@),
{
    let cs = chars_of(text);
    let start: usize = if cs.len() > 0 && cs[0] == '+' {
        1
    } else {
        0
    };
    let ghost digits = if text@.len() > 0 && text@[0] == '+' {
        text@.skip(1)
    } else {
        text@
    };
    if cs.len() == start {
        return None;
    }
    let mut value: u64 = 0;
    let mut i: usize = start;
    proof {
        assert(digits.take(0) =~= Seq::<char>::empty());
    }
    while i < cs.len()
        invariant
            start <= i <= cs@.len(),
            start <= 1,
            cs@ == text@,
            digits.len() == cs@.len() - start,
            forall|k: int| 0 <= k < digits.len() ==> #[trigger] digits[k] == cs@[k + start],
            digits == (if text@.len() > 0 && text@[0] == '+' {
                text@.skip(1)
            } else {
                text@
            }),
            value <= u32::MAX,
            value == digits_value(digits.take(i - start)),
            forall|k: int| 0 <= k < i - start ==> is_digit(#[trigger] digits[k]),
        decreases cs@.len() - i,
    {
        let c = cs[i];
        proof {
            assert(digits[i - start] == c);
            assert(digits.take(i - start + 1).drop_last() =~= digits.take(i - start));
            assert(digits.take(i - start + 1).last() == c);
        }
        if !is_digit_char(c) {
            proof {
                assert(!all_digits(digits));
            }
            return None;
        }
        value = 10 * value + (c as u32 - '0' as u32) as u64;
        if value > u32::MAX as u64 {
            proof {
                lemma_digits_grow(digits, i - start + 1);
            }
            return None;
        }
        i += 1;
    }
    proof {
        assert(digits.take(digits.len() as int) =~= digits);
    }
    Some(value as u32)
}

/// A value read as a whole number of 32 bits.
pub open spec fn as_u32(value: Yaml) -> Option<u32> {
    match value {
        Yaml::Number(_, _, Some(n)) => if n <= u32::MAX {
            Some(n as u32)
        } else {
            None
        },
        Yaml::Text(text) => parsed_u32(clean_number(text)),
        Yaml::Bool(value) => Some(
            if value {
                1u32
            } else {
                0u32
            },
        ),
        _ => None,
    }
}

/// A value as a 32-bit number.
pub fn yaml_u32(value: &Value) -> (r: Option<u32>)
    ensures
        r == as_u32(yaml_contents(*value)),
{
    match yaml_shape(value) {
        YamlShape::Number(number) => match number.unsigned {
            Some(n) => if n <= u32::MAX as u64 {
                Some(n as u32)
            } else {
                None
            },
            None => None,
        },
        YamlShape::Text(text) => parse_u32(clean_numeric_string(text.as_str()).as_str()),
        YamlShape::Bool(value) => if value {
            Some(1)
        } else {
            Some(0)
        },
        _ => None,
    }
}

/// A value read as a whole number of 16 bits.
pub open spec fn as_u16(value: Yaml) -> Option<u16> {
    match as_u32(value) {
        Some(n) => if n <= u16::MAX {
            Some(n as u16)
        } else {
            None
        },
        None => None,
    }
}

/// A value as a 16-bit number.
pub fn yaml_u16(value: &Value) -> (r: Option<u16>)
    ensures
        r == as_u16(yaml_contents(*value)),
{
    match yaml_u32(value) {
        Some(n) => if n <= u16::MAX as u32 {
            Some(n as u16)
        } else {
            None
        },
        None => None,
    }
}

/// A value read as a whole number of 8 bits.
pub open spec fn as_u8(value: Yaml) -> Option<u8> {
    match as_u32(value) {
        Some(n) => if n <= u8::MAX {
            Some(n as u8)
        } else {
            None
        },
        None => None,
    }
}

/// A value as an 8-bit number.
pub fn yaml_u8(value: &Value) -> (r: Option<u8>)
    ensures
        r == as_u8(yaml_contents(*value)),
{
    match yaml_u32(value) {
        Some(n) => if n <= u8::MAX as u32 {
            Some(n as u8)
        } else {
            None
        },
        None => None,
    }
}

/// A text with a slash read as a quotient of whole numbers.
pub open spec fn as_fraction(above: Seq<char>, below: Seq<char>) -> Option<UnsignedRatio> {
    match (parsed_u32(clean_number(above)), parsed_u32(clean_number(below))) {
        (Some(numerator), Some(denominator)) => if denominator != 0 {
            Some(UnsignedRatio { numerator, denominator })
        } else {
            None
        },
        _ => None,
    }
}

/// A value read as a quotient: as it is written with a slash, else as it was
/// measured.
pub open spec fn as_ratio(value: Yaml, measured: Option<UnsignedRatio>) -> Option<UnsignedRatio> {
    match value {
        Yaml::Text(text) => match split_once(clean_number(text), '/') {
            Some((above, below)) => as_fraction(above, below),
            None => measured,
        },
        _ => measured,
    }
}

/// A value as a quotient.
pub fn yaml_rational(value: &Value, measured: &Measured) -> (r: Option<UnsignedRatio>)
    ensures
        r == as_ratio(yaml_contents(*value), measured@.ratio),
{
    match yaml_shape(value) {
        YamlShape::Text(text) => {
            let cleaned = clean_numeric_string(text.as_str());
            match text_split_once(cleaned.as_str(), '/') {
                Some((above, below)) => {
                    let numerator = match parse_u32(clean_numeric_string(above).as_str()) {
                        Some(n) => n,
                        None => return None,
                    };
                    let denominator = match parse_u32(clean_numeric_string(below).as_str()) {
                        Some(n) => n,
                        None => return None,
                    };
                    if denominator != 0 {
                        Some(UnsignedRatio { numerator, denominator })
                    } else {
                        None
                    }
                },
                None => measured.ratio,
            }
        },
        _ => measured.ratio,
    }
}

// ---------------------------------------------------------------------------
// Tags
// ---------------------------------------------------------------------------
/// The tags that hold a text.
pub open spec fn text_tag_named(name: Seq<char>) -> Option<TextTag> {
    if name == "Artist"@ || name == "Photographer"@ {
        Some(TextTag::Artist)
    } else if name == "Copyright"@ {
        Some(TextTag::Copyright)
    } else if name == "GPSLatitudeRef"@ {
        Some(TextTag::GpsLatitudeRef)
    } else if name == "GPSLongitudeRef"@ {
        Some(TextTag::GpsLongitudeRef)
    } else if name == "GPSMapDatum"@ {
        Some(TextTag::GpsMapDatum)
    } else if name == "ImageDescription"@ {
        Some(TextTag::ImageDescription)
    } else if name == "LensMake"@ {
        Some(TextTag::LensMake)
    } else if name == "LensModel"@ {
        Some(TextTag::LensModel)
    } else if name == "Make"@ {
        Some(TextTag::Make)
    } else if name == "Model"@ {
        Some(TextTag::Model)
    } else if name == "Software"@ {
        Some(TextTag::Software)
    } else {
        None
    }
}

fn find_text_tag(name: &str) -> (r: Option<TextTag>)
    ensures
        r == text_tag_named(name@),
{
    if same(name, "Artist") || same(name, "Photographer") {
        Some(TextTag::Artist)
    } else if same(name, "Copyright") {
        Some(TextTag::Copyright)
    } else if same(name, "GPSLatitudeRef") {
        Some(TextTag::GpsLatitudeRef)
    } else if same(name, "GPSLongitudeRef") {
        Some(TextTag::GpsLongitudeRef)
    } else if same(name, "GPSMapDatum") {
        Some(TextTag::GpsMapDatum)
    } else if same(name, "ImageDescription") {
        Some(TextTag::ImageDescription)
    } else if same(name, "LensMake") {
        Some(TextTag::LensMake)
    } else if same(name, "LensModel") {
        Some(TextTag::LensModel)
    } else if same(name, "Make") {
        Some(TextTag::Make)
    } else if same(name, "Model") {
        Some(TextTag::Model)
    } else if same(name, "Software") {
        Some(TextTag::Software)
    } else {
        None
    }
}

/// The tags that hold a date.
pub open spec fn date_tag_named(name: Seq<char>) -> Option<TextTag> {
    if name == "CreateDate"@ {
        Some(TextTag::CreateDate)
    } else if name == "DateTimeOriginal"@ {
        Some(TextTag::DateTimeOriginal)
    } else if name == "ModifyDate"@ {
        Some(TextTag::ModifyDate)
    } else {
        None
    }
}

fn find_date_tag(name: &str) -> (r: Option<TextTag>)
    ensures
        r == date_tag_named(name@),
{
    if same(name, "CreateDate") {
        Some(TextTag::CreateDate)
    } else if same(name, "DateTimeOriginal") {
        Some(TextTag::DateTimeOriginal)
    } else if same(name, "ModifyDate") {
        Some(TextTag::ModifyDate)
    } else {
        None
    }
}

/// The tags that hold a whole number of 16 bits.
pub open spec fn short_tag_named(name: Seq<char>) -> Option<ShortTag> {
    if name == "ExposureProgram"@ {
        Some(ShortTag::ExposureProgram)
    } else if name == "Flash"@ {
        Some(ShortTag::Flash)
    } else if name == "ISO"@ || name == "ISOSpeedRatings"@ {
        Some(ShortTag::Iso)
    } else if name == "LightSource"@ {
        Some(ShortTag::LightSource)
    } else if name == "MeteringMode"@ {
        Some(ShortTag::MeteringMode)
    } else if name == "Orientation"@ {
        Some(ShortTag::Orientation)
    } else if name == "WhiteBalance"@ {
        Some(ShortTag::WhiteBalance)
    } else {
        None
    }
}

fn find_short_tag(name: &str) -> (r: Option<ShortTag>)
    ensures
        r == short_tag_named(name@),
{
    if same(name, "ExposureProgram") {
        Some(ShortTag::ExposureProgram)
    } else if same(name, "Flash") {
        Some(ShortTag::Flash)
    } else if same(name, "ISO") || same(name, "ISOSpeedRatings") {
        Some(ShortTag::Iso)
    } else if same(name, "LightSource") {
        Some(ShortTag::LightSource)
    } else if same(name, "MeteringMode") {
        Some(ShortTag::MeteringMode)
    } else if same(name, "Orientation") {
        Some(ShortTag::Orientation)
    } else if same(name, "WhiteBalance") {
        Some(ShortTag::WhiteBalance)
    } else {
        None
    }
}

/// The tags that hold a quotient.
pub open spec fn ratio_tag_named(name: Seq<char>) -> Option<RatioTag> {
    if name == "ExposureTime"@ {
        Some(RatioTag::ExposureTime)
    } else if name == "FNumber"@ {
        Some(RatioTag::FNumber)
    } else if name == "FocalLength"@ {
        Some(RatioTag::FocalLength)
    } else if name == "GPSAltitude"@ {
        Some(RatioTag::GpsAltitude)
    } else if name == "MaxApertureValue"@ {
        Some(RatioTag::MaxApertureValue)
    } else {
        None
    }
}

fn find_ratio_tag(name: &str) -> (r: Option<RatioTag>)
    ensures
        r == ratio_tag_named(name@),
{
    if same(name, "ExposureTime") {
        Some(RatioTag::ExposureTime)
    } else if same(name, "FNumber") {
        Some(RatioTag::FNumber)
    } else if same(name, "FocalLength") {
        Some(RatioTag::FocalLength)
    } else if same(name, "GPSAltitude") {
        Some(RatioTag::GpsAltitude)
    } else if same(name, "MaxApertureValue") {
        Some(RatioTag::MaxApertureValue)
    } else {
        None
    }
}

/// The tag that is written for a name and a value. There is none where the name
/// is that of no tag that can be written, or the value does not fit it.
pub open spec fn tag_for(name: Seq<char>, value: Yaml, measured: MeasuredView) -> Option<
    WritableView,
> {
    if text_tag_named(name) is Some {
        match as_string(value) {
            Some(text) => Some(WritableView::Text(text_tag_named(name)->Some_0, text)),
            None => None,
        }
    } else if date_tag_named(name) is Some {
        match as_datetime(value) {
            Some(text) => Some(WritableView::Text(date_tag_named(name)->Some_0, text)),
            None => None,
        }
    } else if short_tag_named(name) is Some {
        match as_u16(value) {
            Some(n) => Some(WritableView::Short(short_tag_named(name)->Some_0, n)),
            None => None,
        }
    } else if ratio_tag_named(name) is Some {
        match as_ratio(value, measured.ratio) {
            Some(ratio) => Some(
                WritableView::Ratios(ratio_tag_named(name)->Some_0, seq![ratio]),
            ),
            None => None,
        }
    } else if name == "FileSource"@ || name == "GPSAltitudeRef"@ {
        match as_u8(value) {
            Some(n) => Some(
                WritableView::Bytes(
                    if name == "FileSource"@ {
                        ByteTag::FileSource
                    } else {
                        ByteTag::GpsAltitudeRef
                    },
                    seq![n],
                ),
            ),
            None => None,
        }
    } else if name == "GPSLatitude"@ || name == "GPSLongitude"@ {
        match measured.degrees {
            Some(degrees) => Some(
                WritableView::Ratios(
                    if name == "GPSLatitude"@ {
                        RatioTag::GpsLatitude
                    } else {
                        RatioTag::GpsLongitude
                    },
                    degrees,
                ),
            ),
            None => None,
        }
    } else if name == "ISOSpeed"@ {
        match as_u32(value) {
            Some(n) => Some(WritableView::IsoSpeed(n)),
            None => None,
        }
    } else {
        None
    }
}

pub open spec fn writable_option(tag: Option<WritableTag>) -> Option<WritableView> {
    match tag {
        Some(tag) => Some(tag@),
        None => None,
    }
}

/// A copy of some quotients.
pub fn copy_ratios(values: &Vec<UnsignedRatio>) -> (r: Vec<UnsignedRatio>)
    ensures
        r@ == values@,
{
    let mut out: Vec<UnsignedRatio> = Vec::new();
    let mut i: usize = 0;
    while i < values.len()
        invariant
            i <= values@.len(),
            out@ =~= values@.take(i as int),
        decreases values@.len() - i,
    {
        out.push(values[i]);
        i += 1;
    }
    proof {
        assert(values@.take(values@.len() as int) =~= values@);
    }
    out
}

fn one_ratio(ratio: UnsignedRatio) -> (r: Vec<UnsignedRatio>)
    ensures
        r@ == seq![ratio],
{
    let mut values: Vec<UnsignedRatio> = Vec::new();
    values.push(ratio);
    proof {
        assert(values@ =~= seq![ratio]);
    }
    values
}

fn one_byte(n: u8) -> (r: Vec<u8>)
    ensures
        r@ == seq![n],
{
    let mut bytes: Vec<u8> = Vec::new();
    bytes.push(n);
    proof {
        assert(bytes@ =~= seq![n]);
    }
    bytes
}

/// The tag that a name and a value stand for.
pub fn writable_exif_tag(name: &str, value: &Value, measured: &Measured) -> (r: Option<WritableTag>)
    ensures
        writable_option(r) == tag_for(name@, yaml_contents(*value), measured@),
{
    if let Some(tag) = find_text_tag(name) {
        return match yaml_string(value) {
            Some(text) => Some(WritableTag::Text(tag, text)),
            None => None,
        };
    }
    if let Some(tag) = find_date_tag(name) {
        return match yaml_datetime(value) {
            Some(text) => Some(WritableTag::Text(tag, text)),
            None => None,
        };
    }
    if let Some(tag) = find_short_tag(name) {
        return match yaml_u16(value) {
            Some(n) => Some(WritableTag::Short(tag, n)),
            None => None,
        };
    }
    if let Some(tag) = find_ratio_tag(name) {
        return match yaml_rational(value, measured) {
            Some(ratio) => Some(WritableTag::Ratios(tag, one_ratio(ratio))),
            None => None,
        };
    }
    if same(name, "FileSource") || same(name, "GPSAltitudeRef") {
        return match yaml_u8(value) {
            Some(n) => Some(
                WritableTag::Bytes(
                    if same(name, "FileSource") {
                        ByteTag::FileSource
                    } else {
                        ByteTag::GpsAltitudeRef
                    },
                    one_byte(n),
                ),
            ),
            None => None,
        };
    }
    if same(name, "GPSLatitude") || same(name, "GPSLongitude") {
        return match &measured.degrees {
            Some(degrees) => Some(
                WritableTag::Ratios(
                    if same(name, "GPSLatitude") {
                        RatioTag::GpsLatitude
                    } else {
                        RatioTag::GpsLongitude
                    },
                    copy_ratios(degrees),
                ),
            ),
            None => None,
        };
    }
    if same(name, "ISOSpeed") {
        return match yaml_u32(value) {
            Some(n) => Some(WritableTag::IsoSpeed(n)),
            None => None,
        };
    }
    None
}

// ---------------------------------------------------------------------------
// Positions
// ---------------------------------------------------------------------------
/// A position: on which side of the equator and of the prime meridian, how far
/// from each, and how high, where that is known.
#[derive(Debug)]
pub struct GpsPosition {
    pub south: bool,
    pub latitude: Vec<UnsignedRatio>,
    pub west: bool,
    pub longitude: Vec<UnsignedRatio>,
    pub altitude: Option<Altitude>,
}

/// A height above or below sea level.
#[derive(Debug, Clone, Copy)]
pub struct Altitude {
    pub below_sea_level: bool,
    pub height: UnsignedRatio,
}

/// The tags of a position.
pub open spec fn position_tags(position: GpsPosition) -> Seq<WritableView> {
    seq![
        WritableView::Text(TextTag::GpsLatitudeRef, if position.south { "S"@ } else { "N"@ }),
        WritableView::Ratios(RatioTag::GpsLatitude, position.latitude@),
        WritableView::Text(TextTag::GpsLongitudeRef, if position.west { "W"@ } else { "E"@ }),
        WritableView::Ratios(RatioTag::GpsLongitude, position.longitude@),
        WritableView::Text(TextTag::GpsMapDatum, "WGS-84"@),
    ] + (match position.altitude {
        Some(altitude) => seq![
            WritableView::Bytes(
                ByteTag::GpsAltitudeRef,
                seq![if altitude.below_sea_level { 1u8 } else { 0u8 }],
            ),
            WritableView::Ratios(RatioTag::GpsAltitude, seq![altitude.height]),
        ],
        None => Seq::empty(),
    })
}

/// The tags that give a position.
pub fn gps_tags(position: &GpsPosition) -> (r: Vec<WritableTag>)
    ensures
        tag_views(r@) == position_tags(*position),
{
    let mut tags: Vec<WritableTag> = Vec::new();
    let latitude_ref = if position.south {
        "S".to_owned()
    } else {
        "N".to_owned()
    };
    let longitude_ref = if position.west {
        "W".to_owned()
    } else {
        "E".to_owned()
    };
    tags.push(WritableTag::Text(TextTag::GpsLatitudeRef, latitude_ref));
    tags.push(WritableTag::Ratios(RatioTag::GpsLatitude, copy_ratios(&position.latitude)));
    tags.push(WritableTag::Text(TextTag::GpsLongitudeRef, longitude_ref));
    tags.push(WritableTag::Ratios(RatioTag::GpsLongitude, copy_ratios(&position.longitude)));
    tags.push(WritableTag::Text(TextTag::GpsMapDatum, "WGS-84".to_owned()));
    if let Some(altitude) = position.altitude {
        let below = one_byte(
            if altitude.below_sea_level {
                1
            } else {
                0
            },
        );
        tags.push(WritableTag::Bytes(ByteTag::GpsAltitudeRef, below));
        tags.push(WritableTag::Ratios(RatioTag::GpsAltitude, one_ratio(altitude.height)));
    }
    proof {
        assert(tag_views(tags@) =~= position_tags(*position));
    }
    tags
}

/// What came of looking up the place that a tag names.
#[derive(Debug)]
pub enum PlaceLookup {
    Found(GpsPosition),
    NotFound,
    Failed(String),
}

/// Why a location is not expanded to tags.
#[derive(Debug)]
pub enum WriteTagError {
    /// It names no place.
    Ignored,
    /// The place is not known.
    Warning(String),
}

/// What a location is expanded to: the tags of its position, nothing where it
/// names no place, or a warning.
pub open spec fn expanded_location(value: Yaml, place: PlaceLookup) -> Result<
    Seq<WritableView>,
    Option<Seq<char>>,
> {
    match location_name(value) {
        None => Err(None),
        Some(name) => match place {
            PlaceLookup::Found(position) => Ok(position_tags(position)),
            PlaceLookup::NotFound => Err(Some(unknown_location_warning(name))),
            PlaceLookup::Failed(error) => Err(Some("$Location lookup failed: "@ + error@)),
        },
    }
}

/// The tags that a location value becomes.
pub fn expand_location_tag(value: &Value, place: &PlaceLookup) -> (r: Result<
    Vec<WritableTag>,
    WriteTagError,
>)
    ensures
        match (r, expanded_location(yaml_contents(*value), *place)) {
            (Ok(tags), Ok(expected)) => tag_views(tags@) == expected,
            (Err(WriteTagError::Ignored), Err(None)) => true,
            (Err(WriteTagError::Warning(warning)), Err(Some(expected))) => warning@ == expected,
            _ => false,
        },
{
    let mut ignored: Vec<String> = Vec::new();
    let name = match location_name_from_yaml(value, &mut ignored) {
        Some(name) => name,
        None => return Err(WriteTagError::Ignored),
    };
    match place {
        PlaceLookup::Found(position) => Ok(gps_tags(position)),
        PlaceLookup::NotFound => Err(
            WriteTagError::Warning(unknown_location_text(name.as_str())),
        ),
        PlaceLookup::Failed(error) => {
            let mut warning = "$Location lookup failed: ".to_owned();
            warning.push_str(error.as_str());
            Err(WriteTagError::Warning(warning))
        },
    }
}

} // verus!
