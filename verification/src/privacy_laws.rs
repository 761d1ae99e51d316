//! What holds of every strip for privacy, told by the names of tags.

use crate::exif_data::{FieldView, TagContext};
use crate::strip::{is_private_name, normal_name, StripMode};
use crate::text::{contains_text, is_digit, is_letter, lower, stands_at, starts_with};
use vstd::prelude::*;

verus! {

/// Whether every character is an ASCII letter or a decimal digit.
pub open spec fn is_plain(name: Seq<char>) -> bool {
    forall|i: int| 0 <= i < name.len() ==> is_letter(#[trigger] name[i]) || is_digit(name[i])
}

proof fn lemma_plain_name(name: Seq<char>)
    requires
        is_plain(name),
    ensures
        normal_name(name).len() == name.len(),
        forall|i: int| 0 <= i < name.len() ==> #[trigger] normal_name(name)[i] == lower(name[i]),
    decreases name.len(),
{
    if name.len() > 0 {
        let before = name.drop_last();
        assert forall|i: int| 0 <= i < before.len() implies is_letter(#[trigger] before[i])
            || is_digit(before[i]) by {
            assert(before[i] == name[i]);
        }
        lemma_plain_name(before);
        assert(name[name.len() - 1] == name.last());
        assert forall|i: int| 0 <= i < name.len() implies #[trigger] normal_name(name)[i] == lower(
            name[i],
        ) by {
            if i < before.len() {
                assert(normal_name(name)[i] == normal_name(before)[i]);
                assert(before[i] == name[i]);
            }
        }
    }
}

/// Names are compared without case and without anything but letters and digits.
pub proof fn law_names_lose_case_and_separators(name: Seq<char>, c: char)
    ensures
        normal_name(name.push(c)) == (if 'a' as u32 <= c as u32 <= 'z' as u32 || '0' as u32
            <= c as u32 <= '9' as u32 {
            normal_name(name).push(c)
        } else if 'A' as u32 <= c as u32 <= 'Z' as u32 {
            normal_name(name).push(((c as u32) + 32) as u8 as char)
        } else {
            normal_name(name)
        }),
        normal_name(Seq::empty()) == Seq::<char>::empty(),
{
    assert(name.push(c).drop_last() =~= name);
}

proof fn lemma_part_is_found(before: Seq<char>, part: Seq<char>, after: Seq<char>)
    ensures
        contains_text(before + part + after, part),
{
    let all = before + part + after;
    let i = before.len() as int;
    assert(all.subrange(i, i + part.len()) =~= part);
    assert(stands_at(all, part, i));
}

/// A strip for privacy removes every field with a name that, without case and
/// separators, holds a word for a single device, a person, a date or a time.
pub proof fn law_privacy_removes_telling_names(
    mode: StripMode,
    field: FieldView,
    is_tiff: bool,
    before: Seq<char>,
    after: Seq<char>,
)
    requires
        mode.base is Privacy,
        is_tiff ==> field.context != TagContext::Tiff,
        normal_name(field.name) == before + "serial"@ + after || normal_name(field.name) == before
            + "owner"@ + after || normal_name(field.name) == before + "date"@ + after
            || normal_name(field.name) == before + "offsettime"@ + after || normal_name(field.name)
            == before + "subsectime"@ + after,
    ensures
        mode.removes(field, is_tiff),
{
    lemma_part_is_found(before, "serial"@, after);
    lemma_part_is_found(before, "owner"@, after);
    lemma_part_is_found(before, "date"@, after);
    lemma_part_is_found(before, "offsettime"@, after);
    lemma_part_is_found(before, "subsectime"@, after);
}

proof fn lemma_word_is_found(name: Seq<char>, word: Seq<char>, at: int)
    requires
        is_plain(name),
        0 <= at,
        at + word.len() <= name.len(),
        forall|i: int| 0 <= i < word.len() ==> lower(#[trigger] name[at + i]) == word[i],
    ensures
        contains_text(normal_name(name), word),
{
    lemma_plain_name(name);
    let normal = normal_name(name);
    assert forall|i: int| 0 <= i < word.len() implies normal[at + i] == word[i] by {
        assert(normal[at + i] == lower(name[at + i]));
    }
    assert(normal.subrange(at, at + word.len()) =~= word);
    assert(stands_at(normal, word, at));
}

/// A strip for privacy removes the serial numbers of the body and the lens, the name
/// of the owner, and every date and time, by the names that EXIF gives them.
pub proof fn law_privacy_removes_owners_and_dates(mode: StripMode, field: FieldView, is_tiff: bool)
    requires
        mode.base is Privacy,
        is_tiff ==> field.context != TagContext::Tiff,
        field.name == "BodySerialNumber"@ || field.name == "LensSerialNumber"@ || field.name == "CameraOwnerName"@ || field.name == "DateTime"@ || field.name == "DateTimeOriginal"@ || field.name == "DateTimeDigitized"@ || field.name == "OffsetTime"@ || field.name == "OffsetTimeOriginal"@ || field.name == "OffsetTimeDigitized"@ || field.name == "SubSecTime"@ || field.name == "SubSecTimeOriginal"@ || field.name == "SubSecTimeDigitized"@,
    ensures
        mode.removes(field, is_tiff),
{
    reveal_strlit("serial");
    reveal_strlit("owner");
    reveal_strlit("date");
    reveal_strlit("offsettime");
    reveal_strlit("subsectime");
    if field.name == "BodySerialNumber"@ {
        reveal_strlit("BodySerialNumber");
        lemma_word_is_found("BodySerialNumber"@, "serial"@, 4);
    }
    if field.name == "LensSerialNumber"@ {
        reveal_strlit("LensSerialNumber");
        lemma_word_is_found("LensSerialNumber"@, "serial"@, 4);
    }
    if field.name == "CameraOwnerName"@ {
        reveal_strlit("CameraOwnerName");
        lemma_word_is_found("CameraOwnerName"@, "owner"@, 6);
    }
    if field.name == "DateTime"@ {
        reveal_strlit("DateTime");
        lemma_word_is_found("DateTime"@, "date"@, 0);
    }
    if field.name == "DateTimeOriginal"@ {
        reveal_strlit("DateTimeOriginal");
        lemma_word_is_found("DateTimeOriginal"@, "date"@, 0);
    }
    if field.name == "DateTimeDigitized"@ {
        reveal_strlit("DateTimeDigitized");
        lemma_word_is_found("DateTimeDigitized"@, "date"@, 0);
    }
    if field.name == "OffsetTime"@ {
        reveal_strlit("OffsetTime");
        lemma_word_is_found("OffsetTime"@, "offsettime"@, 0);
    }
    if field.name == "OffsetTimeOriginal"@ {
        reveal_strlit("OffsetTimeOriginal");
        lemma_word_is_found("OffsetTimeOriginal"@, "offsettime"@, 0);
    }
    if field.name == "OffsetTimeDigitized"@ {
        reveal_strlit("OffsetTimeDigitized");
        lemma_word_is_found("OffsetTimeDigitized"@, "offsettime"@, 0);
    }
    if field.name == "SubSecTime"@ {
        reveal_strlit("SubSecTime");
        lemma_word_is_found("SubSecTime"@, "subsectime"@, 0);
    }
    if field.name == "SubSecTimeOriginal"@ {
        reveal_strlit("SubSecTimeOriginal");
        lemma_word_is_found("SubSecTimeOriginal"@, "subsectime"@, 0);
    }
    if field.name == "SubSecTimeDigitized"@ {
        reveal_strlit("SubSecTimeDigitized");
        lemma_word_is_found("SubSecTimeDigitized"@, "subsectime"@, 0);
    }
}

/// A strip for privacy removes what tells about people, and what the maker of the
/// camera noted, by the names that EXIF gives them.
pub proof fn law_privacy_removes_people_and_notes(mode: StripMode, field: FieldView, is_tiff: bool)
    requires
        mode.base is Privacy,
        is_tiff ==> field.context != TagContext::Tiff || field.number == 0x010e || field.number
            == 0x0131 || field.number == 0x013b || field.number == 0x8298,
        field.name == "Software"@ || field.name == "UserComment"@ || field.name == "ImageDescription"@ || field.name == "Artist"@ || field.name == "Copyright"@ || field.name == "MakerNote"@ || field.name == "ImageUniqueID"@,
    ensures
        mode.removes(field, is_tiff),
{
    lemma_notes_are_no_layout();
}

/// A strip for privacy removes every field of a position, in whatever directory it
/// is filed, told by its name or by the directory.
pub proof fn law_privacy_removes_places(
    mode: StripMode,
    field: FieldView,
    is_tiff: bool,
    rest: Seq<char>,
)
    requires
        mode.base is Privacy,
        field.context == TagContext::Gps || (field.name == seq!['G', 'P', 'S'] + rest && (is_tiff
            ==> field.context != TagContext::Tiff)),
    ensures
        mode.removes(field, is_tiff),
{
    reveal_strlit("GPS");
    if field.context != TagContext::Gps {
        assert(field.name.subrange(0, 3) =~= "GPS"@);
        assert(stands_at(field.name, "GPS"@, 0));
    }
}

proof fn lemma_lacks(text: Seq<char>, part: Seq<char>, j: int)
    requires
        0 <= j < part.len(),
        forall|i: int| 0 <= i < text.len() ==> #[trigger] text[i] != part[j],
    ensures
        !contains_text(text, part),
{
    if contains_text(text, part) {
        let i = choose|i: int| stands_at(text, part, i);
        assert(text.subrange(i, i + part.len())[j] == text[i + j]);
    }
}

proof fn lemma_notes_are_no_layout()
    ensures
        "Software"@.len() == 8 && "Software"@[0] == 'S',
        "UserComment"@.len() == 11 && "UserComment"@[0] == 'U',
        "ImageDescription"@.len() == 16,
        "Artist"@.len() == 6,
        "Copyright"@.len() == 9 && "Copyright"@[0] == 'C',
        "MakerNote"@.len() == 9 && "MakerNote"@[0] == 'M',
        "ImageUniqueID"@.len() == 13 && "ImageUniqueID"@[0] == 'I',
        "ImageWidth"@.len() == 10,
        "ImageLength"@.len() == 11 && "ImageLength"@[0] == 'I' && "ImageLength"@[5] == 'L',
        "ImageHeight"@.len() == 11 && "ImageHeight"@[0] == 'I' && "ImageHeight"@[5] == 'H',
        "BitsPerSample"@.len() == 13 && "BitsPerSample"@[0] == 'B',
        "Compression"@.len() == 11 && "Compression"@[0] == 'C',
        "PhotometricInterpretation"@.len() == 25,
        "StripOffsets"@.len() == 12 && "StripOffsets"@[0] == 'S',
        "Orientation"@.len() == 11 && "Orientation"@[0] == 'O',
        "SamplesPerPixel"@.len() == 15 && "SamplesPerPixel"@[1] == 'a',
        "RowsPerStrip"@.len() == 12 && "RowsPerStrip"@[0] == 'R',
        "StripByteCounts"@.len() == 15 && "StripByteCounts"@[1] == 't',
        "XResolution"@.len() == 11 && "XResolution"@[0] == 'X',
        "YResolution"@.len() == 11 && "YResolution"@[0] == 'Y',
        "PlanarConfiguration"@.len() == 19,
        "ResolutionUnit"@.len() == 14,
        "ColorMap"@.len() == 8 && "ColorMap"@[0] == 'C',
        "DateTime"@.len() == 8 && "DateTime"@[0] == 'D',
{
    reveal_strlit("Software");
    reveal_strlit("UserComment");
    reveal_strlit("ImageDescription");
    reveal_strlit("Artist");
    reveal_strlit("Copyright");
    reveal_strlit("MakerNote");
    reveal_strlit("ImageUniqueID");
    reveal_strlit("ImageWidth");
    reveal_strlit("ImageLength");
    reveal_strlit("ImageHeight");
    reveal_strlit("BitsPerSample");
    reveal_strlit("Compression");
    reveal_strlit("PhotometricInterpretation");
    reveal_strlit("StripOffsets");
    reveal_strlit("Orientation");
    reveal_strlit("SamplesPerPixel");
    reveal_strlit("RowsPerStrip");
    reveal_strlit("StripByteCounts");
    reveal_strlit("XResolution");
    reveal_strlit("YResolution");
    reveal_strlit("PlanarConfiguration");
    reveal_strlit("ResolutionUnit");
    reveal_strlit("ColorMap");
    reveal_strlit("DateTime");
}

proof fn lemma_technical_names_differ()
    ensures
        "Software"@.len() == 8 && "Software"@[0] == 'S',
        "UserComment"@.len() == 11 && "UserComment"@[0] == 'U',
        "ImageDescription"@.len() == 16 && "ImageDescription"@[0] == 'I',
        "Artist"@.len() == 6,
        "Copyright"@.len() == 9 && "Copyright"@[0] == 'C',
        "MakerNote"@.len() == 9 && "MakerNote"@[0] == 'M',
        "ImageUniqueID"@.len() == 13 && "ImageUniqueID"@[0] == 'I',
        "Make"@.len() == 4,
        "Model"@.len() == 5 && "Model"@[0] == 'M',
        "Orientation"@.len() == 11 && "Orientation"@[0] == 'O',
        "XResolution"@.len() == 11 && "XResolution"@[0] == 'X',
        "YResolution"@.len() == 11 && "YResolution"@[0] == 'Y',
        "ResolutionUnit"@.len() == 14,
        "ExposureTime"@.len() == 12 && "ExposureTime"@[0] == 'E' && "ExposureTime"@[8] == 'T',
        "FNumber"@.len() == 7,
        "ExposureProgram"@.len() == 15,
        "PhotographicSensitivity"@.len() == 23,
        "ISOSpeed"@.len() == 8 && "ISOSpeed"@[0] == 'I',
        "ExifVersion"@.len() == 11 && "ExifVersion"@[0] == 'E',
        "ApertureValue"@.len() == 13 && "ApertureValue"@[0] == 'A',
        "MaxApertureValue"@.len() == 16 && "MaxApertureValue"@[0] == 'M',
        "MeteringMode"@.len() == 12 && "MeteringMode"@[0] == 'M',
        "LightSource"@.len() == 11 && "LightSource"@[0] == 'L',
        "Flash"@.len() == 5 && "Flash"@[0] == 'F',
        "FocalLength"@.len() == 11 && "FocalLength"@[0] == 'F',
        "ColorSpace"@.len() == 10 && "ColorSpace"@[0] == 'C',
        "FileSource"@.len() == 10 && "FileSource"@[0] == 'F',
        "ExposureMode"@.len() == 12 && "ExposureMode"@[0] == 'E' && "ExposureMode"@[8] == 'M',
        "WhiteBalance"@.len() == 12 && "WhiteBalance"@[0] == 'W',
        "LensMake"@.len() == 8 && "LensMake"@[0] == 'L',
        "LensModel"@.len() == 9 && "LensModel"@[0] == 'L',
        "LensSpecification"@.len() == 17,
        "ImageLength"@.len() == 11 && "ImageLength"@[0] == 'I',
        "Compression"@.len() == 11 && "Compression"@[0] == 'C',
        "GPS"@.len() == 3,
{
    reveal_strlit("Software");
    reveal_strlit("UserComment");
    reveal_strlit("ImageDescription");
    reveal_strlit("Artist");
    reveal_strlit("Copyright");
    reveal_strlit("MakerNote");
    reveal_strlit("ImageUniqueID");
    reveal_strlit("Make");
    reveal_strlit("Model");
    reveal_strlit("Orientation");
    reveal_strlit("XResolution");
    reveal_strlit("YResolution");
    reveal_strlit("ResolutionUnit");
    reveal_strlit("ExposureTime");
    reveal_strlit("FNumber");
    reveal_strlit("ExposureProgram");
    reveal_strlit("PhotographicSensitivity");
    reveal_strlit("ISOSpeed");
    reveal_strlit("ExifVersion");
    reveal_strlit("ApertureValue");
    reveal_strlit("MaxApertureValue");
    reveal_strlit("MeteringMode");
    reveal_strlit("LightSource");
    reveal_strlit("Flash");
    reveal_strlit("FocalLength");
    reveal_strlit("ColorSpace");
    reveal_strlit("FileSource");
    reveal_strlit("ExposureMode");
    reveal_strlit("WhiteBalance");
    reveal_strlit("LensMake");
    reveal_strlit("LensModel");
    reveal_strlit("LensSpecification");
    reveal_strlit("ImageLength");
    reveal_strlit("Compression");
    reveal_strlit("GPS");
}

proof fn lemma_is_no_place(name: Seq<char>)
    requires
        name.len() > 0,
        name[0] != 'G',
    ensures
        !starts_with(name, "GPS"@),
{
    reveal_strlit("GPS");
    if starts_with(name, "GPS"@) {
        assert(name.subrange(0, 3)[0] == name[0]);
    }
}

/// Whether a name lacks a letter of a word, whatever the case.
spec fn lacks(name: Seq<char>, word: Seq<char>, j: int) -> bool {
    0 <= j < word.len() && forall|i: int|
        0 <= i < name.len() ==> lower(#[trigger] name[i]) != word[j]
}

proof fn lemma_lacking_name(name: Seq<char>, word: Seq<char>, j: int)
    requires
        is_plain(name),
        lacks(name, word, j),
    ensures
        !contains_text(normal_name(name), word),
{
    lemma_plain_name(name);
    lemma_lacks(normal_name(name), word, j);
}

/// A name that lacks a letter of each telling word is not private.
proof fn lemma_is_technical(name: Seq<char>, a: int, b: int, c: int, d: int, e: int)
    requires
        is_plain(name),
        name.len() > 0,
        name[0] != 'G',
        lacks(name, "serial"@, a),
        lacks(name, "owner"@, b),
        lacks(name, "date"@, c),
        lacks(name, "offsettime"@, d),
        lacks(name, "subsectime"@, e),
    ensures
        !is_private_name(normal_name(name)),
        !starts_with(name, "GPS"@),
{
    reveal_strlit("date");
    reveal_strlit("datetime");
    assert("datetime"@[c] == "date"@[c]);
    assert(lacks(name, "datetime"@, c));
    lemma_lacking_name(name, "serial"@, a);
    lemma_lacking_name(name, "owner"@, b);
    lemma_lacking_name(name, "date"@, c);
    lemma_lacking_name(name, "datetime"@, c);
    lemma_lacking_name(name, "offsettime"@, d);
    lemma_lacking_name(name, "subsectime"@, e);
    lemma_is_no_place(name);
}

/// A strip for privacy leaves what tells of the camera, the lens, the exposure and the
/// layout of the image, by the names that EXIF gives them.
pub proof fn law_privacy_leaves_the_technique(mode: StripMode, field: FieldView, is_tiff: bool)
    requires
        mode.base is Privacy,
        mode.remove is None,
        field.context == TagContext::Tiff || field.context == TagContext::Exif,
        field.name == "Make"@ || field.name == "Model"@ || field.name == "Orientation"@ || field.name == "XResolution"@ || field.name == "YResolution"@ || field.name == "ResolutionUnit"@ || field.name == "ExposureTime"@ || field.name == "FNumber"@ || field.name == "ExposureProgram"@ || field.name == "PhotographicSensitivity"@ || field.name == "ISOSpeed"@ || field.name == "ExifVersion"@ || field.name == "ApertureValue"@ || field.name == "MaxApertureValue"@ || field.name == "MeteringMode"@ || field.name == "LightSource"@ || field.name == "Flash"@ || field.name == "FocalLength"@ || field.name == "ColorSpace"@ || field.name == "FileSource"@ || field.name == "ExposureMode"@ || field.name == "WhiteBalance"@ || field.name == "LensMake"@ || field.name == "LensModel"@ || field.name == "LensSpecification"@ || field.name == "ImageLength"@ || field.name == "Compression"@,
    ensures
        !mode.removes(field, is_tiff),
{
    lemma_technical_names_differ();
    reveal_strlit("serial");
    reveal_strlit("owner");
    reveal_strlit("date");
    reveal_strlit("offsettime");
    reveal_strlit("subsectime");
    if field.name == "Make"@ {
        reveal_strlit("Make");
        lemma_is_technical("Make"@, 0, 0, 0, 0, 0);
    }
    if field.name == "Model"@ {
        reveal_strlit("Model");
        lemma_is_technical("Model"@, 0, 1, 1, 1, 0);
    }
    if field.name == "Orientation"@ {
        reveal_strlit("Orientation");
        lemma_is_technical("Orientation"@, 0, 1, 0, 1, 0);
    }
    if field.name == "XResolution"@ {
        reveal_strlit("XResolution");
        lemma_is_technical("XResolution"@, 4, 1, 0, 1, 2);
    }
    if field.name == "YResolution"@ {
        reveal_strlit("YResolution");
        lemma_is_technical("YResolution"@, 4, 1, 0, 1, 2);
    }
    if field.name == "ResolutionUnit"@ {
        reveal_strlit("ResolutionUnit");
        lemma_is_technical("ResolutionUnit"@, 4, 1, 0, 1, 2);
    }
    if field.name == "ExposureTime"@ {
        reveal_strlit("ExposureTime");
        lemma_is_technical("ExposureTime"@, 4, 1, 0, 1, 2);
    }
    if field.name == "FNumber"@ {
        reveal_strlit("FNumber");
        lemma_is_technical("FNumber"@, 0, 0, 0, 0, 0);
    }
    if field.name == "ExposureProgram"@ {
        reveal_strlit("ExposureProgram");
        lemma_is_technical("ExposureProgram"@, 3, 1, 0, 1, 2);
    }
    if field.name == "PhotographicSensitivity"@ {
        reveal_strlit("PhotographicSensitivity");
        lemma_is_technical("PhotographicSensitivity"@, 5, 1, 0, 1, 1);
    }
    if field.name == "ISOSpeed"@ {
        reveal_strlit("ISOSpeed");
        lemma_is_technical("ISOSpeed"@, 2, 1, 1, 1, 1);
    }
    if field.name == "ExifVersion"@ {
        reveal_strlit("ExifVersion");
        lemma_is_technical("ExifVersion"@, 4, 1, 0, 5, 1);
    }
    if field.name == "ApertureValue"@ {
        reveal_strlit("ApertureValue");
        lemma_is_technical("ApertureValue"@, 0, 0, 0, 0, 0);
    }
    if field.name == "MaxApertureValue"@ {
        reveal_strlit("MaxApertureValue");
        lemma_is_technical("MaxApertureValue"@, 0, 0, 0, 0, 0);
    }
    if field.name == "MeteringMode"@ {
        reveal_strlit("MeteringMode");
        lemma_is_technical("MeteringMode"@, 0, 1, 1, 1, 0);
    }
    if field.name == "LightSource"@ {
        reveal_strlit("LightSource");
        lemma_is_technical("LightSource"@, 4, 1, 0, 1, 2);
    }
    if field.name == "Flash"@ {
        reveal_strlit("Flash");
        lemma_is_technical("Flash"@, 1, 0, 0, 0, 1);
    }
    if field.name == "FocalLength"@ {
        reveal_strlit("FocalLength");
        lemma_is_technical("FocalLength"@, 0, 1, 0, 3, 0);
    }
    if field.name == "ColorSpace"@ {
        reveal_strlit("ColorSpace");
        lemma_is_technical("ColorSpace"@, 3, 1, 0, 1, 1);
    }
    if field.name == "FileSource"@ {
        reveal_strlit("FileSource");
        lemma_is_technical("FileSource"@, 4, 1, 0, 5, 2);
    }
    if field.name == "ExposureMode"@ {
        reveal_strlit("ExposureMode");
        lemma_is_technical("ExposureMode"@, 3, 1, 1, 1, 2);
    }
    if field.name == "WhiteBalance"@ {
        reveal_strlit("WhiteBalance");
        lemma_is_technical("WhiteBalance"@, 0, 0, 0, 0, 0);
    }
    if field.name == "LensMake"@ {
        reveal_strlit("LensMake");
        lemma_is_technical("LensMake"@, 2, 0, 0, 0, 1);
    }
    if field.name == "LensModel"@ {
        reveal_strlit("LensModel");
        lemma_is_technical("LensModel"@, 2, 1, 1, 1, 1);
    }
    if field.name == "LensSpecification"@ {
        reveal_strlit("LensSpecification");
        lemma_is_technical("LensSpecification"@, 2, 1, 0, 8, 1);
    }
    if field.name == "ImageLength"@ {
        reveal_strlit("ImageLength");
        lemma_is_technical("ImageLength"@, 0, 0, 0, 0, 0);
    }
    if field.name == "Compression"@ {
        reveal_strlit("Compression");
        lemma_is_technical("Compression"@, 4, 1, 0, 1, 1);
    }
}

} // verus!
