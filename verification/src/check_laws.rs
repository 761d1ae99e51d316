//! What holds of every check of a metadata file.

use crate::check::{
    integer_text, numbered_image, reference_errors, reference_warnings, summary_warnings,
    with_location, Findings, OutcomeView,
};
use crate::convert::{tag_for, MeasuredView};
use crate::path::FilePath;
use crate::plan::frame_target;
use crate::tags::{counts_of, is_known_tag, tag_warning_texts, with_name, Counts};
use crate::text::{decimal, trim};
use crate::yaml::{frame_number, key_label, Yaml};
use vstd::prelude::*;

verus! {

// ---------------------------------------------------------------------------
// Names of tags
// ---------------------------------------------------------------------------
/// Every name under which a metadata file can have an EXIF tag written counts as
/// standard, but for the two that the list of standard names leaves out.
pub proof fn law_writable_names_are_standard(
    name: Seq<char>,
    value: Yaml,
    measured: MeasuredView,
    counts: Counts,
)
    requires
        tag_for(name, value, measured) is Some,
        name != "Photographer"@,
        name != "ModifyDate"@,
    ensures
        is_known_tag(name),
        counts.with_tag(name).standard == counts.standard + 1,
        counts.with_tag(name).unknown == counts.unknown,
        counts.with_tag(name).unknown_names == counts.unknown_names,
{
}

/// The names that EXIF defines, and the key for a location, add one to the standard
/// tags. Any other name adds one to the unknown tags, and is listed among them.
pub proof fn law_names_of_exif_are_standard(name: Seq<char>, counts: Counts)
    ensures
        ({
            ||| name == "$Location"@
            ||| name == "Acceleration"@
            ||| name == "ApertureValue"@
            ||| name == "Artist"@
            ||| name == "BitsPerSample"@
            ||| name == "BodySerialNumber"@
            ||| name == "BrightnessValue"@
            ||| name == "CFAPattern"@
            ||| name == "CameraElevationAngle"@
            ||| name == "CameraOwnerName"@
            ||| name == "ColorSpace"@
            ||| name == "ComponentsConfiguration"@
            ||| name == "CompressedBitsPerPixel"@
            ||| name == "Compression"@
            ||| name == "CompositeImage"@
            ||| name == "Contrast"@
            ||| name == "Copyright"@
            ||| name == "CreateDate"@
            ||| name == "CustomRendered"@
            ||| name == "DateTime"@
            ||| name == "DateTimeDigitized"@
            ||| name == "DateTimeOriginal"@
            ||| name == "DeviceSettingDescription"@
            ||| name == "DigitalZoomRatio"@
            ||| name == "ExifVersion"@
            ||| name == "ExposureBiasValue"@
            ||| name == "ExposureIndex"@
            ||| name == "ExposureMode"@
            ||| name == "ExposureProgram"@
            ||| name == "ExposureTime"@
            ||| name == "FNumber"@
            ||| name == "FileSource"@
            ||| name == "Flash"@
            ||| name == "FlashEnergy"@
            ||| name == "FlashpixVersion"@
            ||| name == "FocalLength"@
            ||| name == "FocalLengthIn35mmFilm"@
            ||| name == "FocalPlaneResolutionUnit"@
            ||| name == "FocalPlaneXResolution"@
            ||| name == "FocalPlaneYResolution"@
            ||| name == "GPSAltitude"@
            ||| name == "GPSAltitudeRef"@
            ||| name == "GPSAreaInformation"@
            ||| name == "GPSDateStamp"@
            ||| name == "GPSDestBearing"@
            ||| name == "GPSDestBearingRef"@
            ||| name == "GPSDestDistance"@
            ||| name == "GPSDestDistanceRef"@
            ||| name == "GPSDestLatitude"@
            ||| name == "GPSDestLatitudeRef"@
            ||| name == "GPSDestLongitude"@
            ||| name == "GPSDestLongitudeRef"@
            ||| name == "GPSDifferential"@
            ||| name == "GPSDOP"@
            ||| name == "GPSHPositioningError"@
            ||| name == "GPSImgDirection"@
            ||| name == "GPSImgDirectionRef"@
            ||| name == "GPSInfoIFDPointer"@
            ||| name == "GPSLatitude"@
            ||| name == "GPSLatitudeRef"@
            ||| name == "GPSLongitude"@
            ||| name == "GPSLongitudeRef"@
            ||| name == "GPSMapDatum"@
            ||| name == "GPSMeasureMode"@
            ||| name == "GPSProcessingMethod"@
            ||| name == "GPSSatellites"@
            ||| name == "GPSSpeed"@
            ||| name == "GPSSpeedRef"@
            ||| name == "GPSStatus"@
            ||| name == "GPSTimeStamp"@
            ||| name == "GPSTrack"@
            ||| name == "GPSTrackRef"@
            ||| name == "GPSVersionID"@
            ||| name == "GainControl"@
            ||| name == "Gamma"@
            ||| name == "Humidity"@
            ||| name == "ISO"@
            ||| name == "ISOSpeed"@
            ||| name == "ISOSpeedLatitudezzz"@
            ||| name == "ISOSpeedLatitudeyyy"@
            ||| name == "ISOSpeedRatings"@
            ||| name == "ImageDescription"@
            ||| name == "ImageHeight"@
            ||| name == "ImageLength"@
            ||| name == "ImageUniqueID"@
            ||| name == "ImageWidth"@
            ||| name == "InteropIFDPointer"@
            ||| name == "InteroperabilityIndex"@
            ||| name == "InteroperabilityVersion"@
            ||| name == "JPEGInterchangeFormat"@
            ||| name == "JPEGInterchangeFormatLength"@
            ||| name == "LensMake"@
            ||| name == "LensModel"@
            ||| name == "LensSerialNumber"@
            ||| name == "LensSpecification"@
            ||| name == "LightSource"@
            ||| name == "Make"@
            ||| name == "MakerNote"@
            ||| name == "MaxApertureValue"@
            ||| name == "MeteringMode"@
            ||| name == "Model"@
            ||| name == "OECF"@
            ||| name == "OffsetTime"@
            ||| name == "OffsetTimeDigitized"@
            ||| name == "OffsetTimeOriginal"@
            ||| name == "Orientation"@
            ||| name == "PhotographicSensitivity"@
            ||| name == "PhotometricInterpretation"@
            ||| name == "PixelXDimension"@
            ||| name == "PixelYDimension"@
            ||| name == "PlanarConfiguration"@
            ||| name == "Pressure"@
            ||| name == "PrimaryChromaticities"@
            ||| name == "RecommendedExposureIndex"@
            ||| name == "ReferenceBlackWhite"@
            ||| name == "RelatedImageFileFormat"@
            ||| name == "RelatedImageLength"@
            ||| name == "RelatedImageWidth"@
            ||| name == "RelatedSoundFile"@
            ||| name == "ResolutionUnit"@
            ||| name == "RowsPerStrip"@
            ||| name == "SamplesPerPixel"@
            ||| name == "Saturation"@
            ||| name == "SceneCaptureType"@
            ||| name == "SceneType"@
            ||| name == "SensingMethod"@
            ||| name == "Sharpness"@
            ||| name == "ShutterSpeedValue"@
            ||| name == "Software"@
            ||| name == "SourceExposureTimesOfCompositeImage"@
            ||| name == "SourceImageNumberOfCompositeImage"@
            ||| name == "SpatialFrequencyResponse"@
            ||| name == "SpectralSensitivity"@
            ||| name == "StandardOutputSensitivity"@
            ||| name == "StripByteCounts"@
            ||| name == "StripOffsets"@
            ||| name == "SubSecTime"@
            ||| name == "SubSecTimeDigitized"@
            ||| name == "SubSecTimeOriginal"@
            ||| name == "SubjectArea"@
            ||| name == "SubjectDistance"@
            ||| name == "SubjectDistanceRange"@
            ||| name == "SubjectLocation"@
            ||| name == "Temperature"@
            ||| name == "TileByteCounts"@
            ||| name == "TileOffsets"@
            ||| name == "TransferFunction"@
            ||| name == "UserComment"@
            ||| name == "WaterDepth"@
            ||| name == "WhiteBalance"@
            ||| name == "WhitePoint"@
            ||| name == "XResolution"@
            ||| name == "YCbCrCoefficients"@
            ||| name == "YCbCrPositioning"@
            ||| name == "YCbCrSubSampling"@
            ||| name == "YResolution"@
        }) ==> counts.with_tag(name) == (Counts { standard: counts.standard + 1, ..counts }),
        !({
            ||| name == "$Location"@
            ||| name == "Acceleration"@
            ||| name == "ApertureValue"@
            ||| name == "Artist"@
            ||| name == "BitsPerSample"@
            ||| name == "BodySerialNumber"@
            ||| name == "BrightnessValue"@
            ||| name == "CFAPattern"@
            ||| name == "CameraElevationAngle"@
            ||| name == "CameraOwnerName"@
            ||| name == "ColorSpace"@
            ||| name == "ComponentsConfiguration"@
            ||| name == "CompressedBitsPerPixel"@
            ||| name == "Compression"@
            ||| name == "CompositeImage"@
            ||| name == "Contrast"@
            ||| name == "Copyright"@
            ||| name == "CreateDate"@
            ||| name == "CustomRendered"@
            ||| name == "DateTime"@
            ||| name == "DateTimeDigitized"@
            ||| name == "DateTimeOriginal"@
            ||| name == "DeviceSettingDescription"@
            ||| name == "DigitalZoomRatio"@
            ||| name == "ExifVersion"@
            ||| name == "ExposureBiasValue"@
            ||| name == "ExposureIndex"@
            ||| name == "ExposureMode"@
            ||| name == "ExposureProgram"@
            ||| name == "ExposureTime"@
            ||| name == "FNumber"@
            ||| name == "FileSource"@
            ||| name == "Flash"@
            ||| name == "FlashEnergy"@
            ||| name == "FlashpixVersion"@
            ||| name == "FocalLength"@
            ||| name == "FocalLengthIn35mmFilm"@
            ||| name == "FocalPlaneResolutionUnit"@
            ||| name == "FocalPlaneXResolution"@
            ||| name == "FocalPlaneYResolution"@
            ||| name == "GPSAltitude"@
            ||| name == "GPSAltitudeRef"@
            ||| name == "GPSAreaInformation"@
            ||| name == "GPSDateStamp"@
            ||| name == "GPSDestBearing"@
            ||| name == "GPSDestBearingRef"@
            ||| name == "GPSDestDistance"@
            ||| name == "GPSDestDistanceRef"@
            ||| name == "GPSDestLatitude"@
            ||| name == "GPSDestLatitudeRef"@
            ||| name == "GPSDestLongitude"@
            ||| name == "GPSDestLongitudeRef"@
            ||| name == "GPSDifferential"@
            ||| name == "GPSDOP"@
            ||| name == "GPSHPositioningError"@
            ||| name == "GPSImgDirection"@
            ||| name == "GPSImgDirectionRef"@
            ||| name == "GPSInfoIFDPointer"@
            ||| name == "GPSLatitude"@
            ||| name == "GPSLatitudeRef"@
            ||| name == "GPSLongitude"@
            ||| name == "GPSLongitudeRef"@
            ||| name == "GPSMapDatum"@
            ||| name == "GPSMeasureMode"@
            ||| name == "GPSProcessingMethod"@
            ||| name == "GPSSatellites"@
            ||| name == "GPSSpeed"@
            ||| name == "GPSSpeedRef"@
            ||| name == "GPSStatus"@
            ||| name == "GPSTimeStamp"@
            ||| name == "GPSTrack"@
            ||| name == "GPSTrackRef"@
            ||| name == "GPSVersionID"@
            ||| name == "GainControl"@
            ||| name == "Gamma"@
            ||| name == "Humidity"@
            ||| name == "ISO"@
            ||| name == "ISOSpeed"@
            ||| name == "ISOSpeedLatitudezzz"@
            ||| name == "ISOSpeedLatitudeyyy"@
            ||| name == "ISOSpeedRatings"@
            ||| name == "ImageDescription"@
            ||| name == "ImageHeight"@
            ||| name == "ImageLength"@
            ||| name == "ImageUniqueID"@
            ||| name == "ImageWidth"@
            ||| name == "InteropIFDPointer"@
            ||| name == "InteroperabilityIndex"@
            ||| name == "InteroperabilityVersion"@
            ||| name == "JPEGInterchangeFormat"@
            ||| name == "JPEGInterchangeFormatLength"@
            ||| name == "LensMake"@
            ||| name == "LensModel"@
            ||| name == "LensSerialNumber"@
            ||| name == "LensSpecification"@
            ||| name == "LightSource"@
            ||| name == "Make"@
            ||| name == "MakerNote"@
            ||| name == "MaxApertureValue"@
            ||| name == "MeteringMode"@
            ||| name == "Model"@
            ||| name == "OECF"@
            ||| name == "OffsetTime"@
            ||| name == "OffsetTimeDigitized"@
            ||| name == "OffsetTimeOriginal"@
            ||| name == "Orientation"@
            ||| name == "PhotographicSensitivity"@
            ||| name == "PhotometricInterpretation"@
            ||| name == "PixelXDimension"@
            ||| name == "PixelYDimension"@
            ||| name == "PlanarConfiguration"@
            ||| name == "Pressure"@
            ||| name == "PrimaryChromaticities"@
            ||| name == "RecommendedExposureIndex"@
            ||| name == "ReferenceBlackWhite"@
            ||| name == "RelatedImageFileFormat"@
            ||| name == "RelatedImageLength"@
            ||| name == "RelatedImageWidth"@
            ||| name == "RelatedSoundFile"@
            ||| name == "ResolutionUnit"@
            ||| name == "RowsPerStrip"@
            ||| name == "SamplesPerPixel"@
            ||| name == "Saturation"@
            ||| name == "SceneCaptureType"@
            ||| name == "SceneType"@
            ||| name == "SensingMethod"@
            ||| name == "Sharpness"@
            ||| name == "ShutterSpeedValue"@
            ||| name == "Software"@
            ||| name == "SourceExposureTimesOfCompositeImage"@
            ||| name == "SourceImageNumberOfCompositeImage"@
            ||| name == "SpatialFrequencyResponse"@
            ||| name == "SpectralSensitivity"@
            ||| name == "StandardOutputSensitivity"@
            ||| name == "StripByteCounts"@
            ||| name == "StripOffsets"@
            ||| name == "SubSecTime"@
            ||| name == "SubSecTimeDigitized"@
            ||| name == "SubSecTimeOriginal"@
            ||| name == "SubjectArea"@
            ||| name == "SubjectDistance"@
            ||| name == "SubjectDistanceRange"@
            ||| name == "SubjectLocation"@
            ||| name == "Temperature"@
            ||| name == "TileByteCounts"@
            ||| name == "TileOffsets"@
            ||| name == "TransferFunction"@
            ||| name == "UserComment"@
            ||| name == "WaterDepth"@
            ||| name == "WhiteBalance"@
            ||| name == "WhitePoint"@
            ||| name == "XResolution"@
            ||| name == "YCbCrCoefficients"@
            ||| name == "YCbCrPositioning"@
            ||| name == "YCbCrSubSampling"@
            ||| name == "YResolution"@
        }) ==> {
            &&& counts.with_tag(name).standard == counts.standard
            &&& counts.with_tag(name).unknown == counts.unknown + 1
            &&& counts.with_tag(name).unknown_names.contains(name)
        },
{
    let names = counts.unknown_names;
    if !names.contains(name) {
        assert(names.push(name)[names.len() as int] == name);
    }
}

proof fn lemma_with_name_contains(names: Seq<Seq<char>>, name: Seq<char>, other: Seq<char>)
    ensures
        with_name(names, name).contains(other) <==> names.contains(other) || other == name,
{
    if !names.contains(name) {
        let all = names.push(name);
        assert(all[names.len() as int] == name);
        if names.contains(other) {
            let i = choose|i: int| 0 <= i < names.len() && names[i] == other;
            assert(all[i] == other);
        }
        if all.contains(other) {
            let i = choose|i: int| 0 <= i < all.len() && all[i] == other;
            if i < names.len() {
                assert(names[i] == other);
            }
        }
    }
}

/// The unknown names are those of the tags that are not known, and no others.
pub proof fn law_unknown_names_are_those_that_occur(names: Seq<Seq<char>>, name: Seq<char>)
    ensures
        counts_of(names).unknown_names.contains(name) <==> names.contains(name) && !is_known_tag(
            name,
        ),
    decreases names.len(),
{
    if names.len() > 0 {
        let before = names.drop_last();
        law_unknown_names_are_those_that_occur(before, name);
        lemma_with_name_contains(counts_of(before).unknown_names, names.last(), name);
        assert(names[names.len() - 1] == names.last());
        if before.contains(name) {
            let i = choose|i: int| 0 <= i < before.len() && before[i] == name;
            assert(names[i] == name);
        }
        if names.contains(name) {
            let i = choose|i: int| 0 <= i < names.len() && names[i] == name;
            if i < before.len() {
                assert(before[i] == name);
            }
        }
    }
}

/// There is one warning for each unknown name, and it tells the name.
pub proof fn law_unknown_names_are_warned_about(context: Seq<char>, names: Seq<Seq<char>>, i: int)
    requires
        0 <= i < names.len(),
    ensures
        tag_warning_texts(context, names).len() == names.len(),
        tag_warning_texts(context, names)[i] == context + " tag is non-standard `"@ + names[i]
            + "`"@,
{
}

// ---------------------------------------------------------------------------
// Frames
// ---------------------------------------------------------------------------
/// A frame number is accepted if and only if there is an image with that number, the
/// first being one; a frame name if and only if there is a file of that name.
pub proof fn law_frames_must_have_an_image(
    key: Yaml,
    image_count: nat,
    existing_files: Seq<Seq<char>>,
)
    ensures
        match key {
            Yaml::Number(_, Some(number), _) => reference_errors(key, image_count, existing_files).len()
                == 0 <==> 1 <= number <= image_count,
            Yaml::Text(name) => reference_errors(key, image_count, existing_files).len() == 0
                <==> existing_files.contains(name),
            _ => reference_errors(key, image_count, existing_files).len() == 0,
        },
        match key {
            Yaml::Number(_, signed, _) => reference_warnings(key).len() == 0 <==> signed is Some,
            Yaml::Text(_) => reference_warnings(key).len() == 0,
            _ => reference_warnings(key).len() == 1,
        },
{
}

/// A frame number that a check accepts is written to the image with that number.
pub proof fn law_accepted_numbers_are_written_to_their_image(
    text: Seq<char>,
    number: i64,
    unsigned: Option<u64>,
    images: Seq<FilePath>,
    existing_files: Seq<Seq<char>>,
    files: Seq<(Seq<char>, Seq<char>)>,
)
    requires
        images.len() <= usize::MAX,
        reference_errors(Yaml::Number(text, Some(number), unsigned), images.len(), existing_files).len()
            == 0,
    ensures
        1 <= number <= images.len(),
        frame_target(Yaml::Number(text, Some(number), unsigned), files, images) == Some(
            images[number - 1]@,
        ),
        numbered_image(Some(number as int), images) == Some(images[number - 1]@),
{
}

/// No image is written for a frame number that no image has.
pub proof fn law_other_numbers_are_written_to_no_image(
    text: Seq<char>,
    number: i64,
    unsigned: Option<u64>,
    images: Seq<FilePath>,
    files: Seq<(Seq<char>, Seq<char>)>,
)
    requires
        number < 1 || number > images.len(),
    ensures
        frame_target(Yaml::Number(text, Some(number), unsigned), files, images) is None,
{
}

/// There is a warning on the number of frames if and only if more frames are
/// numbered than there are images.
pub proof fn law_too_many_numbers_are_warned_about(frame_number_count: nat, file_count: nat)
    ensures
        summary_warnings(frame_number_count, file_count).len() == (if frame_number_count
            > file_count {
            1nat
        } else {
            0
        }),
{
}

// ---------------------------------------------------------------------------
// Places
// ---------------------------------------------------------------------------
/// A place that is known is listed; one that is not is warned about, by its name
/// without the blanks around it; a lookup that fails is an error.
pub proof fn law_places_are_looked_up(
    findings: Findings,
    text: Seq<char>,
    table: Seq<(Seq<char>, OutcomeView)>,
    k: int,
)
    requires
        trim(text).len() > 0,
        0 <= k < table.len(),
        table[k].0 == trim(text),
        forall|i: int| 0 <= i < k ==> (#[trigger] table[i]).0 != trim(text),
    ensures
        match table[k].1 {
            OutcomeView::Found(found) => with_location(findings, Yaml::Text(text), table) == Ok::<
                Findings,
                Seq<char>,
            >(
                Findings {
                    location_matches: findings.location_matches.push(found),
                    ..findings
                },
            ),
            OutcomeView::NotFound => with_location(findings, Yaml::Text(text), table) == Ok::<
                Findings,
                Seq<char>,
            >(
                Findings {
                    warnings: findings.warnings.push(
                        "$Location: no match found in database [for <"@ + trim(text) + ">]"@,
                    ),
                    ..findings
                },
            ),
            OutcomeView::Failed(error) => with_location(findings, Yaml::Text(text), table) == Err::<
                Findings,
                Seq<char>,
            >(error),
        },
    decreases k,
{
    if k > 0 {
        let rest = table.skip(1);
        assert(table[0].0 != trim(text));
        assert(rest[k - 1] == table[k]);
        assert forall|i: int| 0 <= i < k - 1 implies (#[trigger] rest[i]).0 != trim(text) by {
            assert(rest[i] == table[i + 1]);
        }
        law_places_are_looked_up(findings, text, rest, k - 1);
    }
}

/// A number below zero is told by its sign and its digits, any other by its digits.
pub proof fn law_numbers_are_told_with_their_sign(n: nat)
    ensures
        integer_text(n as int) == decimal(n),
        n > 0 ==> integer_text(-n) == seq!['-'] + decimal(n),
{
    reveal_strlit("-");
    assert("-"@ =~= seq!['-']);
}

/// The key of a frame is told as it stands in the file.
pub proof fn law_keys_are_told_as_they_stand(text: Seq<char>)
    ensures
        key_label(Yaml::Text(text)) == text,
        key_label(Yaml::Bool(true)) == seq!['t', 'r', 'u', 'e'],
        key_label(Yaml::Bool(false)) == seq!['f', 'a', 'l', 's', 'e'],
{
    reveal_strlit("true");
    reveal_strlit("false");
    assert("true"@ =~= seq!['t', 'r', 'u', 'e']);
    assert("false"@ =~= seq!['f', 'a', 'l', 's', 'e']);
}

/// A key numbers a frame if and only if it is a whole number, the first being one.
pub proof fn law_frames_are_numbered_from_one(text: Seq<char>, number: i64, unsigned: Option<u64>)
    ensures
        0 < number <= usize::MAX ==> frame_number(Yaml::Number(text, Some(number), unsigned))
            == Some(number as int),
        number <= 0 ==> frame_number(Yaml::Number(text, Some(number), unsigned)) is None,
        frame_number(Yaml::Number(text, None, unsigned)) is None,
        frame_number(Yaml::Text(text)) is None,
        frame_number(Yaml::Null) is None,
{
}

} // verus!
