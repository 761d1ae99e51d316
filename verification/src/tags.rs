//! The names of metadata tags, and how many of them a file uses.

use crate::text::{list_contains, same, texts};
use crate::yaml::{as_text, entries_contents, text_of, Yaml};
use serde_yaml::Value;
use vstd::prelude::*;

verus! {

/// The names of standard EXIF tags from `A` to `E`.
pub open spec fn is_standard_a_to_e(name: Seq<char>) -> bool {
    ||| name == "Acceleration"@
    ||| name == "ApertureValue"@
    ||| name == "Artist"@
    ||| name == "BitsPerSample"@
    ||| name == "BodySerialNumber"@
    ||| name == "BrightnessValue"@
    ||| name == "CFAPattern"@
    ||| name == "CameraElevationAngle"@
    ||| name == "CameraOwnerName"@
    ||| name == "ColorSpace"@
    ||| name == "ComponentsConfiguration"@
    ||| name == "CompressedBitsPerPixel"@
    ||| name == "Compression"@
    ||| name == "CompositeImage"@
    ||| name == "Contrast"@
    ||| name == "Copyright"@
    ||| name == "CreateDate"@
    ||| name == "CustomRendered"@
    ||| name == "DateTime"@
    ||| name == "DateTimeDigitized"@
    ||| name == "DateTimeOriginal"@
    ||| name == "DeviceSettingDescription"@
    ||| name == "DigitalZoomRatio"@
    ||| name == "ExifVersion"@
    ||| name == "ExposureBiasValue"@
    ||| name == "ExposureIndex"@
    ||| name == "ExposureMode"@
    ||| name == "ExposureProgram"@
    ||| name == "ExposureTime"@
}

fn standard_a_to_e(name: &str) -> (r: bool)
    ensures
        r == is_standard_a_to_e(name@),
{
    if same(name, "Acceleration") {
        return true;
    }
    if same(name, "ApertureValue") {
        return true;
    }
    if same(name, "Artist") {
        return true;
    }
    if same(name, "BitsPerSample") {
        return true;
    }
    if same(name, "BodySerialNumber") {
        return true;
    }
    if same(name, "BrightnessValue") {
        return true;
    }
    if same(name, "CFAPattern") {
        return true;
    }
    if same(name, "CameraElevationAngle") {
        return true;
    }
    if same(name, "CameraOwnerName") {
        return true;
    }
    if same(name, "ColorSpace") {
        return true;
    }
    if same(name, "ComponentsConfiguration") {
        return true;
    }
    if same(name, "CompressedBitsPerPixel") {
        return true;
    }
    if same(name, "Compression") {
        return true;
    }
    if same(name, "CompositeImage") {
        return true;
    }
    if same(name, "Contrast") {
        return true;
    }
    if same(name, "Copyright") {
        return true;
    }
    if same(name, "CreateDate") {
        return true;
    }
    if same(name, "CustomRendered") {
        return true;
    }
    if same(name, "DateTime") {
        return true;
    }
    if same(name, "DateTimeDigitized") {
        return true;
    }
    if same(name, "DateTimeOriginal") {
        return true;
    }
    if same(name, "DeviceSettingDescription") {
        return true;
    }
    if same(name, "DigitalZoomRatio") {
        return true;
    }
    if same(name, "ExifVersion") {
        return true;
    }
    if same(name, "ExposureBiasValue") {
        return true;
    }
    if same(name, "ExposureIndex") {
        return true;
    }
    if same(name, "ExposureMode") {
        return true;
    }
    if same(name, "ExposureProgram") {
        return true;
    }
    if same(name, "ExposureTime") {
        return true;
    }
    false
}

/// The names of standard EXIF tags from `F` to `G`.
pub open spec fn is_standard_f_to_g(name: Seq<char>) -> bool {
    ||| name == "FNumber"@
    ||| name == "FileSource"@
    ||| name == "Flash"@
    ||| name == "FlashEnergy"@
    ||| name == "FlashpixVersion"@
    ||| name == "FocalLength"@
    ||| name == "FocalLengthIn35mmFilm"@
    ||| name == "FocalPlaneResolutionUnit"@
    ||| name == "FocalPlaneXResolution"@
    ||| name == "FocalPlaneYResolution"@
    ||| name == "GPSAltitude"@
    ||| name == "GPSAltitudeRef"@
    ||| name == "GPSAreaInformation"@
    ||| name == "GPSDateStamp"@
    ||| name == "GPSDestBearing"@
    ||| name == "GPSDestBearingRef"@
    ||| name == "GPSDestDistance"@
    ||| name == "GPSDestDistanceRef"@
    ||| name == "GPSDestLatitude"@
    ||| name == "GPSDestLatitudeRef"@
    ||| name == "GPSDestLongitude"@
    ||| name == "GPSDestLongitudeRef"@
    ||| name == "GPSDifferential"@
    ||| name == "GPSDOP"@
    ||| name == "GPSHPositioningError"@
    ||| name == "GPSImgDirection"@
    ||| name == "GPSImgDirectionRef"@
    ||| name == "GPSInfoIFDPointer"@
    ||| name == "GPSLatitude"@
    ||| name == "GPSLatitudeRef"@
    ||| name == "GPSLongitude"@
    ||| name == "GPSLongitudeRef"@
    ||| name == "GPSMapDatum"@
    ||| name == "GPSMeasureMode"@
    ||| name == "GPSProcessingMethod"@
    ||| name == "GPSSatellites"@
    ||| name == "GPSSpeed"@
    ||| name == "GPSSpeedRef"@
    ||| name == "GPSStatus"@
    ||| name == "GPSTimeStamp"@
    ||| name == "GPSTrack"@
    ||| name == "GPSTrackRef"@
    ||| name == "GPSVersionID"@
    ||| name == "GainControl"@
    ||| name == "Gamma"@
}

fn standard_f_to_g(name: &str) -> (r: bool)
    ensures
        r == is_standard_f_to_g(name@),
{
    if same(name, "FNumber") {
        return true;
    }
    if same(name, "FileSource") {
        return true;
    }
    if same(name, "Flash") {
        return true;
    }
    if same(name, "FlashEnergy") {
        return true;
    }
    if same(name, "FlashpixVersion") {
        return true;
    }
    if same(name, "FocalLength") {
        return true;
    }
    if same(name, "FocalLengthIn35mmFilm") {
        return true;
    }
    if same(name, "FocalPlaneResolutionUnit") {
        return true;
    }
    if same(name, "FocalPlaneXResolution") {
        return true;
    }
    if same(name, "FocalPlaneYResolution") {
        return true;
    }
    if same(name, "GPSAltitude") {
        return true;
    }
    if same(name, "GPSAltitudeRef") {
        return true;
    }
    if same(name, "GPSAreaInformation") {
        return true;
    }
    if same(name, "GPSDateStamp") {
        return true;
    }
    if same(name, "GPSDestBearing") {
        return true;
    }
    if same(name, "GPSDestBearingRef") {
        return true;
    }
    if same(name, "GPSDestDistance") {
        return true;
    }
    if same(name, "GPSDestDistanceRef") {
        return true;
    }
    if same(name, "GPSDestLatitude") {
        return true;
    }
    if same(name, "GPSDestLatitudeRef") {
        return true;
    }
    if same(name, "GPSDestLongitude") {
        return true;
    }
    if same(name, "GPSDestLongitudeRef") {
        return true;
    }
    if same(name, "GPSDifferential") {
        return true;
    }
    if same(name, "GPSDOP") {
        return true;
    }
    if same(name, "GPSHPositioningError") {
        return true;
    }
    if same(name, "GPSImgDirection") {
        return true;
    }
    if same(name, "GPSImgDirectionRef") {
        return true;
    }
    if same(name, "GPSInfoIFDPointer") {
        return true;
    }
    if same(name, "GPSLatitude") {
        return true;
    }
    if same(name, "GPSLatitudeRef") {
        return true;
    }
    if same(name, "GPSLongitude") {
        return true;
    }
    if same(name, "GPSLongitudeRef") {
        return true;
    }
    if same(name, "GPSMapDatum") {
        return true;
    }
    if same(name, "GPSMeasureMode") {
        return true;
    }
    if same(name, "GPSProcessingMethod") {
        return true;
    }
    if same(name, "GPSSatellites") {
        return true;
    }
    if same(name, "GPSSpeed") {
        return true;
    }
    if same(name, "GPSSpeedRef") {
        return true;
    }
    if same(name, "GPSStatus") {
        return true;
    }
    if same(name, "GPSTimeStamp") {
        return true;
    }
    if same(name, "GPSTrack") {
        return true;
    }
    if same(name, "GPSTrackRef") {
        return true;
    }
    if same(name, "GPSVersionID") {
        return true;
    }
    if same(name, "GainControl") {
        return true;
    }
    if same(name, "Gamma") {
        return true;
    }
    false
}

/// The names of standard EXIF tags from `H` to `O`.
pub open spec fn is_standard_h_to_o(name: Seq<char>) -> bool {
    ||| name == "Humidity"@
    ||| name == "ISO"@
    ||| name == "ISOSpeed"@
    ||| name == "ISOSpeedLatitudezzz"@
    ||| name == "ISOSpeedLatitudeyyy"@
    ||| name == "ISOSpeedRatings"@
    ||| name == "ImageDescription"@
    ||| name == "ImageHeight"@
    ||| name == "ImageLength"@
    ||| name == "ImageUniqueID"@
    ||| name == "ImageWidth"@
    ||| name == "InteropIFDPointer"@
    ||| name == "InteroperabilityIndex"@
    ||| name == "InteroperabilityVersion"@
    ||| name == "JPEGInterchangeFormat"@
    ||| name == "JPEGInterchangeFormatLength"@
    ||| name == "LensMake"@
    ||| name == "LensModel"@
    ||| name == "LensSerialNumber"@
    ||| name == "LensSpecification"@
    ||| name == "LightSource"@
    ||| name == "Make"@
    ||| name == "MakerNote"@
    ||| name == "MaxApertureValue"@
    ||| name == "MeteringMode"@
    ||| name == "Model"@
    ||| name == "OECF"@
    ||| name == "OffsetTime"@
    ||| name == "OffsetTimeDigitized"@
    ||| name == "OffsetTimeOriginal"@
    ||| name == "Orientation"@
}

fn standard_h_to_o(name: &str) -> (r: bool)
    ensures
        r == is_standard_h_to_o(name@),
{
    if same(name, "Humidity") {
        return true;
    }
    if same(name, "ISO") {
        return true;
    }
    if same(name, "ISOSpeed") {
        return true;
    }
    if same(name, "ISOSpeedLatitudezzz") {
        return true;
    }
    if same(name, "ISOSpeedLatitudeyyy") {
        return true;
    }
    if same(name, "ISOSpeedRatings") {
        return true;
    }
    if same(name, "ImageDescription") {
        return true;
    }
    if same(name, "ImageHeight") {
        return true;
    }
    if same(name, "ImageLength") {
        return true;
    }
    if same(name, "ImageUniqueID") {
        return true;
    }
    if same(name, "ImageWidth") {
        return true;
    }
    if same(name, "InteropIFDPointer") {
        return true;
    }
    if same(name, "InteroperabilityIndex") {
        return true;
    }
    if same(name, "InteroperabilityVersion") {
        return true;
    }
    if same(name, "JPEGInterchangeFormat") {
        return true;
    }
    if same(name, "JPEGInterchangeFormatLength") {
        return true;
    }
    if same(name, "LensMake") {
        return true;
    }
    if same(name, "LensModel") {
        return true;
    }
    if same(name, "LensSerialNumber") {
        return true;
    }
    if same(name, "LensSpecification") {
        return true;
    }
    if same(name, "LightSource") {
        return true;
    }
    if same(name, "Make") {
        return true;
    }
    if same(name, "MakerNote") {
        return true;
    }
    if same(name, "MaxApertureValue") {
        return true;
    }
    if same(name, "MeteringMode") {
        return true;
    }
    if same(name, "Model") {
        return true;
    }
    if same(name, "OECF") {
        return true;
    }
    if same(name, "OffsetTime") {
        return true;
    }
    if same(name, "OffsetTimeDigitized") {
        return true;
    }
    if same(name, "OffsetTimeOriginal") {
        return true;
    }
    if same(name, "Orientation") {
        return true;
    }
    false
}

/// The names of standard EXIF tags from `P` to `Z`.
pub open spec fn is_standard_p_to_z(name: Seq<char>) -> bool {
    ||| name == "PhotographicSensitivity"@
    ||| name == "PhotometricInterpretation"@
    ||| name == "PixelXDimension"@
    ||| name == "PixelYDimension"@
    ||| name == "PlanarConfiguration"@
    ||| name == "Pressure"@
    ||| name == "PrimaryChromaticities"@
    ||| name == "RecommendedExposureIndex"@
    ||| name == "ReferenceBlackWhite"@
    ||| name == "RelatedImageFileFormat"@
    ||| name == "RelatedImageLength"@
    ||| name == "RelatedImageWidth"@
    ||| name == "RelatedSoundFile"@
    ||| name == "ResolutionUnit"@
    ||| name == "RowsPerStrip"@
    ||| name == "SamplesPerPixel"@
    ||| name == "Saturation"@
    ||| name == "SceneCaptureType"@
    ||| name == "SceneType"@
    ||| name == "SensingMethod"@
    ||| name == "Sharpness"@
    ||| name == "ShutterSpeedValue"@
    ||| name == "Software"@
    ||| name == "SourceExposureTimesOfCompositeImage"@
    ||| name == "SourceImageNumberOfCompositeImage"@
    ||| name == "SpatialFrequencyResponse"@
    ||| name == "SpectralSensitivity"@
    ||| name == "StandardOutputSensitivity"@
    ||| name == "StripByteCounts"@
    ||| name == "StripOffsets"@
    ||| name == "SubSecTime"@
    ||| name == "SubSecTimeDigitized"@
    ||| name == "SubSecTimeOriginal"@
    ||| name == "SubjectArea"@
    ||| name == "SubjectDistance"@
    ||| name == "SubjectDistanceRange"@
    ||| name == "SubjectLocation"@
    ||| name == "Temperature"@
    ||| name == "TileByteCounts"@
    ||| name == "TileOffsets"@
    ||| name == "TransferFunction"@
    ||| name == "UserComment"@
    ||| name == "WaterDepth"@
    ||| name == "WhiteBalance"@
    ||| name == "WhitePoint"@
    ||| name == "XResolution"@
    ||| name == "YCbCrCoefficients"@
    ||| name == "YCbCrPositioning"@
    ||| name == "YCbCrSubSampling"@
    ||| name == "YResolution"@
}

fn standard_p_to_z(name: &str) -> (r: bool)
    ensures
        r == is_standard_p_to_z(name@),
{
    if same(name, "PhotographicSensitivity") {
        return true;
    }
    if same(name, "PhotometricInterpretation") {
        return true;
    }
    if same(name, "PixelXDimension") {
        return true;
    }
    if same(name, "PixelYDimension") {
        return true;
    }
    if same(name, "PlanarConfiguration") {
        return true;
    }
    if same(name, "Pressure") {
        return true;
    }
    if same(name, "PrimaryChromaticities") {
        return true;
    }
    if same(name, "RecommendedExposureIndex") {
        return true;
    }
    if same(name, "ReferenceBlackWhite") {
        return true;
    }
    if same(name, "RelatedImageFileFormat") {
        return true;
    }
    if same(name, "RelatedImageLength") {
        return true;
    }
    if same(name, "RelatedImageWidth") {
        return true;
    }
    if same(name, "RelatedSoundFile") {
        return true;
    }
    if same(name, "ResolutionUnit") {
        return true;
    }
    if same(name, "RowsPerStrip") {
        return true;
    }
    if same(name, "SamplesPerPixel") {
        return true;
    }
    if same(name, "Saturation") {
        return true;
    }
    if same(name, "SceneCaptureType") {
        return true;
    }
    if same(name, "SceneType") {
        return true;
    }
    if same(name, "SensingMethod") {
        return true;
    }
    if same(name, "Sharpness") {
        return true;
    }
    if same(name, "ShutterSpeedValue") {
        return true;
    }
    if same(name, "Software") {
        return true;
    }
    if same(name, "SourceExposureTimesOfCompositeImage") {
        return true;
    }
    if same(name, "SourceImageNumberOfCompositeImage") {
        return true;
    }
    if same(name, "SpatialFrequencyResponse") {
        return true;
    }
    if same(name, "SpectralSensitivity") {
        return true;
    }
    if same(name, "StandardOutputSensitivity") {
        return true;
    }
    if same(name, "StripByteCounts") {
        return true;
    }
    if same(name, "StripOffsets") {
        return true;
    }
    if same(name, "SubSecTime") {
        return true;
    }
    if same(name, "SubSecTimeDigitized") {
        return true;
    }
    if same(name, "SubSecTimeOriginal") {
        return true;
    }
    if same(name, "SubjectArea") {
        return true;
    }
    if same(name, "SubjectDistance") {
        return true;
    }
    if same(name, "SubjectDistanceRange") {
        return true;
    }
    if same(name, "SubjectLocation") {
        return true;
    }
    if same(name, "Temperature") {
        return true;
    }
    if same(name, "TileByteCounts") {
        return true;
    }
    if same(name, "TileOffsets") {
        return true;
    }
    if same(name, "TransferFunction") {
        return true;
    }
    if same(name, "UserComment") {
        return true;
    }
    if same(name, "WaterDepth") {
        return true;
    }
    if same(name, "WhiteBalance") {
        return true;
    }
    if same(name, "WhitePoint") {
        return true;
    }
    if same(name, "XResolution") {
        return true;
    }
    if same(name, "YCbCrCoefficients") {
        return true;
    }
    if same(name, "YCbCrPositioning") {
        return true;
    }
    if same(name, "YCbCrSubSampling") {
        return true;
    }
    if same(name, "YResolution") {
        return true;
    }
    false
}

/// The names of tags that the EXIF standard defines, and their usual aliases.
pub open spec fn is_standard_tag(name: Seq<char>) -> bool {
    ||| is_standard_a_to_e(name)
    ||| is_standard_f_to_g(name)
    ||| is_standard_h_to_o(name)
    ||| is_standard_p_to_z(name)
}

/// The names that a metadata file may use without a warning: standard tags, and
/// the key that is expanded to a position.
pub open spec fn is_known_tag(name: Seq<char>) -> bool {
    name == "$Location"@ || is_standard_tag(name)
}

/// Whether a name is that of a known tag.
pub fn is_known_metadata_tag(name: &str) -> (r: bool)
    ensures
        r == is_known_tag(name@),
{
    same(name, "$Location") || standard_a_to_e(name) || standard_f_to_g(name) || standard_h_to_o(
        name,
    ) || standard_p_to_z(name)
}

/// How many tags are known, how many are not, and which those are.
#[derive(Debug, PartialEq, Eq)]
pub struct TagCounts {
    pub standard: u128,
    pub unknown: u128,
    pub unknown_names: Vec<String>,
}

/// What tag counts say.
pub struct Counts {
    pub standard: nat,
    pub unknown: nat,
    pub unknown_names: Seq<Seq<char>>,
}

impl View for TagCounts {
    type V = Counts;

    open spec fn view(&self) -> Counts {
        Counts {
            standard: self.standard as nat,
            unknown: self.unknown as nat,
            unknown_names: texts(self.unknown_names@),
        }
    }
}

pub open spec fn no_counts() -> Counts {
    Counts { standard: 0, unknown: 0, unknown_names: Seq::empty() }
}

/// `names` with `name` behind them, unless it is among them.
pub open spec fn with_name(names: Seq<Seq<char>>, name: Seq<char>) -> Seq<Seq<char>> {
    if names.contains(name) {
        names
    } else {
        names.push(name)
    }
}

/// `names` with each of `more` that is not among them yet.
pub open spec fn with_names(names: Seq<Seq<char>>, more: Seq<Seq<char>>) -> Seq<Seq<char>>
    decreases more.len(),
{
    if more.len() == 0 {
        names
    } else {
        with_name(with_names(names, more.drop_last()), more.last())
    }
}

impl Counts {
    /// The counts with one more tag.
    pub open spec fn with_tag(self, name: Seq<char>) -> Counts {
        if is_known_tag(name) {
            Counts { standard: self.standard + 1, ..self }
        } else {
            Counts {
                unknown: self.unknown + 1,
                unknown_names: with_name(self.unknown_names, name),
                ..self
            }
        }
    }

    /// The counts of both together.
    pub open spec fn merged(self, next: Counts) -> Counts {
        Counts {
            standard: self.standard + next.standard,
            unknown: self.unknown + next.unknown,
            unknown_names: with_names(self.unknown_names, next.unknown_names),
        }
    }

    /// All tags that were counted.
    pub open spec fn total(self) -> nat {
        self.standard + self.unknown
    }
}

impl Default for TagCounts {
    fn default() -> (r: TagCounts)
        ensures
            r@ == no_counts(),
    {
        let r = TagCounts { standard: 0, unknown: 0, unknown_names: Vec::new() };
        proof {
            assert(texts(r.unknown_names@) =~= Seq::empty());
        }
        r
    }
}

fn add_name(names: &mut Vec<String>, name: &str)
    ensures
        texts(final(names)@) == with_name(texts(old(names)@), name@),
{
    let ghost before = texts(names@);
    if !list_contains(names, name) {
        names.push(name.to_owned());
        proof {
            assert(texts(names@) =~= before.push(name@));
        }
    }
}

/// Counts a tag.
pub fn count_tag(name: &str, counts: &mut TagCounts)
    requires
        old(counts)@.total() < u128::MAX,
    ensures
        final(counts)@ == old(counts)@.with_tag(name@),
        final(counts)@.total() == old(counts)@.total() + 1,
{
    if is_known_metadata_tag(name) {
        counts.standard += 1;
    } else {
        counts.unknown += 1;
        add_name(&mut counts.unknown_names, name);
    }
}

/// Adds one count to another.
pub fn merge_tag_counts(counts: &mut TagCounts, next: &TagCounts)
    requires
        old(counts)@.total() + next@.total() <= u128::MAX,
    ensures
        final(counts)@ == old(counts)@.merged(next@),
        final(counts)@.total() == old(counts)@.total() + next@.total(),
{
    counts.standard += next.standard;
    counts.unknown += next.unknown;
    let ghost before = texts(counts.unknown_names@);
    let ghost more = texts(next.unknown_names@);
    let mut i: usize = 0;
    while i < next.unknown_names.len()
        invariant
            i <= next.unknown_names@.len(),
            more == texts(next.unknown_names@),
            counts.standard == old(counts).standard + next.standard,
            counts.unknown == old(counts).unknown + next.unknown,
            texts(counts.unknown_names@) == with_names(before, more.take(i as int)),
        decreases next.unknown_names@.len() - i,
    {
        proof {
            assert(more.take(i + 1).drop_last() =~= more.take(i as int));
        }
        add_name(&mut counts.unknown_names, next.unknown_names[i].as_str());
        i += 1;
    }
    proof {
        assert(more.take(more.len() as int) =~= more);
    }
}

/// The counts of the tags that a list of names names.
pub open spec fn counts_of(names: Seq<Seq<char>>) -> Counts
    decreases names.len(),
{
    if names.len() == 0 {
        no_counts()
    } else {
        counts_of(names.drop_last()).with_tag(names.last())
    }
}

/// The names that the entries of a tag mapping are filed under, where all of
/// them are texts.
pub open spec fn tag_names(entries: Seq<(Yaml, Yaml)>) -> Option<Seq<Seq<char>>>
    decreases entries.len(),
{
    if entries.len() == 0 {
        Some(Seq::empty())
    } else {
        match (tag_names(entries.drop_last()), text_of(entries.last().0)) {
            (Some(names), Some(name)) => Some(names.push(name)),
            _ => None,
        }
    }
}

/// A key that is no text leaves a mapping without names, whatever stands behind
/// it.
proof fn lemma_bad_key_spoils(entries: Seq<(Yaml, Yaml)>, i: int)
    requires
        0 <= i < entries.len(),
        text_of(entries[i].0) is None,
    ensures
        tag_names(entries) is None,
    decreases entries.len(),
{
    if i < entries.len() - 1 {
        lemma_bad_key_spoils(entries.drop_last(), i);
    }
}

/// Counts the tags of a mapping; its keys must be texts.
pub fn check_tag_mapping(entries: &Vec<(Value, Value)>, context: &str) -> (r: Result<
    TagCounts,
    String,
>)
    ensures
        match r {
            Ok(counts) => {
                &&& tag_names(entries_contents(entries@)) is Some
                &&& counts@ == counts_of(tag_names(entries_contents(entries@))->Some_0)
                &&& counts@.total() == entries@.len()
            },
            Err(error) => {
                &&& tag_names(entries_contents(entries@)) is None
                &&& error@ == "metadata YAML `"@ + context@ + "` tag keys must be strings"@
            },
        },
{
    let mut counts = TagCounts::default();
    let ghost all = entries_contents(entries@);
    let mut i: usize = 0;
    while i < entries.len()
        invariant
            i <= entries@.len(),
            all == entries_contents(entries@),
            tag_names(all.take(i as int)) is Some,
            counts@ == counts_of(tag_names(all.take(i as int))->Some_0),
            counts@.total() == i,
        decreases entries@.len() - i,
    {
        proof {
            assert(all.take(i + 1).drop_last() =~= all.take(i as int));
            assert(all.take(i + 1).last() == all[i as int]);
        }
        match as_text(&entries[i].0) {
            Some(name) => {
                proof {
                    let before = tag_names(all.take(i as int))->Some_0;
                    assert(before.push(name@).drop_last() =~= before);
                }
                count_tag(name.as_str(), &mut counts);
            },
            None => {
                proof {
                    lemma_bad_key_spoils(all, i as int);
                }
                let mut error = "metadata YAML `".to_owned();
                error.push_str(context);
                error.push_str("` tag keys must be strings");
                return Err(error);
            },
        }
        i += 1;
    }
    proof {
        assert(all.take(all.len() as int) =~= all);
    }
    Ok(counts)
}

/// What is said of a tag with an unknown name.
pub open spec fn tag_warning(context: Seq<char>, name: Seq<char>) -> Seq<char> {
    context + " tag is non-standard `"@ + name + "`"@
}

/// One warning for each unknown name.
pub open spec fn tag_warning_texts(context: Seq<char>, names: Seq<Seq<char>>) -> Seq<Seq<char>> {
    names.map_values(|name: Seq<char>| tag_warning(context, name))
}

/// What there is to warn about in some tags.
pub fn tag_warnings(context: &str, counts: &TagCounts) -> (r: Vec<String>)
    ensures
        texts(r@) == tag_warning_texts(context@, counts@.unknown_names),
{
    let mut out: Vec<String> = Vec::new();
    let mut i: usize = 0;
    while i < counts.unknown_names.len()
        invariant
            i <= counts.unknown_names@.len(),
            out@.len() == i,
            forall|j: int|
                0 <= j < i ==> (#[trigger] out@[j])@ == tag_warning(
                    context@,
                    counts.unknown_names@[j]@,
                ),
        decreases counts.unknown_names@.len() - i,
    {
        let mut warning = context.to_owned();
        warning.push_str(" tag is non-standard `");
        warning.push_str(counts.unknown_names[i].as_str());
        warning.push_str("`");
        out.push(warning);
        i += 1;
    }
    proof {
        assert(texts(out@) =~= tag_warning_texts(context@, counts@.unknown_names));
    }
    out
}

/// No unknown name is listed twice, however often the tag occurs.
pub proof fn law_unknown_names_are_distinct(names: Seq<Seq<char>>)
    ensures
        counts_of(names).unknown_names.no_duplicates(),
    decreases names.len(),
{
    if names.len() > 0 {
        law_unknown_names_are_distinct(names.drop_last());
        lemma_with_name_distinct(counts_of(names.drop_last()).unknown_names, names.last());
    }
}

proof fn lemma_with_name_distinct(names: Seq<Seq<char>>, name: Seq<char>)
    requires
        names.no_duplicates(),
    ensures
        with_name(names, name).no_duplicates(),
{
    if !names.contains(name) {
        let r = names.push(name);
        assert forall|i: int, j: int| 0 <= i < r.len() && 0 <= j < r.len() && i != j implies r[i]
            != r[j] by {
            if i == names.len() {
                assert(names.contains(names[j]));
            }
            if j == names.len() {
                assert(names.contains(names[i]));
            }
        }
    }
}

/// Counts with distinct unknown names stay so when other counts are merged in.
pub proof fn law_merged_names_are_distinct(counts: Counts, next: Counts)
    requires
        counts.unknown_names.no_duplicates(),
    ensures
        counts.merged(next).unknown_names.no_duplicates(),
    decreases next.unknown_names.len(),
{
    if next.unknown_names.len() > 0 {
        let shorter = Counts { unknown_names: next.unknown_names.drop_last(), ..next };
        law_merged_names_are_distinct(counts, shorter);
        lemma_with_name_distinct(
            with_names(counts.unknown_names, next.unknown_names.drop_last()),
            next.unknown_names.last(),
        );
    }
}

/// Every tag is counted once: as known or as unknown.
pub proof fn law_every_tag_is_counted(names: Seq<Seq<char>>)
    ensures
        counts_of(names).total() == names.len(),
    decreases names.len(),
{
    if names.len() > 0 {
        law_every_tag_is_counted(names.drop_last());
    }
}

} // verus!
