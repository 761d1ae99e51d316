//! Which group of a reading the tags of EXIF belong to.

use crate::labels::{
    info_group, is_one_word, lowers_plainly, normal_label, same_label, tag_group, PrettyReadGroup,
};
use crate::text::{lower, lower_text, lowercase_mapping, starts_with};
use vstd::prelude::*;

verus! {

proof fn lemma_starts(text: Seq<char>, prefix: Seq<char>)
    ensures
        starts_with(text, prefix) <==> prefix.len() <= text.len() && forall|i: int|
            0 <= i < prefix.len() ==> #[trigger] text[i] == prefix[i],
{
    if starts_with(text, prefix) {
        assert forall|i: int| 0 <= i < prefix.len() implies #[trigger] text[i] == prefix[i] by {
            assert(text.subrange(0, prefix.len() as int)[i] == text[i]);
        }
    } else if prefix.len() <= text.len() && forall|i: int|
        0 <= i < prefix.len() ==> #[trigger] text[i] == prefix[i] {
        assert(text.subrange(0, prefix.len() as int) =~= prefix);
    }
}

proof fn lemma_labels_differ()
    ensures
        "gps"@.len() == 3 && "gps"@[0] == 'g',
        "filesource"@.len() == 10 && "filesource"@[3] == 'e',
        "file"@.len() == 4 && "file"@[0] == 'f',
        "make"@.len() == 4 && "make"@[0] == 'm',
        "model"@.len() == 5 && "model"@[0] == 'm',
        "focallength"@.len() == 11 && "focallength"@[1] == 'o',
        "focallengthin35mmfilm"@.len() == 21,
        "maxaperturevalue"@.len() == 16 && "maxaperturevalue"@[0] == 'm',
        "lensmake"@.len() == 8 && "lensmake"@[0] == 'l',
        "lensmodel"@.len() == 9 && "lensmodel"@[0] == 'l',
        "camera"@.len() == 6 && "camera"@[0] == 'c',
        "lens"@.len() == 4 && "lens"@[0] == 'l',
        "filmroll"@.len() == 8 && "filmroll"@[0] == 'f' && "filmroll"@[4] == 'r',
        "filmmaker"@.len() == 9 && "filmmaker"@[0] == 'f' && "filmmaker"@[4] == 'm',
        "filmname"@.len() == 8 && "filmname"@[0] == 'f' && "filmname"@[4] == 'n',
        "filmformat"@.len() == 10 && "filmformat"@[3] == 'm',
        "filmcolor"@.len() == 9 && "filmcolor"@[0] == 'f' && "filmcolor"@[4] == 'c',
        "filmnegative"@.len() == 12 && "filmnegative"@[0] == 'f',
        "filmdevelopprocess"@.len() == 18,
        "filmdeveloper"@.len() == 13 && "filmdeveloper"@[0] == 'f',
        "filmprocesslab"@.len() == 14,
        "filmprocessdate"@.len() == 15 && "filmprocessdate"@[0] == 'f',
        "filmscanner"@.len() == 11 && "filmscanner"@[0] == 'f' && "filmscanner"@[1] == 'i',
        "analoguedata"@.len() == 12 && "analoguedata"@[0] == 'a',
        "exposuretime"@.len() == 12 && "exposuretime"@[0] == 'e' && "exposuretime"@[8] == 't',
        "fnumber"@.len() == 7,
        "isospeedratings"@.len() == 15 && "isospeedratings"@[0] == 'i',
        "iso"@.len() == 3 && "iso"@[0] == 'i',
        "isospeed"@.len() == 8 && "isospeed"@[0] == 'i',
        "shutterspeedvalue"@.len() == 17 && "shutterspeedvalue"@[0] == 's',
        "aperturevalue"@.len() == 13 && "aperturevalue"@[0] == 'a',
        "brightnessvalue"@.len() == 15 && "brightnessvalue"@[0] == 'b',
        "exposurebiasvalue"@.len() == 17 && "exposurebiasvalue"@[0] == 'e',
        "exposuremode"@.len() == 12 && "exposuremode"@[0] == 'e' && "exposuremode"@[8] == 'm',
        "exposureprogram"@.len() == 15 && "exposureprogram"@[0] == 'e',
        "meteringmode"@.len() == 12 && "meteringmode"@[0] == 'm',
        "photographicsensitivity"@.len() == 23,
        "sensitivitytype"@.len() == 15 && "sensitivitytype"@[0] == 's',
        "lightsource"@.len() == 11 && "lightsource"@[0] == 'l' && "lightsource"@[1] == 'i',
        "flash"@.len() == 5 && "flash"@[0] == 'f',
        "lensspecification"@.len() == 17 && "lensspecification"@[0] == 'l',
        "lensserialnumber"@.len() == 16 && "lensserialnumber"@[0] == 'l',
        "cameraownername"@.len() == 15 && "cameraownername"@[0] == 'c',
        "gpslatitude"@.len() == 11 && "gpslatitude"@[1] == 'p' && "gpslatitude"@[3] == 'l',
        "gpslongitude"@.len() == 12 && "gpslongitude"@[0] == 'g',
        "gpsaltitude"@.len() == 11 && "gpsaltitude"@[1] == 'p' && "gpsaltitude"@[3] == 'a',
        "gpsmapdatum"@.len() == 11 && "gpsmapdatum"@[1] == 'p' && "gpsmapdatum"@[3] == 'm',
        "artist"@.len() == 6 && "artist"@[0] == 'a',
        "copyright"@.len() == 9 && "copyright"@[0] == 'c',
        "software"@.len() == 8 && "software"@[0] == 's',
        "imagedescription"@.len() == 16 && "imagedescription"@[0] == 'i',
        "datetimeoriginal"@.len() == 16 && "datetimeoriginal"@[0] == 'd',
        "orientation"@.len() == 11 && "orientation"@[1] == 'r',
        "colorspace"@.len() == 10 && "colorspace"@[3] == 'o',
        "whitebalance"@.len() == 12 && "whitebalance"@[0] == 'w',
        "usercomment"@.len() == 11 && "usercomment"@[1] == 's',
{
    reveal_strlit("gps");
    reveal_strlit("filesource");
    reveal_strlit("file");
    reveal_strlit("make");
    reveal_strlit("model");
    reveal_strlit("focallength");
    reveal_strlit("focallengthin35mmfilm");
    reveal_strlit("maxaperturevalue");
    reveal_strlit("lensmake");
    reveal_strlit("lensmodel");
    reveal_strlit("camera");
    reveal_strlit("lens");
    reveal_strlit("filmroll");
    reveal_strlit("filmmaker");
    reveal_strlit("filmname");
    reveal_strlit("filmformat");
    reveal_strlit("filmcolor");
    reveal_strlit("filmnegative");
    reveal_strlit("filmdevelopprocess");
    reveal_strlit("filmdeveloper");
    reveal_strlit("filmprocesslab");
    reveal_strlit("filmprocessdate");
    reveal_strlit("filmscanner");
    reveal_strlit("analoguedata");
    reveal_strlit("exposuretime");
    reveal_strlit("fnumber");
    reveal_strlit("isospeedratings");
    reveal_strlit("iso");
    reveal_strlit("isospeed");
    reveal_strlit("shutterspeedvalue");
    reveal_strlit("aperturevalue");
    reveal_strlit("brightnessvalue");
    reveal_strlit("exposurebiasvalue");
    reveal_strlit("exposuremode");
    reveal_strlit("exposureprogram");
    reveal_strlit("meteringmode");
    reveal_strlit("photographicsensitivity");
    reveal_strlit("sensitivitytype");
    reveal_strlit("lightsource");
    reveal_strlit("flash");
    reveal_strlit("lensspecification");
    reveal_strlit("lensserialnumber");
    reveal_strlit("cameraownername");
    reveal_strlit("gpslatitude");
    reveal_strlit("gpslongitude");
    reveal_strlit("gpsaltitude");
    reveal_strlit("gpsmapdatum");
    reveal_strlit("artist");
    reveal_strlit("copyright");
    reveal_strlit("software");
    reveal_strlit("imagedescription");
    reveal_strlit("datetimeoriginal");
    reveal_strlit("orientation");
    reveal_strlit("colorspace");
    reveal_strlit("whitebalance");
    reveal_strlit("usercomment");
}

/// Tags with names of EXIF belong to the group that they tell of, under any title that
/// spells the name.
pub proof fn lemma_tags_have_groups(name: Seq<char>, title: Seq<char>)
    requires
        is_one_word(name) ==> normal_label(name) == lower_text(name),
    ensures
        same_label(name, title) && (name == "Make"@ || name == "Model"@ || name == "FileSource"@ || name == "FocalLength"@ || name == "FocalLengthIn35mmFilm"@ || name == "LensMake"@ || name == "LensModel"@ || name == "LensSpecification"@ || name == "LensSerialNumber"@ || name == "CameraOwnerName"@) ==> is_of_group(name, title, PrettyReadGroup::Camera),
        same_label(name, title) && (name == "FilmRoll"@ || name == "FilmMaker"@ || name == "FilmName"@ || name == "FilmFormat"@ || name == "FilmColor"@ || name == "FilmNegative"@ || name == "FilmDevelopProcess"@ || name == "FilmDeveloper"@ || name == "FilmProcessLab"@ || name == "FilmProcessDate"@ || name == "FilmScanner"@) ==> is_of_group(name, title, PrettyReadGroup::Film),
        same_label(name, title) && (name == "ExposureTime"@ || name == "FNumber"@ || name == "ISOSpeedRatings"@ || name == "ISO"@ || name == "ISOSpeed"@ || name == "ShutterSpeedValue"@ || name == "ApertureValue"@ || name == "BrightnessValue"@ || name == "ExposureBiasValue"@ || name == "ExposureMode"@ || name == "ExposureProgram"@ || name == "MaxApertureValue"@ || name == "MeteringMode"@ || name == "PhotographicSensitivity"@ || name == "SensitivityType"@ || name == "LightSource"@ || name == "Flash"@) ==> is_of_group(name, title, PrettyReadGroup::Exposure),
        same_label(name, title) && (name == "GPSLatitude"@ || name == "GPSLongitude"@ || name == "GPSAltitude"@ || name == "GPSMapDatum"@) ==> is_of_group(name, title, PrettyReadGroup::Gps),
        same_label(name, title) && (name == "Artist"@ || name == "Copyright"@ || name == "Software"@ || name == "ImageDescription"@ || name == "DateTimeOriginal"@ || name == "Orientation"@ || name == "ColorSpace"@ || name == "WhiteBalance"@ || name == "UserComment"@) ==> is_of_group(name, title, PrettyReadGroup::Misc),
{
    lemma_labels_differ();
    let normal = normal_label(name);
    lemma_starts(normal, "gps"@);
    lemma_starts(normal, "file"@);
    lemma_starts(normal, "camera"@);
    lemma_starts(normal, "lens"@);
    lemma_starts(normal, "analoguedata"@);
    reveal_strlit("gps");
    reveal_strlit("file");
    reveal_strlit("camera");
    reveal_strlit("lens");
    reveal_strlit("analoguedata");
    if name == "Make"@ {
        reveal_strlit("Make");
        reveal_strlit("make");
        assert(is_one_word(name));
        assert(normal =~= "make"@);
        assert(normal[0] == 'm' && normal[1] == 'a');
    }
    if name == "Model"@ {
        reveal_strlit("Model");
        reveal_strlit("model");
        assert(is_one_word(name));
        assert(normal =~= "model"@);
        assert(normal[0] == 'm' && normal[1] == 'o');
    }
    if name == "FileSource"@ {
        reveal_strlit("FileSource");
        reveal_strlit("filesource");
        assert(is_one_word(name));
        assert(normal =~= "filesource"@);
        assert(normal[0] == 'f' && normal[1] == 'i');
    }
    if name == "FocalLength"@ {
        reveal_strlit("FocalLength");
        reveal_strlit("focallength");
        assert(is_one_word(name));
        assert(normal =~= "focallength"@);
        assert(normal[0] == 'f' && normal[1] == 'o');
    }
    if name == "FocalLengthIn35mmFilm"@ {
        reveal_strlit("FocalLengthIn35mmFilm");
        reveal_strlit("focallengthin35mmfilm");
        assert(is_one_word(name));
        assert(normal =~= "focallengthin35mmfilm"@);
        assert(normal[0] == 'f' && normal[1] == 'o');
    }
    if name == "LensMake"@ {
        reveal_strlit("LensMake");
        reveal_strlit("lensmake");
        assert(is_one_word(name));
        assert(normal =~= "lensmake"@);
        assert(normal[0] == 'l' && normal[1] == 'e');
    }
    if name == "LensModel"@ {
        reveal_strlit("LensModel");
        reveal_strlit("lensmodel");
        assert(is_one_word(name));
        assert(normal =~= "lensmodel"@);
        assert(normal[0] == 'l' && normal[1] == 'e');
    }
    if name == "LensSpecification"@ {
        reveal_strlit("LensSpecification");
        reveal_strlit("lensspecification");
        assert(is_one_word(name));
        assert(normal =~= "lensspecification"@);
        assert(normal[0] == 'l' && normal[1] == 'e');
    }
    if name == "LensSerialNumber"@ {
        reveal_strlit("LensSerialNumber");
        reveal_strlit("lensserialnumber");
        assert(is_one_word(name));
        assert(normal =~= "lensserialnumber"@);
        assert(normal[0] == 'l' && normal[1] == 'e');
    }
    if name == "CameraOwnerName"@ {
        reveal_strlit("CameraOwnerName");
        reveal_strlit("cameraownername");
        assert(is_one_word(name));
        assert(normal =~= "cameraownername"@);
        assert(normal[0] == 'c' && normal[1] == 'a');
    }
    if name == "FilmRoll"@ {
        reveal_strlit("FilmRoll");
        reveal_strlit("filmroll");
        assert(is_one_word(name));
        assert(normal =~= "filmroll"@);
        assert(normal[0] == 'f' && normal[1] == 'i');
    }
    if name == "FilmMaker"@ {
        reveal_strlit("FilmMaker");
        reveal_strlit("filmmaker");
        assert(is_one_word(name));
        assert(normal =~= "filmmaker"@);
        assert(normal[0] == 'f' && normal[1] == 'i');
    }
    if name == "FilmName"@ {
        reveal_strlit("FilmName");
        reveal_strlit("filmname");
        assert(is_one_word(name));
        assert(normal =~= "filmname"@);
        assert(normal[0] == 'f' && normal[1] == 'i');
    }
    if name == "FilmFormat"@ {
        reveal_strlit("FilmFormat");
        reveal_strlit("filmformat");
        assert(is_one_word(name));
        assert(normal =~= "filmformat"@);
        assert(normal[0] == 'f' && normal[1] == 'i');
    }
    if name == "FilmColor"@ {
        reveal_strlit("FilmColor");
        reveal_strlit("filmcolor");
        assert(is_one_word(name));
        assert(normal =~= "filmcolor"@);
        assert(normal[0] == 'f' && normal[1] == 'i');
    }
    if name == "FilmNegative"@ {
        reveal_strlit("FilmNegative");
        reveal_strlit("filmnegative");
        assert(is_one_word(name));
        assert(normal =~= "filmnegative"@);
        assert(normal[0] == 'f' && normal[1] == 'i');
    }
    if name == "FilmDevelopProcess"@ {
        reveal_strlit("FilmDevelopProcess");
        reveal_strlit("filmdevelopprocess");
        assert(is_one_word(name));
        assert(normal =~= "filmdevelopprocess"@);
        assert(normal[0] == 'f' && normal[1] == 'i');
    }
    if name == "FilmDeveloper"@ {
        reveal_strlit("FilmDeveloper");
        reveal_strlit("filmdeveloper");
        assert(is_one_word(name));
        assert(normal =~= "filmdeveloper"@);
        assert(normal[0] == 'f' && normal[1] == 'i');
    }
    if name == "FilmProcessLab"@ {
        reveal_strlit("FilmProcessLab");
        reveal_strlit("filmprocesslab");
        assert(is_one_word(name));
        assert(normal =~= "filmprocesslab"@);
        assert(normal[0] == 'f' && normal[1] == 'i');
    }
    if name == "FilmProcessDate"@ {
        reveal_strlit("FilmProcessDate");
        reveal_strlit("filmprocessdate");
        assert(is_one_word(name));
        assert(normal =~= "filmprocessdate"@);
        assert(normal[0] == 'f' && normal[1] == 'i');
    }
    if name == "FilmScanner"@ {
        reveal_strlit("FilmScanner");
        reveal_strlit("filmscanner");
        assert(is_one_word(name));
        assert(normal =~= "filmscanner"@);
        assert(normal[0] == 'f' && normal[1] == 'i');
    }
    if name == "ExposureTime"@ {
        reveal_strlit("ExposureTime");
        reveal_strlit("exposuretime");
        assert(is_one_word(name));
        assert(normal =~= "exposuretime"@);
        assert(normal[0] == 'e' && normal[1] == 'x');
    }
    if name == "FNumber"@ {
        reveal_strlit("FNumber");
        reveal_strlit("fnumber");
        assert(is_one_word(name));
        assert(normal =~= "fnumber"@);
        assert(normal[0] == 'f' && normal[1] == 'n');
    }
    if name == "ISOSpeedRatings"@ {
        reveal_strlit("ISOSpeedRatings");
        reveal_strlit("isospeedratings");
        assert(is_one_word(name));
        assert(normal =~= "isospeedratings"@);
        assert(normal[0] == 'i' && normal[1] == 's');
    }
    if name == "ISO"@ {
        reveal_strlit("ISO");
        reveal_strlit("iso");
        assert(is_one_word(name));
        assert(normal =~= "iso"@);
        assert(normal[0] == 'i' && normal[1] == 's');
    }
    if name == "ISOSpeed"@ {
        reveal_strlit("ISOSpeed");
        reveal_strlit("isospeed");
        assert(is_one_word(name));
        assert(normal =~= "isospeed"@);
        assert(normal[0] == 'i' && normal[1] == 's');
    }
    if name == "ShutterSpeedValue"@ {
        reveal_strlit("ShutterSpeedValue");
        reveal_strlit("shutterspeedvalue");
        assert(is_one_word(name));
        assert(normal =~= "shutterspeedvalue"@);
        assert(normal[0] == 's' && normal[1] == 'h');
    }
    if name == "ApertureValue"@ {
        reveal_strlit("ApertureValue");
        reveal_strlit("aperturevalue");
        assert(is_one_word(name));
        assert(normal =~= "aperturevalue"@);
        assert(normal[0] == 'a' && normal[1] == 'p');
    }
    if name == "BrightnessValue"@ {
        reveal_strlit("BrightnessValue");
        reveal_strlit("brightnessvalue");
        assert(is_one_word(name));
        assert(normal =~= "brightnessvalue"@);
        assert(normal[0] == 'b' && normal[1] == 'r');
    }
    if name == "ExposureBiasValue"@ {
        reveal_strlit("ExposureBiasValue");
        reveal_strlit("exposurebiasvalue");
        assert(is_one_word(name));
        assert(normal =~= "exposurebiasvalue"@);
        assert(normal[0] == 'e' && normal[1] == 'x');
    }
    if name == "ExposureMode"@ {
        reveal_strlit("ExposureMode");
        reveal_strlit("exposuremode");
        assert(is_one_word(name));
        assert(normal =~= "exposuremode"@);
        assert(normal[0] == 'e' && normal[1] == 'x');
    }
    if name == "ExposureProgram"@ {
        reveal_strlit("ExposureProgram");
        reveal_strlit("exposureprogram");
        assert(is_one_word(name));
        assert(normal =~= "exposureprogram"@);
        assert(normal[0] == 'e' && normal[1] == 'x');
    }
    if name == "MaxApertureValue"@ {
        reveal_strlit("MaxApertureValue");
        reveal_strlit("maxaperturevalue");
        assert(is_one_word(name));
        assert(normal =~= "maxaperturevalue"@);
        assert(normal[0] == 'm' && normal[1] == 'a');
    }
    if name == "MeteringMode"@ {
        reveal_strlit("MeteringMode");
        reveal_strlit("meteringmode");
        assert(is_one_word(name));
        assert(normal =~= "meteringmode"@);
        assert(normal[0] == 'm' && normal[1] == 'e');
    }
    if name == "PhotographicSensitivity"@ {
        reveal_strlit("PhotographicSensitivity");
        reveal_strlit("photographicsensitivity");
        assert(is_one_word(name));
        assert(normal =~= "photographicsensitivity"@);
        assert(normal[0] == 'p' && normal[1] == 'h');
    }
    if name == "SensitivityType"@ {
        reveal_strlit("SensitivityType");
        reveal_strlit("sensitivitytype");
        assert(is_one_word(name));
        assert(normal =~= "sensitivitytype"@);
        assert(normal[0] == 's' && normal[1] == 'e');
    }
    if name == "LightSource"@ {
        reveal_strlit("LightSource");
        reveal_strlit("lightsource");
        assert(is_one_word(name));
        assert(normal =~= "lightsource"@);
        assert(normal[0] == 'l' && normal[1] == 'i');
    }
    if name == "Flash"@ {
        reveal_strlit("Flash");
        reveal_strlit("flash");
        assert(is_one_word(name));
        assert(normal =~= "flash"@);
        assert(normal[0] == 'f' && normal[1] == 'l');
    }
    if name == "GPSLatitude"@ {
        reveal_strlit("GPSLatitude");
        reveal_strlit("gpslatitude");
        assert(is_one_word(name));
        assert(normal =~= "gpslatitude"@);
        assert(normal[0] == 'g' && normal[1] == 'p');
    }
    if name == "GPSLongitude"@ {
        reveal_strlit("GPSLongitude");
        reveal_strlit("gpslongitude");
        assert(is_one_word(name));
        assert(normal =~= "gpslongitude"@);
        assert(normal[0] == 'g' && normal[1] == 'p');
    }
    if name == "GPSAltitude"@ {
        reveal_strlit("GPSAltitude");
        reveal_strlit("gpsaltitude");
        assert(is_one_word(name));
        assert(normal =~= "gpsaltitude"@);
        assert(normal[0] == 'g' && normal[1] == 'p');
    }
    if name == "GPSMapDatum"@ {
        reveal_strlit("GPSMapDatum");
        reveal_strlit("gpsmapdatum");
        assert(is_one_word(name));
        assert(normal =~= "gpsmapdatum"@);
        assert(normal[0] == 'g' && normal[1] == 'p');
    }
    if name == "Artist"@ {
        reveal_strlit("Artist");
        reveal_strlit("artist");
        assert(is_one_word(name));
        assert(normal =~= "artist"@);
        assert(normal[0] == 'a' && normal[1] == 'r');
    }
    if name == "Copyright"@ {
        reveal_strlit("Copyright");
        reveal_strlit("copyright");
        assert(is_one_word(name));
        assert(normal =~= "copyright"@);
        assert(normal[0] == 'c' && normal[1] == 'o');
    }
    if name == "Software"@ {
        reveal_strlit("Software");
        reveal_strlit("software");
        assert(is_one_word(name));
        assert(normal =~= "software"@);
        assert(normal[0] == 's' && normal[1] == 'o');
    }
    if name == "ImageDescription"@ {
        reveal_strlit("ImageDescription");
        reveal_strlit("imagedescription");
        assert(is_one_word(name));
        assert(normal =~= "imagedescription"@);
        assert(normal[0] == 'i' && normal[1] == 'm');
    }
    if name == "DateTimeOriginal"@ {
        reveal_strlit("DateTimeOriginal");
        reveal_strlit("datetimeoriginal");
        assert(is_one_word(name));
        assert(normal =~= "datetimeoriginal"@);
        assert(normal[0] == 'd' && normal[1] == 'a');
    }
    if name == "Orientation"@ {
        reveal_strlit("Orientation");
        reveal_strlit("orientation");
        assert(is_one_word(name));
        assert(normal =~= "orientation"@);
        assert(normal[0] == 'o' && normal[1] == 'r');
    }
    if name == "ColorSpace"@ {
        reveal_strlit("ColorSpace");
        reveal_strlit("colorspace");
        assert(is_one_word(name));
        assert(normal =~= "colorspace"@);
        assert(normal[0] == 'c' && normal[1] == 'o');
    }
    if name == "WhiteBalance"@ {
        reveal_strlit("WhiteBalance");
        reveal_strlit("whitebalance");
        assert(is_one_word(name));
        assert(normal =~= "whitebalance"@);
        assert(normal[0] == 'w' && normal[1] == 'h');
    }
    if name == "UserComment"@ {
        reveal_strlit("UserComment");
        reveal_strlit("usercomment");
        assert(is_one_word(name));
        assert(normal =~= "usercomment"@);
        assert(normal[0] == 'u' && normal[1] == 's');
    }
}

/// Whether a tag that EXIF does not file with the position belongs to a group.
pub open spec fn is_of_group(name: Seq<char>, title: Seq<char>, group: PrettyReadGroup) -> bool {
    forall|context: Seq<char>| context != "Gps"@ ==> #[trigger] tag_group(context, name, title) == group
}

proof fn lemma_normal_parts(a: Seq<char>, b: Seq<char>)
    ensures
        normal_label(a + b) == normal_label(a) + normal_label(b),
    decreases b.len(),
{
    if b.len() == 0 {
        assert(a + b =~= a);
        assert(normal_label(a) + normal_label(b) =~= normal_label(a));
    } else {
        let rest = b.drop_last();
        assert((a + b).drop_last() =~= a + rest);
        assert((a + b).last() == b.last());
        lemma_normal_parts(a, rest);
        assert(normal_label(a + b) =~= normal_label(a) + normal_label(b));
    }
}

proof fn lemma_normal_word(word: Seq<char>)
    requires
        lowers_plainly(word),
        forall|i: int|
            0 <= i < word.len() ==> 0x20 < (#[trigger] word[i] as u32) < 128,
    ensures
        normal_label(word) == lower_text(word),
    decreases word.len(),
{
    if word.len() > 0 {
        let rest = word.drop_last();
        assert forall|i: int| 0 <= i < rest.len() implies 0x20 < (#[trigger] rest[i] as u32) < 128 by {
            assert(rest[i] == word[i]);
        }
        assert forall|i: int|
            0 <= i < rest.len() && (#[trigger] rest[i] as u32) < 128 implies lowercase_mapping(rest[i])
            == seq![lower(rest[i])] by {
            assert(rest[i] == word[i]);
        }
        lemma_normal_word(rest);
        let c = word[word.len() - 1];
        assert(0x20 < (c as u32) < 128);
        assert(lowercase_mapping(c) == seq![lower(c)]);
        assert(normal_label(word) =~= lower_text(word));
    } else {
        assert(normal_label(word) =~= lower_text(word));
    }
}

proof fn lemma_normal_words(before: Seq<char>, word: Seq<char>)
    requires
        lowers_plainly(before + seq![' '] + word),
        forall|i: int|
            0 <= i < word.len() ==> 0x20 < (#[trigger] word[i] as u32) < 128,
    ensures
        normal_label(before + seq![' '] + word) == normal_label(before) + lower_text(word),
        lowers_plainly(before),
{
    let label = before + seq![' '] + word;
    assert forall|i: int|
        0 <= i < word.len() && (#[trigger] word[i] as u32) < 128 implies lowercase_mapping(word[i])
        == seq![lower(word[i])] by {
        assert(label[before.len() + 1 + i] == word[i]);
    }
    assert forall|i: int|
        0 <= i < before.len() && (#[trigger] before[i] as u32) < 128 implies lowercase_mapping(
        before[i],
    ) == seq![lower(before[i])] by {
        assert(label[i] == before[i]);
    }
    lemma_normal_word(word);
    lemma_normal_parts(before + seq![' '], word);
    assert((before + seq![' ']).drop_last() =~= before);
    assert((before + seq![' ']).last() == ' ');
}

proof fn lemma_label_filename(label: Seq<char>)
    requires
        label == "File Name"@,
        lowers_plainly(label),
    ensures
        normal_label(label) == "filename"@,
{
    reveal_strlit("File Name");
    reveal_strlit("filename");
    reveal_strlit("File");
    reveal_strlit("Name");
    assert(label =~= "File"@ + seq![' '] + "Name"@);
    lemma_normal_words("File"@, "Name"@);
    lemma_normal_word("File"@);
    assert(normal_label(label) =~= "filename"@);
}

proof fn lemma_label_directory(label: Seq<char>)
    requires
        label == "Directory"@,
        lowers_plainly(label),
    ensures
        normal_label(label) == "directory"@,
{
    reveal_strlit("Directory");
    reveal_strlit("directory");
    lemma_normal_word(label);
    assert(normal_label(label) =~= "directory"@);
}

proof fn lemma_label_filesize(label: Seq<char>)
    requires
        label == "File Size"@,
        lowers_plainly(label),
    ensures
        normal_label(label) == "filesize"@,
{
    reveal_strlit("File Size");
    reveal_strlit("filesize");
    reveal_strlit("File");
    reveal_strlit("Size");
    assert(label =~= "File"@ + seq![' '] + "Size"@);
    lemma_normal_words("File"@, "Size"@);
    lemma_normal_word("File"@);
    assert(normal_label(label) =~= "filesize"@);
}

proof fn lemma_label_filemodificationdate_time(label: Seq<char>)
    requires
        label == "File Modification Date/Time"@,
        lowers_plainly(label),
    ensures
        normal_label(label) == "filemodificationdate/time"@,
{
    reveal_strlit("File Modification Date/Time");
    reveal_strlit("filemodificationdate/time");
    reveal_strlit("File");
    reveal_strlit("Modification");
    reveal_strlit("Date/Time");
    let start = "File"@ + seq![' '] + "Modification"@;
    assert(label =~= start + seq![' '] + "Date/Time"@);
    lemma_normal_words(start, "Date/Time"@);
    lemma_normal_words("File"@, "Modification"@);
    lemma_normal_word("File"@);
    assert(normal_label(label) =~= "filemodificationdate/time"@);
}

proof fn lemma_label_fileaccessdate_time(label: Seq<char>)
    requires
        label == "File Access Date/Time"@,
        lowers_plainly(label),
    ensures
        normal_label(label) == "fileaccessdate/time"@,
{
    reveal_strlit("File Access Date/Time");
    reveal_strlit("fileaccessdate/time");
    reveal_strlit("File");
    reveal_strlit("Access");
    reveal_strlit("Date/Time");
    let start = "File"@ + seq![' '] + "Access"@;
    assert(label =~= start + seq![' '] + "Date/Time"@);
    lemma_normal_words(start, "Date/Time"@);
    lemma_normal_words("File"@, "Access"@);
    lemma_normal_word("File"@);
    assert(normal_label(label) =~= "fileaccessdate/time"@);
}

proof fn lemma_label_filecreationdate_time(label: Seq<char>)
    requires
        label == "File Creation Date/Time"@,
        lowers_plainly(label),
    ensures
        normal_label(label) == "filecreationdate/time"@,
{
    reveal_strlit("File Creation Date/Time");
    reveal_strlit("filecreationdate/time");
    reveal_strlit("File");
    reveal_strlit("Creation");
    reveal_strlit("Date/Time");
    let start = "File"@ + seq![' '] + "Creation"@;
    assert(label =~= start + seq![' '] + "Date/Time"@);
    lemma_normal_words(start, "Date/Time"@);
    lemma_normal_words("File"@, "Creation"@);
    lemma_normal_word("File"@);
    assert(normal_label(label) =~= "filecreationdate/time"@);
}

proof fn lemma_label_filepermissions(label: Seq<char>)
    requires
        label == "File Permissions"@,
        lowers_plainly(label),
    ensures
        normal_label(label) == "filepermissions"@,
{
    reveal_strlit("File Permissions");
    reveal_strlit("filepermissions");
    reveal_strlit("File");
    reveal_strlit("Permissions");
    assert(label =~= "File"@ + seq![' '] + "Permissions"@);
    lemma_normal_words("File"@, "Permissions"@);
    lemma_normal_word("File"@);
    assert(normal_label(label) =~= "filepermissions"@);
}

proof fn lemma_label_filetype(label: Seq<char>)
    requires
        label == "File Type"@,
        lowers_plainly(label),
    ensures
        normal_label(label) == "filetype"@,
{
    reveal_strlit("File Type");
    reveal_strlit("filetype");
    reveal_strlit("File");
    reveal_strlit("Type");
    assert(label =~= "File"@ + seq![' '] + "Type"@);
    lemma_normal_words("File"@, "Type"@);
    lemma_normal_word("File"@);
    assert(normal_label(label) =~= "filetype"@);
}

proof fn lemma_label_filetypeextension(label: Seq<char>)
    requires
        label == "File Type Extension"@,
        lowers_plainly(label),
    ensures
        normal_label(label) == "filetypeextension"@,
{
    reveal_strlit("File Type Extension");
    reveal_strlit("filetypeextension");
    reveal_strlit("File");
    reveal_strlit("Type");
    reveal_strlit("Extension");
    let start = "File"@ + seq![' '] + "Type"@;
    assert(label =~= start + seq![' '] + "Extension"@);
    lemma_normal_words(start, "Extension"@);
    lemma_normal_words("File"@, "Type"@);
    lemma_normal_word("File"@);
    assert(normal_label(label) =~= "filetypeextension"@);
}

proof fn lemma_label_mimetype(label: Seq<char>)
    requires
        label == "MIME Type"@,
        lowers_plainly(label),
    ensures
        normal_label(label) == "mimetype"@,
{
    reveal_strlit("MIME Type");
    reveal_strlit("mimetype");
    reveal_strlit("MIME");
    reveal_strlit("Type");
    assert(label =~= "MIME"@ + seq![' '] + "Type"@);
    lemma_normal_words("MIME"@, "Type"@);
    lemma_normal_word("MIME"@);
    assert(normal_label(label) =~= "mimetype"@);
}

proof fn lemma_label_exifbyteorder(label: Seq<char>)
    requires
        label == "Exif Byte Order"@,
        lowers_plainly(label),
    ensures
        normal_label(label) == "exifbyteorder"@,
{
    reveal_strlit("Exif Byte Order");
    reveal_strlit("exifbyteorder");
    reveal_strlit("Exif");
    reveal_strlit("Byte");
    reveal_strlit("Order");
    let start = "Exif"@ + seq![' '] + "Byte"@;
    assert(label =~= start + seq![' '] + "Order"@);
    lemma_normal_words(start, "Order"@);
    lemma_normal_words("Exif"@, "Byte"@);
    lemma_normal_word("Exif"@);
    assert(normal_label(label) =~= "exifbyteorder"@);
}

/// What is told of a file belongs to the group of the file, but for the byte order of
/// its metadata.
pub proof fn lemma_files_have_a_group(label: Seq<char>)
    requires
        lowers_plainly(label),
    ensures
        label == "File Name"@ ==> info_group(label) == PrettyReadGroup::File,
        label == "Directory"@ ==> info_group(label) == PrettyReadGroup::File,
        label == "File Size"@ ==> info_group(label) == PrettyReadGroup::File,
        label == "File Modification Date/Time"@ ==> info_group(label) == PrettyReadGroup::File,
        label == "File Access Date/Time"@ ==> info_group(label) == PrettyReadGroup::File,
        label == "File Creation Date/Time"@ ==> info_group(label) == PrettyReadGroup::File,
        label == "File Permissions"@ ==> info_group(label) == PrettyReadGroup::File,
        label == "File Type"@ ==> info_group(label) == PrettyReadGroup::File,
        label == "File Type Extension"@ ==> info_group(label) == PrettyReadGroup::File,
        label == "MIME Type"@ ==> info_group(label) == PrettyReadGroup::File,
        label == "Exif Byte Order"@ ==> info_group(label) == PrettyReadGroup::Misc,
{
    if label == "File Name"@ {
        lemma_label_filename(label);
    }
    if label == "Directory"@ {
        lemma_label_directory(label);
    }
    if label == "File Size"@ {
        lemma_label_filesize(label);
    }
    if label == "File Modification Date/Time"@ {
        lemma_label_filemodificationdate_time(label);
    }
    if label == "File Access Date/Time"@ {
        lemma_label_fileaccessdate_time(label);
    }
    if label == "File Creation Date/Time"@ {
        lemma_label_filecreationdate_time(label);
    }
    if label == "File Permissions"@ {
        lemma_label_filepermissions(label);
    }
    if label == "File Type"@ {
        lemma_label_filetype(label);
    }
    if label == "File Type Extension"@ {
        lemma_label_filetypeextension(label);
    }
    if label == "MIME Type"@ {
        lemma_label_mimetype(label);
    }
    if label == "Exif Byte Order"@ {
        lemma_label_exifbyteorder(label);
        reveal_strlit("filename");
        reveal_strlit("directory");
        reveal_strlit("filesize");
        reveal_strlit("filemodificationdate/time");
        reveal_strlit("fileaccessdate/time");
        reveal_strlit("filecreationdate/time");
        reveal_strlit("filepermissions");
        reveal_strlit("filetype");
        reveal_strlit("filetypeextension");
        reveal_strlit("mimetype");
        reveal_strlit("exifbyteorder");
        assert("exifbyteorder"@[0] == 'e');
        assert(forall|text: Seq<char>| #[trigger] text.len() != 13 ==> text != "exifbyteorder"@);
    }
}

} // verus!
