//! The labels of tags: how they are spelled out, and which group they belong to.

use crate::text::{
    chars_of, is_digit, is_digit_char, is_letter, is_lower, is_lower_char, is_upper, is_upper_char,
    join, join_texts, lower, lower_char, lower_text, lowercase_chars, lowercase_mapping, same,
    starts_with, text_starts_with, text_words, texts, upper, upper_char, white_space, words,
};
use crate::group_laws::{lemma_files_have_a_group, lemma_tags_have_groups};
use vstd::prelude::*;

verus! {

// ---------------------------------------------------------------------------
// Spelling out
// ---------------------------------------------------------------------------
/// Whether a word starts at position `i` of a name that is written in one: at a
/// capital behind a small letter, at a digit behind a letter, or at the last of
/// several capitals where a small letter follows.
pub open spec fn starts_word(name: Seq<char>, i: int) -> bool {
    &&& 0 < i < name.len()
    &&& {
        ||| is_lower(name[i - 1]) && is_upper(name[i])
        ||| is_letter(name[i - 1]) && is_digit(name[i])
        ||| is_upper(name[i - 1]) && is_upper(name[i]) && i + 1 < name.len() && is_lower(
            name[i + 1],
        )
    }
}

/// The first `n` characters of a name, with a blank before each word.
pub open spec fn spaced(name: Seq<char>, n: int) -> Seq<char>
    decreases n,
{
    if n <= 0 {
        Seq::empty()
    } else {
        (if starts_word(name, n - 1) {
            spaced(name, n - 1).push(' ')
        } else {
            spaced(name, n - 1)
        }).push(name[n - 1])
    }
}

/// A name with blanks between its words.
pub fn decamelcase_tag_name(name: &str) -> (r: String)
    ensures
        r@ == spaced(name@, name@.len() as int),
{
    let cs = chars_of(name);
    let mut out = String::new();
    let mut i: usize = 0;
    while i < cs.len()
        invariant
            i <= cs@.len(),
            cs@ == name@,
            out@ == spaced(name@, i as int),
        decreases cs@.len() - i,
    {
        let current = cs[i];
        let new_word = if i > 0 {
            let previous = cs[i - 1];
            let small_next = i + 1 < cs.len() && is_lower_char(cs[i + 1]);
            (is_lower_char(previous) && is_upper_char(current)) || ((is_lower_char(previous)
                || is_upper_char(previous)) && is_digit_char(current)) || (is_upper_char(previous)
                && is_upper_char(current) && small_next)
        } else {
            false
        };
        if new_word {
            out.push(' ');
        }
        out.push(current);
        i += 1;
    }
    out
}

/// Whether a word has nothing but capitals and digits.
pub open spec fn is_acronym(word: Seq<char>) -> bool {
    forall|i: int| 0 <= i < word.len() ==> is_upper(#[trigger] word[i]) || is_digit(word[i])
}

/// A word with a capital first, and small letters behind it.
pub open spec fn capitalized(word: Seq<char>) -> Seq<char> {
    Seq::new(word.len(), |i: int| if i == 0 { upper(word[i]) } else { lower(word[i]) })
}

/// A word of a title: an acronym as it is, any other capitalized.
pub open spec fn title_word(word: Seq<char>) -> Seq<char> {
    if is_acronym(word) {
        word
    } else {
        capitalized(word)
    }
}

/// A word with a capital at its start.
pub fn title_case_word(word: &str) -> (r: String)
    ensures
        r@ == title_word(word@),
{
    let cs = chars_of(word);
    let mut acronym = true;
    let mut out = String::new();
    let mut i: usize = 0;
    while i < cs.len()
        invariant
            i <= cs@.len(),
            cs@ == word@,
            acronym == (forall|k: int|
                0 <= k < i ==> is_upper(#[trigger] word@[k]) || is_digit(word@[k])),
            out@ =~= capitalized(word@).take(i as int),
        decreases cs@.len() - i,
    {
        let c = cs[i];
        if !is_upper_char(c) && !is_digit_char(c) {
            acronym = false;
            proof {
                assert(!is_upper(word@[i as int]) && !is_digit(word@[i as int]));
            }
        }
        if i == 0 {
            out.push(upper_char(c));
        } else {
            out.push(lower_char(c));
        }
        i += 1;
    }
    if acronym {
        return word.to_owned();
    }
    proof {
        assert(capitalized(word@).take(word@.len() as int) =~= capitalized(word@));
    }
    out
}

/// The name of a tag as a title.
pub open spec fn title_of(name: Seq<char>) -> Seq<char> {
    join(
        words(spaced(name, name.len() as int)).map_values(|word: Seq<char>| title_word(word)),
        " "@,
    )
}

/// A name as a title.
pub fn title_case_tag_name(name: &str) -> (r: String)
    ensures
        r@ == title_of(name@),
{
    let parts = text_words(decamelcase_tag_name(name).as_str());
    let ghost all = texts(parts@);
    let mut titles: Vec<String> = Vec::new();
    let mut i: usize = 0;
    while i < parts.len()
        invariant
            i <= parts@.len(),
            titles@.len() == i,
            forall|k: int| 0 <= k < i ==> (#[trigger] titles@[k])@ == title_word(parts@[k]@),
        decreases parts@.len() - i,
    {
        titles.push(title_case_word(parts[i].as_str()));
        i += 1;
    }
    proof {
        assert(texts(titles@) =~= all.map_values(|word: Seq<char>| title_word(word)));
    }
    join_texts(&titles, " ")
}

// ---------------------------------------------------------------------------
// Groups
// ---------------------------------------------------------------------------
/// A label without white space and in lower case.
pub open spec fn normal_label(label: Seq<char>) -> Seq<char>
    decreases label.len(),
{
    if label.len() == 0 {
        Seq::empty()
    } else if white_space(label.last()) {
        normal_label(label.drop_last())
    } else {
        normal_label(label.drop_last()) + lowercase_mapping(label.last())
    }
}

/// Whether every character of a label is an ASCII letter or a decimal digit.
pub open spec fn is_one_word(label: Seq<char>) -> bool {
    forall|i: int| 0 <= i < label.len() ==> is_letter(#[trigger] label[i]) || is_digit(label[i])
}

/// Whether each ASCII character of a label has its ASCII lowercase letter for its
/// lowercase mapping.
pub open spec fn lowers_plainly(label: Seq<char>) -> bool {
    forall|i: int|
        0 <= i < label.len() && (#[trigger] label[i] as u32) < 128 ==> lowercase_mapping(label[i])
            == seq![lower(label[i])]
}

/// A label without blanks and case.
pub fn normalized_label(label: &str) -> (r: String)
    ensures
        r@ == normal_label(label@),
        is_one_word(label@) ==> normal_label(label@) == lower_text(label@),
        lowers_plainly(label@),
{
    let cs = chars_of(label);
    let mut out = String::new();
    let mut i: usize = 0;
    while i < cs.len()
        invariant
            i <= cs@.len(),
            cs@ == label@,
            out@ == normal_label(label@.take(i as int)),
            is_one_word(label@) ==> out@ =~= lower_text(label@.take(i as int)),
            lowers_plainly(label@.take(i as int)),
        decreases cs@.len() - i,
    {
        proof {
            assert(label@.take(i + 1).drop_last() =~= label@.take(i as int));
            assert(label@.take(i + 1) =~= label@.take(i as int).push(label@[i as int]));
            if is_one_word(label@) {
                assert(is_letter(label@[i as int]) || is_digit(label@[i as int]));
            }
        }
        let lowered = lowercase_chars(cs[i]);
        proof {
            assert forall|k: int|
                0 <= k < i + 1 && (#[trigger] label@.take(i + 1)[k] as u32) < 128 implies lowercase_mapping(
                label@.take(i + 1)[k],
            ) == seq![lower(label@.take(i + 1)[k])] by {
                if k < i {
                    assert(label@.take(i + 1)[k] == label@.take(i as int)[k]);
                }
            }
        }
        if !cs[i].is_whitespace() {
            let ghost before = out@;
            let mut k: usize = 0;
            while k < lowered.len()
                invariant
                    k <= lowered@.len(),
                    out@ =~= before + lowered@.take(k as int),
                decreases lowered@.len() - k,
            {
                out.push(lowered[k]);
                k += 1;
            }
            proof {
                assert(lowered@.take(lowered@.len() as int) =~= lowered@);
            }
        }
        i += 1;
    }
    proof {
        assert(label@.take(label@.len() as int) =~= label@);
    }
    out
}

/// The groups that a reading is shown in.
#[derive(Debug, Clone, Copy, PartialEq, Eq, Structural)]
pub enum PrettyReadGroup {
    File,
    Camera,
    Film,
    Custom,
    Exposure,
    Gps,
    Misc,
}

/// The place of a group.
pub open spec fn group_rank(group: PrettyReadGroup) -> int {
    match group {
        PrettyReadGroup::File => 0,
        PrettyReadGroup::Camera => 1,
        PrettyReadGroup::Film => 2,
        PrettyReadGroup::Exposure => 3,
        PrettyReadGroup::Gps => 4,
        PrettyReadGroup::Custom => 5,
        PrettyReadGroup::Misc => 6,
    }
}

/// The group at a place.
pub open spec fn group_at(rank: int) -> PrettyReadGroup {
    if rank == 0 {
        PrettyReadGroup::File
    } else if rank == 1 {
        PrettyReadGroup::Camera
    } else if rank == 2 {
        PrettyReadGroup::Film
    } else if rank == 3 {
        PrettyReadGroup::Exposure
    } else if rank == 4 {
        PrettyReadGroup::Gps
    } else if rank == 5 {
        PrettyReadGroup::Custom
    } else {
        PrettyReadGroup::Misc
    }
}

/// The heading of a group.
pub open spec fn group_label(group: PrettyReadGroup) -> Seq<char> {
    match group {
        PrettyReadGroup::File => "file"@,
        PrettyReadGroup::Camera => "camera"@,
        PrettyReadGroup::Film => "film"@,
        PrettyReadGroup::Custom => "custom"@,
        PrettyReadGroup::Exposure => "exposure"@,
        PrettyReadGroup::Gps => "gps"@,
        PrettyReadGroup::Misc => "misc"@,
    }
}

impl PrettyReadGroup {
    /// The group at a place of the output.
    pub fn at(rank: usize) -> (r: PrettyReadGroup)
        ensures
            r == group_at(rank as int),
    {
        if rank == 0 {
            PrettyReadGroup::File
        } else if rank == 1 {
            PrettyReadGroup::Camera
        } else if rank == 2 {
            PrettyReadGroup::Film
        } else if rank == 3 {
            PrettyReadGroup::Exposure
        } else if rank == 4 {
            PrettyReadGroup::Gps
        } else if rank == 5 {
            PrettyReadGroup::Custom
        } else {
            PrettyReadGroup::Misc
        }
    }

    /// The place of a group in the output.
    pub fn output_order(self) -> (r: usize)
        ensures
            r == group_rank(self),
    {
        match self {
            PrettyReadGroup::File => 0,
            PrettyReadGroup::Camera => 1,
            PrettyReadGroup::Film => 2,
            PrettyReadGroup::Exposure => 3,
            PrettyReadGroup::Gps => 4,
            PrettyReadGroup::Custom => 5,
            PrettyReadGroup::Misc => 6,
        }
    }

    /// The heading of a group.
    pub fn label(self) -> (r: &'static str)
        ensures
            r@ == group_label(self),
    {
        match self {
            PrettyReadGroup::File => "file",
            PrettyReadGroup::Camera => "camera",
            PrettyReadGroup::Film => "film",
            PrettyReadGroup::Custom => "custom",
            PrettyReadGroup::Exposure => "exposure",
            PrettyReadGroup::Gps => "gps",
            PrettyReadGroup::Misc => "misc",
        }
    }
}

/// Labels of what is known of the file itself.
pub open spec fn is_info_label(label: Seq<char>) -> bool {
    let n = normal_label(label);
    ||| n == "filename"@
    ||| n == "directory"@
    ||| n == "filesize"@
    ||| n == "filemodificationdate/time"@
    ||| n == "fileaccessdate/time"@
    ||| n == "filecreationdate/time"@
    ||| n == "filepermissions"@
    ||| n == "filetype"@
    ||| n == "filetypeextension"@
    ||| n == "mimetype"@
}

/// The group of a row on the file.
pub open spec fn info_group(label: Seq<char>) -> PrettyReadGroup {
    if is_info_label(label) {
        PrettyReadGroup::File
    } else {
        PrettyReadGroup::Misc
    }
}

/// The group of a row on the file.
pub fn classify_info_label(label: &str) -> (r: PrettyReadGroup)
    ensures
        r == info_group(label@),
        label@ == "File Name"@ || label@ == "Directory"@ || label@ == "File Size"@ || label@
            == "File Modification Date/Time"@ || label@ == "File Access Date/Time"@ || label@
            == "File Creation Date/Time"@ || label@ == "File Permissions"@ || label@
            == "File Type"@ || label@ == "File Type Extension"@ || label@ == "MIME Type"@
            ==> r == PrettyReadGroup::File,
        label@ == "Exif Byte Order"@ ==> r == PrettyReadGroup::Misc,
{
    let normal = normalized_label(label);
    proof {
        lemma_files_have_a_group(label@);
    }
    let n = normal.as_str();
    if same(n, "filename") || same(n, "directory") || same(n, "filesize") || same(
        n,
        "filemodificationdate/time",
    ) || same(n, "fileaccessdate/time") || same(n, "filecreationdate/time") || same(
        n,
        "filepermissions",
    ) || same(n, "filetype") || same(n, "filetypeextension") || same(n, "mimetype") {
        PrettyReadGroup::File
    } else {
        PrettyReadGroup::Misc
    }
}

/// Labels of tags on the position.
pub open spec fn is_gps(label: Seq<char>) -> bool {
    starts_with(normal_label(label), "gps"@)
}

/// Whether a label starts with a prefix, whatever its white space and case.
pub fn normalized_label_starts_with(label: &str, prefix: &str) -> (r: bool)
    ensures
        r == starts_with(normal_label(label@), prefix@),
{
    text_starts_with(normalized_label(label).as_str(), prefix)
}

/// Labels of tags on the file.
pub open spec fn is_file(label: Seq<char>) -> bool {
    normal_label(label) != "filesource"@ && starts_with(normal_label(label), "file"@)
}

/// Whether a label belongs to the file.
pub fn is_file_label(label: &str) -> (r: bool)
    ensures
        r == is_file(label@),
{
    let normal = normalized_label(label);
    !same(normal.as_str(), "filesource") && text_starts_with(normal.as_str(), "file")
}

/// Labels of tags on the camera and its lens.
pub open spec fn is_camera(label: Seq<char>) -> bool {
    let n = normal_label(label);
    ||| n == "make"@
    ||| n == "model"@
    ||| n == "filesource"@
    ||| n == "focallength"@
    ||| n == "focallengthin35mmfilm"@
    ||| n == "maxaperturevalue"@
    ||| n == "lensmake"@
    ||| n == "lensmodel"@
    ||| starts_with(n, "camera"@)
    ||| starts_with(n, "lens"@)
}

/// Whether a label belongs to the camera.
pub fn is_camera_label(label: &str) -> (r: bool)
    ensures
        r == is_camera(label@),
{
    let normal = normalized_label(label);
    let n = normal.as_str();
    same(n, "make") || same(n, "model") || same(n, "filesource") || same(n, "focallength") || same(
        n,
        "focallengthin35mmfilm",
    ) || same(n, "maxaperturevalue") || same(n, "lensmake") || same(n, "lensmodel")
        || text_starts_with(n, "camera") || text_starts_with(n, "lens")
}

/// Labels of tags on the film and its development.
pub open spec fn is_film(label: Seq<char>) -> bool {
    let n = normal_label(label);
    ||| n == "filmroll"@
    ||| n == "filmmaker"@
    ||| n == "filmname"@
    ||| n == "filmformat"@
    ||| n == "filmcolor"@
    ||| n == "filmnegative"@
    ||| n == "filmdevelopprocess"@
    ||| n == "filmdeveloper"@
    ||| n == "filmprocesslab"@
    ||| n == "filmprocessdate"@
    ||| n == "filmscanner"@
    ||| starts_with(n, "analoguedata"@)
}

/// Whether a label belongs to the film.
pub fn is_film_label(label: &str) -> (r: bool)
    ensures
        r == is_film(label@),
{
    let normal = normalized_label(label);
    let n = normal.as_str();
    same(n, "filmroll") || same(n, "filmmaker") || same(n, "filmname") || same(n, "filmformat")
        || same(n, "filmcolor") || same(n, "filmnegative") || same(n, "filmdevelopprocess") || same(
        n,
        "filmdeveloper",
    ) || same(n, "filmprocesslab") || same(n, "filmprocessdate") || same(n, "filmscanner")
        || text_starts_with(n, "analoguedata")
}

/// Labels of tags on the exposure.
pub open spec fn is_exposure(label: Seq<char>) -> bool {
    let n = normal_label(label);
    ||| n == "exposuretime"@
    ||| n == "fnumber"@
    ||| n == "isospeedratings"@
    ||| n == "iso"@
    ||| n == "isospeed"@
    ||| n == "shutterspeedvalue"@
    ||| n == "aperturevalue"@
    ||| n == "brightnessvalue"@
    ||| n == "exposurebiasvalue"@
    ||| n == "exposuremode"@
    ||| n == "exposureprogram"@
    ||| n == "maxaperturevalue"@
    ||| n == "meteringmode"@
    ||| n == "photographicsensitivity"@
    ||| n == "sensitivitytype"@
    ||| n == "lightsource"@
    ||| n == "flash"@
}

/// Whether a label belongs to the exposure.
pub fn is_exposure_label(label: &str) -> (r: bool)
    ensures
        r == is_exposure(label@),
{
    let normal = normalized_label(label);
    let n = normal.as_str();
    same(n, "exposuretime") || same(n, "fnumber") || same(n, "isospeedratings") || same(n, "iso")
        || same(n, "isospeed") || same(n, "shutterspeedvalue") || same(n, "aperturevalue") || same(
        n,
        "brightnessvalue",
    ) || same(n, "exposurebiasvalue") || same(n, "exposuremode") || same(n, "exposureprogram")
        || same(n, "maxaperturevalue") || same(n, "meteringmode") || same(
        n,
        "photographicsensitivity",
    ) || same(n, "sensitivitytype") || same(n, "lightsource") || same(n, "flash")
}

/// The group of a tag, by its context, its name and its title: the position
/// first, then the film, the exposure, the camera, and the file.
pub open spec fn tag_group(
    context: Seq<char>,
    name: Seq<char>,
    title: Seq<char>,
) -> PrettyReadGroup {
    if context == "Gps"@ || is_gps(name) || is_gps(title) {
        PrettyReadGroup::Gps
    } else if is_film(name) || is_film(title) {
        PrettyReadGroup::Film
    } else if is_exposure(name) || is_exposure(title) {
        PrettyReadGroup::Exposure
    } else if is_camera(name) || is_camera(title) {
        PrettyReadGroup::Camera
    } else if is_file(name) || is_file(title) {
        PrettyReadGroup::File
    } else {
        PrettyReadGroup::Misc
    }
}

/// Whether two labels differ in nothing but blanks and case.
pub open spec fn same_label(one: Seq<char>, other: Seq<char>) -> bool {
    normal_label(one) == normal_label(other)
}

/// The group of a tag. Tags with names of EXIF are in the group that they tell of.
pub fn classify_tag(context: &str, name: &str, title: &str) -> (r: PrettyReadGroup)
    ensures
        r == tag_group(context@, name@, title@),
        same_label(name@, title@) && context@ != "Gps"@ && (
        name@ == "Make"@ || name@ == "Model"@ || name@ == "FileSource"@ || name@ == "FocalLength"@
            || name@ == "FocalLengthIn35mmFilm"@ || name@ == "LensMake"@ || name@ == "LensModel"@
            || name@ == "LensSpecification"@ || name@ == "LensSerialNumber"@
            || name@ == "CameraOwnerName"@) ==> r == PrettyReadGroup::Camera,
        same_label(name@, title@) && context@ != "Gps"@ && (
        name@ == "FilmRoll"@ || name@ == "FilmMaker"@ || name@ == "FilmName"@
            || name@ == "FilmFormat"@ || name@ == "FilmColor"@ || name@ == "FilmNegative"@
            || name@ == "FilmDevelopProcess"@ || name@ == "FilmDeveloper"@
            || name@ == "FilmProcessLab"@ || name@ == "FilmProcessDate"@
            || name@ == "FilmScanner"@) ==> r == PrettyReadGroup::Film,
        same_label(name@, title@) && context@ != "Gps"@ && (
        name@ == "ExposureTime"@ || name@ == "FNumber"@ || name@ == "ISOSpeedRatings"@
            || name@ == "ISO"@ || name@ == "ISOSpeed"@ || name@ == "ShutterSpeedValue"@
            || name@ == "ApertureValue"@ || name@ == "BrightnessValue"@
            || name@ == "ExposureBiasValue"@ || name@ == "ExposureMode"@
            || name@ == "ExposureProgram"@ || name@ == "MaxApertureValue"@
            || name@ == "MeteringMode"@ || name@ == "PhotographicSensitivity"@
            || name@ == "SensitivityType"@ || name@ == "LightSource"@ || name@ == "Flash"@)
            ==> r == PrettyReadGroup::Exposure,
        same_label(name@, title@) && context@ != "Gps"@ && (
        name@ == "GPSLatitude"@ || name@ == "GPSLongitude"@ || name@ == "GPSAltitude"@
            || name@ == "GPSMapDatum"@) ==> r == PrettyReadGroup::Gps,
        same_label(name@, title@) && context@ != "Gps"@ && (
        name@ == "Artist"@ || name@ == "Copyright"@ || name@ == "Software"@
            || name@ == "ImageDescription"@ || name@ == "DateTimeOriginal"@
            || name@ == "Orientation"@ || name@ == "ColorSpace"@ || name@ == "WhiteBalance"@
            || name@ == "UserComment"@) ==> r == PrettyReadGroup::Misc,
{
    let own = normalized_label(name);
    proof {
        lemma_tags_have_groups(name@, title@);
    }
    if same(context, "Gps") || normalized_label_starts_with(name, "gps")
        || normalized_label_starts_with(title, "gps") {
        PrettyReadGroup::Gps
    } else if is_film_label(name) || is_film_label(title) {
        PrettyReadGroup::Film
    } else if is_exposure_label(name) || is_exposure_label(title) {
        PrettyReadGroup::Exposure
    } else if is_camera_label(name) || is_camera_label(title) {
        PrettyReadGroup::Camera
    } else if is_file_label(name) || is_file_label(title) {
        PrettyReadGroup::File
    } else {
        PrettyReadGroup::Misc
    }
}

} // verus!
