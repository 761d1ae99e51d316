//! Which EXIF tags a strip removes, and how the strip of one image goes on.

use crate::cli::{StripArgs, WriteArgs};
use crate::exif_data::{field_views, ExifField, FieldView, TagContext};
use crate::text::{
    append_texts, chars_of, contains_text, hex4, hex4_text, is_digit, is_digit_char, is_letter,
    is_lower_char, is_upper_char, list_contains, lower, lower_char, same, split_on, starts_with,
    text_contains, text_split, text_starts_with, text_trim, texts, trim,
};
use crate::writable::{directories, TagGroup};
use vstd::prelude::*;

verus! {

// ---------------------------------------------------------------------------
// Names of tags
// ---------------------------------------------------------------------------
/// The name of a tag without anything but ASCII letters, in lower case, and
/// digits.
pub open spec fn normal_name(name: Seq<char>) -> Seq<char>
    decreases name.len(),
{
    if name.len() == 0 {
        Seq::empty()
    } else {
        let before = normal_name(name.drop_last());
        if is_letter(name.last()) || is_digit(name.last()) {
            before.push(lower(name.last()))
        } else {
            before
        }
    }
}

/// A name of a tag without case and separators.
pub fn normalized_strip_tag_name(name: &str) -> (r: String)
    ensures
        r@ == normal_name(name@),
{
    let cs = chars_of(name);
    let mut out = String::new();
    let mut i: usize = 0;
    while i < cs.len()
        invariant
            i <= cs@.len(),
            cs@ == name@,
            out@ == normal_name(name@.take(i as int)),
        decreases cs@.len() - i,
    {
        let c = cs[i];
        proof {
            assert(name@.take(i + 1).drop_last() =~= name@.take(i as int));
        }
        if is_lower_char(c) || is_upper_char(c) || is_digit_char(c) {
            out.push(lower_char(c));
        }
        i += 1;
    }
    proof {
        assert(name@.take(name@.len() as int) =~= name@);
    }
    out
}

/// The normal names that a name stands for: its own, and those of the tags that
/// are known under it.
pub open spec fn tag_aliases(name: Seq<char>) -> Seq<Seq<char>> {
    let normal = normal_name(name);
    if normal == "photographer"@ {
        seq!["artist"@]
    } else if normal == "iso"@ || normal == "isospeed"@ || normal == "isospeedratings"@ || normal
        == "photographicsensitivity"@ {
        seq!["iso"@, "isospeed"@, "isospeedratings"@, "photographicsensitivity"@]
    } else if normal == "createdate"@ || normal == "datetimedigitized"@ {
        seq!["createdate"@, "datetimedigitized"@]
    } else if normal == "modifydate"@ || normal == "datetime"@ {
        seq!["modifydate"@, "datetime"@]
    } else if normal == "predictor"@ {
        seq!["predictor"@, "0x013d"@]
    } else if normal == "icc"@ || normal == "iccprofile"@ || normal == "intercolorprofile"@ {
        seq!["iccprofile"@, "0x8773"@]
    } else {
        seq![normal]
    }
}

fn list1(a: &str) -> (r: Vec<String>)
    ensures
        texts(r@) == seq![a@],
{
    let mut v: Vec<String> = Vec::new();
    v.push(a.to_owned());
    proof {
        assert(texts(v@) =~= seq![a@]);
    }
    v
}

fn list2(a: &str, b: &str) -> (r: Vec<String>)
    ensures
        texts(r@) == seq![a@, b@],
{
    let mut v: Vec<String> = Vec::new();
    v.push(a.to_owned());
    v.push(b.to_owned());
    proof {
        assert(texts(v@) =~= seq![a@, b@]);
    }
    v
}

fn list4(a: &str, b: &str, c: &str, d: &str) -> (r: Vec<String>)
    ensures
        texts(r@) == seq![a@, b@, c@, d@],
{
    let mut v: Vec<String> = Vec::new();
    v.push(a.to_owned());
    v.push(b.to_owned());
    v.push(c.to_owned());
    v.push(d.to_owned());
    proof {
        assert(texts(v@) =~= seq![a@, b@, c@, d@]);
    }
    v
}

/// The names of the tags that a name selects.
pub fn normalized_strip_tag_aliases(name: &str) -> (r: Vec<String>)
    ensures
        texts(r@) == tag_aliases(name@),
{
    let normal = normalized_strip_tag_name(name);
    let n = normal.as_str();
    if same(n, "photographer") {
        list1("artist")
    } else if same(n, "iso") || same(n, "isospeed") || same(n, "isospeedratings") || same(
        n,
        "photographicsensitivity",
    ) {
        list4("iso", "isospeed", "isospeedratings", "photographicsensitivity")
    } else if same(n, "createdate") || same(n, "datetimedigitized") {
        list2("createdate", "datetimedigitized")
    } else if same(n, "modifydate") || same(n, "datetime") {
        list2("modifydate", "datetime")
    } else if same(n, "predictor") {
        list2("predictor", "0x013d")
    } else if same(n, "icc") || same(n, "iccprofile") || same(n, "intercolorprofile") {
        list2("iccprofile", "0x8773")
    } else {
        list1(n)
    }
}

/// Whether a field holds the sensitivity of the film, which is known under
/// several names.
pub open spec fn is_sensitivity(field: FieldView) -> bool {
    field.context == TagContext::Exif && field.number == 0x8827
}

/// The normal names that a field answers to: its name, its number, and the
/// names that its tag is known under.
pub open spec fn field_names(field: FieldView) -> Seq<Seq<char>> {
    seq![normal_name(field.name), normal_name("0x"@ + hex4(field.number))] + (if is_sensitivity(
        field,
    ) {
        tag_aliases("ISO"@)
    } else {
        Seq::empty()
    })
}

/// The names that a field is selected by.
pub fn strip_field_names(field: &ExifField) -> (r: Vec<String>)
    ensures
        texts(r@) == field_names(field@),
{
    let mut number = "0x".to_owned();
    number.push_str(hex4_text(field.number).as_str());
    let own = normalized_strip_tag_name(field.name.as_str());
    let mut names = list2(own.as_str(), normalized_strip_tag_name(number.as_str()).as_str());
    if field.context == TagContext::Exif && field.number == 0x8827 {
        let more = normalized_strip_tag_aliases("ISO");
        append_texts(&mut names, &more);
    }
    proof {
        assert(texts(names@) =~= field_names(field@));
    }
    names
}

// ---------------------------------------------------------------------------
// Selections of tags
// ---------------------------------------------------------------------------
/// The names that the parts of a list select.
pub open spec fn names_in(parts: Seq<Seq<char>>) -> Seq<Seq<char>>
    decreases parts.len(),
{
    if parts.len() == 0 {
        Seq::empty()
    } else if trim(parts.last()).len() == 0 {
        names_in(parts.drop_last())
    } else {
        names_in(parts.drop_last()) + tag_aliases(trim(parts.last()))
    }
}

/// The names that comma-separated lists select.
pub open spec fn selected_names(values: Seq<Seq<char>>) -> Seq<Seq<char>>
    decreases values.len(),
{
    if values.len() == 0 {
        Seq::empty()
    } else {
        selected_names(values.drop_last()) + names_in(split_on(values.last(), ','))
    }
}

/// Tags selected by name.
#[derive(Debug)]
pub struct TagSelectorSet {
    pub names: Vec<String>,
}

impl TagSelectorSet {
    /// The normal names that are selected.
    pub open spec fn selected(&self) -> Seq<Seq<char>> {
        texts(self.names@)
    }

    /// Reads comma-separated lists of names; they must select something.
    pub fn from_values(values: &Vec<String>) -> (r: Result<TagSelectorSet, String>)
        ensures
            match r {
                Ok(set) => set.selected() == selected_names(texts(values@))
                    && set.selected().len() > 0,
                Err(error) => selected_names(texts(values@)).len() == 0 && error@
                    == "strip tag list cannot be empty"@,
            },
    {
        let mut names: Vec<String> = Vec::new();
        let ghost all = texts(values@);
        let mut i: usize = 0;
        proof {
            assert(texts(names@) =~= Seq::empty());
        }
        while i < values.len()
            invariant
                i <= values@.len(),
                all == texts(values@),
                texts(names@) == selected_names(all.take(i as int)),
            decreases values@.len() - i,
        {
            let parts = text_split(values[i].as_str(), ',');
            let ghost before = texts(names@);
            let ghost pieces = texts(parts@);
            let mut j: usize = 0;
            proof {
                assert(all.take(i + 1).drop_last() =~= all.take(i as int));
                assert(before + Seq::<Seq<char>>::empty() =~= before);
            }
            while j < parts.len()
                invariant
                    j <= parts@.len(),
                    pieces == texts(parts@),
                    texts(names@) == before + names_in(pieces.take(j as int)),
                decreases parts@.len() - j,
            {
                proof {
                    assert(pieces.take(j + 1).drop_last() =~= pieces.take(j as int));
                }
                let name = text_trim(parts[j].as_str());
                if !name.is_empty() {
                    let aliases = normalized_strip_tag_aliases(name);
                    append_texts(&mut names, &aliases);
                }
                j += 1;
                proof {
                    assert(texts(names@) =~= before + names_in(pieces.take(j as int)));
                }
            }
            proof {
                assert(pieces.take(pieces.len() as int) =~= pieces);
            }
            i += 1;
        }
        proof {
            assert(all.take(all.len() as int) =~= all);
        }
        if names.len() == 0 {
            Err("strip tag list cannot be empty".to_owned())
        } else {
            Ok(TagSelectorSet { names })
        }
    }

    /// Whether a field answers to a name that is selected.
    pub fn matches_field(&self, field: &ExifField) -> (r: bool)
        ensures
            r == selects(self.selected(), field@),
    {
        let names = strip_field_names(field);
        let mut i: usize = 0;
        while i < names.len()
            invariant
                i <= names@.len(),
                texts(names@) == field_names(field@),
                forall|j: int|
                    0 <= j < i ==> !self.selected().contains(#[trigger] field_names(field@)[j]),
            decreases names@.len() - i,
        {
            proof {
                assert(texts(names@)[i as int] == names@[i as int]@);
            }
            if list_contains(&self.names, names[i].as_str()) {
                return true;
            }
            i += 1;
        }
        false
    }
}

/// Whether a field answers to one of the names.
pub open spec fn selects(names: Seq<Seq<char>>, field: FieldView) -> bool {
    exists|i: int| 0 <= i < field_names(field).len() && names.contains(#[trigger] field_names(field)[i])
}

// ---------------------------------------------------------------------------
// Modes
// ---------------------------------------------------------------------------
#[derive(Debug)]
pub enum StripBaseMode {
    /// Every tag goes.
    All,
    /// Every tag stays.
    Nothing,
    /// Every tag goes but these.
    Keep(TagSelectorSet),
    /// The tags go that tell about people and places.
    Privacy,
}

/// What a strip removes: what its base says, and the tags that are named.
#[derive(Debug)]
pub struct StripMode {
    pub base: StripBaseMode,
    pub remove: Option<TagSelectorSet>,
}

#[derive(Debug, Clone, Copy, PartialEq, Eq, Structural)]
pub enum StripRemovalDecision {
    Keep,
    Base,
    Explicit,
}

/// Names that tell about people, places, dates or single devices.
pub open spec fn is_private_name(normal: Seq<char>) -> bool {
    ||| contains_text(normal, "serial"@)
    ||| contains_text(normal, "owner"@)
    ||| contains_text(normal, "datetime"@)
    ||| contains_text(normal, "date"@)
    ||| contains_text(normal, "offsettime"@)
    ||| contains_text(normal, "subsectime"@)
}

/// Fields that tell about people, places, dates or single devices.
pub open spec fn is_private(field: FieldView) -> bool {
    ||| field.context == TagContext::Gps
    ||| starts_with(field.name, "GPS"@)
    ||| is_private_name(normal_name(field.name))
    ||| field.name == "Software"@
    ||| field.name == "UserComment"@
    ||| field.name == "ImageDescription"@
    ||| field.name == "Artist"@
    ||| field.name == "Copyright"@
    ||| field.name == "MakerNote"@
    ||| field.name == "ImageUniqueID"@
}

/// Whether a field tells something private.
pub fn is_privacy_strip_field(field: &ExifField) -> (r: bool)
    ensures
        r == is_private(field@),
{
    let name = field.name.as_str();
    if field.context == TagContext::Gps || text_starts_with(name, "GPS") {
        return true;
    }
    let normalized = normalized_strip_tag_name(name);
    let n = normalized.as_str();
    text_contains(n, "serial") || text_contains(n, "owner") || text_contains(n, "datetime")
        || text_contains(n, "date") || text_contains(n, "offsettime") || text_contains(
        n,
        "subsectime",
    ) || same(name, "Software") || same(name, "UserComment") || same(name, "ImageDescription")
        || same(name, "Artist") || same(name, "Copyright") || same(name, "MakerNote") || same(
        name,
        "ImageUniqueID",
    )
}

/// The numbers of the tags that say how the image data of a TIFF image is laid
/// out and shown.
pub open spec fn is_structural_number(number: u16) -> bool {
    ||| number == 0x0100  // ImageWidth
    ||| number == 0x0101  // ImageLength
    ||| number == 0x0102  // BitsPerSample
    ||| number == 0x0103  // Compression
    ||| number == 0x0106  // PhotometricInterpretation
    ||| number == 0x0111  // StripOffsets
    ||| number == 0x0112  // Orientation
    ||| number == 0x0115  // SamplesPerPixel
    ||| number == 0x0116  // RowsPerStrip
    ||| number == 0x0117  // StripByteCounts
    ||| number == 0x011a  // XResolution
    ||| number == 0x011b  // YResolution
    ||| number == 0x011c  // PlanarConfiguration
    ||| number == 0x0128  // ResolutionUnit
    ||| number == 0x013d  // Predictor
    ||| number == 0x0140  // ColorMap
    ||| number == 0x0142  // TileWidth
    ||| number == 0x0143  // TileLength
    ||| number == 0x0144  // TileOffsets
    ||| number == 0x0145  // TileByteCounts
    ||| number == 0x0152  // ExtraSamples
    ||| number == 0x0153  // SampleFormat
    ||| number == 0x8773  // ICC profile
}

/// Whether a number is that of a tag that a TIFF image needs.
pub fn structural_number(number: u16) -> (r: bool)
    ensures
        r == is_structural_number(number),
{
    number == 0x0100 || number == 0x0101 || number == 0x0102 || number == 0x0103 || number
        == 0x0106 || number == 0x0111 || number == 0x0112 || number == 0x0115 || number == 0x0116
        || number == 0x0117 || number == 0x011a || number == 0x011b || number == 0x011c || number
        == 0x0128 || number == 0x013d || number == 0x0140 || number == 0x0142 || number == 0x0143
        || number == 0x0144 || number == 0x0145 || number == 0x0152 || number == 0x0153 || number
        == 0x8773
}

/// The names of such tags.
pub open spec fn is_structural_name(name: Seq<char>) -> bool {
    ||| name == "ImageWidth"@
    ||| name == "ImageLength"@
    ||| name == "ImageHeight"@
    ||| name == "BitsPerSample"@
    ||| name == "Compression"@
    ||| name == "PhotometricInterpretation"@
    ||| name == "StripOffsets"@
    ||| name == "Orientation"@
    ||| name == "SamplesPerPixel"@
    ||| name == "RowsPerStrip"@
    ||| name == "StripByteCounts"@
    ||| name == "XResolution"@
    ||| name == "YResolution"@
    ||| name == "PlanarConfiguration"@
    ||| name == "ResolutionUnit"@
    ||| name == "ColorMap"@
}

/// Fields without which a TIFF image cannot be shown as it is.
pub open spec fn is_structural(field: FieldView) -> bool {
    field.context == TagContext::Tiff && (is_structural_number(field.number) || is_structural_name(
        field.name,
    ))
}

/// Whether a field is one that a TIFF image needs.
pub fn is_required_tiff_structural_field(field: &ExifField) -> (r: bool)
    ensures
        r == is_structural(field@),
{
    let name = field.name.as_str();
    field.context == TagContext::Tiff && (structural_number(field.number) || same(
        name,
        "ImageWidth",
    ) || same(name, "ImageLength") || same(name, "ImageHeight") || same(name, "BitsPerSample")
        || same(name, "Compression") || same(name, "PhotometricInterpretation") || same(
        name,
        "StripOffsets",
    ) || same(name, "Orientation") || same(name, "SamplesPerPixel") || same(name, "RowsPerStrip")
        || same(name, "StripByteCounts") || same(name, "XResolution") || same(name, "YResolution")
        || same(name, "PlanarConfiguration") || same(name, "ResolutionUnit") || same(
        name,
        "ColorMap",
    ))
}

impl StripMode {
    /// Whether the base of the mode has a field go.
    pub open spec fn base_removes(&self, field: FieldView) -> bool {
        match self.base {
            StripBaseMode::All => true,
            StripBaseMode::Nothing => false,
            StripBaseMode::Keep(set) => !selects(set.selected(), field),
            StripBaseMode::Privacy => is_private(field),
        }
    }

    /// Whether a field is named among those to remove.
    pub open spec fn names_field(&self, field: FieldView) -> bool {
        self.remove is Some && selects(self.remove->Some_0.selected(), field)
    }

    pub open spec fn decision(&self, field: FieldView) -> StripRemovalDecision {
        if self.names_field(field) {
            StripRemovalDecision::Explicit
        } else if self.base_removes(field) {
            StripRemovalDecision::Base
        } else {
            StripRemovalDecision::Keep
        }
    }

    /// Whether a field is to be gone after a strip. What a TIFF image needs
    /// stays, unless it was named.
    pub open spec fn removes(&self, field: FieldView, is_tiff: bool) -> bool {
        match self.decision(field) {
            StripRemovalDecision::Explicit => true,
            StripRemovalDecision::Base => !(is_tiff && is_structural(field)),
            StripRemovalDecision::Keep => false,
        }
    }

    pub open spec fn is_full(&self) -> bool {
        self.base is All && self.remove is None
    }

    /// Everything goes.
    pub fn all() -> (r: StripMode)
        ensures
            r.base is All,
            r.remove is None,
    {
        StripMode { base: StripBaseMode::All, remove: None }
    }

    /// Everything goes but some tags.
    pub fn keep(selectors: TagSelectorSet) -> (r: StripMode)
        ensures
            r.base == StripBaseMode::Keep(selectors),
            r.remove is None,
    {
        StripMode { base: StripBaseMode::Keep(selectors), remove: None }
    }

    /// Some tags go.
    pub fn remove(selectors: TagSelectorSet) -> (r: StripMode)
        ensures
            r.base is Nothing,
            r.remove == Some(selectors),
    {
        StripMode { base: StripBaseMode::Nothing, remove: Some(selectors) }
    }

    /// What is private goes.
    pub fn privacy() -> (r: StripMode)
        ensures
            r.base is Privacy,
            r.remove is None,
    {
        StripMode { base: StripBaseMode::Privacy, remove: None }
    }

    /// Everything goes but some tags, less those that go anyway.
    pub fn keep_with_remove(keep: TagSelectorSet, remove: TagSelectorSet) -> (r: StripMode)
        ensures
            r.base == StripBaseMode::Keep(keep),
            r.remove == Some(remove),
    {
        StripMode { base: StripBaseMode::Keep(keep), remove: Some(remove) }
    }

    /// What is private goes, and some tags more.
    pub fn privacy_with_remove(remove: TagSelectorSet) -> (r: StripMode)
        ensures
            r.base is Privacy,
            r.remove == Some(remove),
    {
        StripMode { base: StripBaseMode::Privacy, remove: Some(remove) }
    }

    /// Reads the options of a strip before a write: which of them go together,
    /// and what they select. Without any of them nothing is stripped.
    pub fn from_parts(
        strip: bool,
        keep: &Vec<String>,
        remove: &Vec<String>,
        privacy: bool,
    ) -> (r: Result<Option<StripMode>, String>)
        ensures
            match r {
                Err(error) => options_error(strip, texts(keep@), texts(remove@), privacy) == Some(
                    error@,
                ),
                Ok(mode) => options_error(strip, texts(keep@), texts(remove@), privacy) is None
                    && match mode {
                    Some(mode) => is_mode_of(mode, strip, texts(keep@), texts(remove@), privacy),
                    None => !strip && keep@.len() == 0 && remove@.len() == 0 && !privacy,
                },
            },
    {
        if strip && (keep.len() > 0 || remove.len() > 0 || privacy) {
            return Err("--strip cannot be combined with --keep, --remove, or --privacy".to_owned());
        }
        if keep.len() > 0 && privacy {
            return Err("--keep and --privacy cannot be combined".to_owned());
        }
        if strip {
            return Ok(Some(StripMode::all()));
        }
        let named = if remove.len() > 0 {
            match TagSelectorSet::from_values(remove) {
                Ok(set) => Some(set),
                Err(error) => return Err(error),
            }
        } else {
            None
        };
        if keep.len() > 0 {
            match TagSelectorSet::from_values(keep) {
                Ok(set) => Ok(Some(StripMode { base: StripBaseMode::Keep(set), remove: named })),
                Err(error) => Err(error),
            }
        } else if privacy {
            Ok(Some(StripMode { base: StripBaseMode::Privacy, remove: named }))
        } else if named.is_some() {
            Ok(Some(StripMode { base: StripBaseMode::Nothing, remove: named }))
        } else {
            Ok(None)
        }
    }

    /// The mode of a strip command: without options, everything goes.
    pub fn from_args(args: &StripArgs) -> (r: Result<StripMode, String>)
        ensures
            match r {
                Err(error) => options_error(
                    false,
                    texts(args.keep@),
                    texts(args.remove@),
                    args.privacy,
                ) == Some(error@),
                Ok(mode) => options_error(
                    false,
                    texts(args.keep@),
                    texts(args.remove@),
                    args.privacy,
                ) is None && if args.keep@.len() == 0 && args.remove@.len() == 0 && !args.privacy {
                    mode.is_full()
                } else {
                    is_mode_of(mode, false, texts(args.keep@), texts(args.remove@), args.privacy)
                },
            },
    {
        match StripMode::from_parts(false, &args.keep, &args.remove, args.privacy) {
            Ok(Some(mode)) => Ok(mode),
            Ok(None) => Ok(StripMode::all()),
            Err(error) => Err(error),
        }
    }

    /// The mode of the strip before a write, if there is one.
    pub fn from_write_args(args: &WriteArgs) -> (r: Result<Option<StripMode>, String>)
        ensures
            match r {
                Err(error) => options_error(
                    args.strip,
                    texts(args.keep@),
                    texts(args.remove@),
                    args.privacy,
                ) == Some(error@),
                Ok(mode) => options_error(
                    args.strip,
                    texts(args.keep@),
                    texts(args.remove@),
                    args.privacy,
                ) is None && match mode {
                    Some(mode) => is_mode_of(
                        mode,
                        args.strip,
                        texts(args.keep@),
                        texts(args.remove@),
                        args.privacy,
                    ),
                    None => !args.strip && args.keep@.len() == 0 && args.remove@.len() == 0
                        && !args.privacy,
                },
            },
    {
        StripMode::from_parts(args.strip, &args.keep, &args.remove, args.privacy)
    }

    /// How a mode is called.
    pub fn name(&self) -> (r: &'static str)
        ensures
            r@ == mode_name(self.base),
    {
        match &self.base {
            StripBaseMode::All => "all",
            StripBaseMode::Nothing => "remove",
            StripBaseMode::Keep(_) => "keep",
            StripBaseMode::Privacy => "privacy",
        }
    }

    /// Whether everything goes.
    pub fn is_full_strip(&self) -> (r: bool)
        ensures
            r == self.is_full(),
    {
        match &self.base {
            StripBaseMode::All => self.remove.is_none(),
            _ => false,
        }
    }

    /// Why a field goes, or that it stays.
    pub fn removal_decision(&self, field: &ExifField) -> (r: StripRemovalDecision)
        ensures
            r == self.decision(field@),
    {
        if let Some(selectors) = &self.remove {
            if selectors.matches_field(field) {
                return StripRemovalDecision::Explicit;
            }
        }
        let removed = match &self.base {
            StripBaseMode::All => true,
            StripBaseMode::Nothing => false,
            StripBaseMode::Keep(selectors) => !selectors.matches_field(field),
            StripBaseMode::Privacy => is_privacy_strip_field(field),
        };
        if removed {
            StripRemovalDecision::Base
        } else {
            StripRemovalDecision::Keep
        }
    }

    /// Whether a field is to be gone after a strip.
    pub fn should_remove(&self, field: &ExifField, is_tiff: bool) -> (r: bool)
        ensures
            r == self.removes(field@, is_tiff),
    {
        match self.removal_decision(field) {
            StripRemovalDecision::Explicit => true,
            StripRemovalDecision::Base => !(is_tiff && is_required_tiff_structural_field(field)),
            StripRemovalDecision::Keep => false,
        }
    }
}

pub open spec fn mode_name(base: StripBaseMode) -> Seq<char> {
    match base {
        StripBaseMode::All => "all"@,
        StripBaseMode::Nothing => "remove"@,
        StripBaseMode::Keep(_) => "keep"@,
        StripBaseMode::Privacy => "privacy"@,
    }
}

/// What is wrong with the options of a strip, if something is.
pub open spec fn options_error(
    strip: bool,
    keep: Seq<Seq<char>>,
    remove: Seq<Seq<char>>,
    privacy: bool,
) -> Option<Seq<char>> {
    if strip && (keep.len() > 0 || remove.len() > 0 || privacy) {
        Some("--strip cannot be combined with --keep, --remove, or --privacy"@)
    } else if keep.len() > 0 && privacy {
        Some("--keep and --privacy cannot be combined"@)
    } else if remove.len() > 0 && selected_names(remove).len() == 0 {
        Some("strip tag list cannot be empty"@)
    } else if keep.len() > 0 && selected_names(keep).len() == 0 {
        Some("strip tag list cannot be empty"@)
    } else {
        None
    }
}

/// Whether a mode is the one that the options ask for.
pub open spec fn is_mode_of(
    mode: StripMode,
    strip: bool,
    keep: Seq<Seq<char>>,
    remove: Seq<Seq<char>>,
    privacy: bool,
) -> bool {
    &&& (match mode.base {
        StripBaseMode::All => strip,
        StripBaseMode::Keep(set) => keep.len() > 0 && set.selected() == selected_names(keep),
        StripBaseMode::Privacy => privacy,
        StripBaseMode::Nothing => !strip && keep.len() == 0 && !privacy && remove.len() > 0,
    })
    &&& (match mode.remove {
        Some(set) => remove.len() > 0 && set.selected() == selected_names(remove),
        None => remove.len() == 0,
    })
}

// ---------------------------------------------------------------------------
// Tags to remove
// ---------------------------------------------------------------------------
/// A tag to remove: where it is filed, and what it is called.
#[derive(Debug)]
pub struct StripRemovalTarget {
    pub group: TagGroup,
    pub tag_id: u16,
    pub name: String,
}

pub struct TargetView {
    pub group: TagGroup,
    pub tag_id: u16,
    pub name: Seq<char>,
}

impl View for StripRemovalTarget {
    type V = TargetView;

    open spec fn view(&self) -> TargetView {
        TargetView { group: self.group, tag_id: self.tag_id, name: self.name@ }
    }
}

pub open spec fn target_views(targets: Seq<StripRemovalTarget>) -> Seq<TargetView> {
    targets.map_values(|t: StripRemovalTarget| t@)
}

/// Whether a slot is among the targets.
pub open spec fn is_targeted(targets: Seq<TargetView>, group: TagGroup, tag_id: u16) -> bool {
    exists|i: int|
        0 <= i < targets.len() && (#[trigger] targets[i]).group == group && targets[i].tag_id
            == tag_id
}

/// The targets with one more, unless its slot is among them.
pub open spec fn with_target(targets: Seq<TargetView>, target: TargetView) -> Seq<TargetView> {
    if is_targeted(targets, target.group, target.tag_id) {
        targets
    } else {
        targets.push(target)
    }
}

fn push_strip_removal_target(
    targets: &mut Vec<StripRemovalTarget>,
    group: TagGroup,
    tag_id: u16,
    name: &str,
)
    ensures
        target_views(final(targets)@) == with_target(
            target_views(old(targets)@),
            TargetView { group, tag_id, name: name@ },
        ),
{
    let ghost before = target_views(targets@);
    let mut i: usize = 0;
    while i < targets.len()
        invariant
            i <= targets@.len(),
            before == target_views(targets@),
            targets@ == old(targets)@,
            forall|k: int|
                0 <= k < i ==> (#[trigger] before[k]).group != group || before[k].tag_id != tag_id,
        decreases targets@.len() - i,
    {
        if targets[i].group == group && targets[i].tag_id == tag_id {
            proof {
                assert(before[i as int].group == group);
            }
            return;
        }
        i += 1;
    }
    targets.push(StripRemovalTarget { group, tag_id, name: name.to_owned() });
    proof {
        assert(target_views(targets@) =~= before.push(TargetView { group, tag_id, name: name@ }));
    }
}

/// The directory that the tags of a context are written to.
pub open spec fn group_of(context: TagContext) -> Option<TagGroup> {
    match context {
        TagContext::Tiff => Some(TagGroup::Generic),
        TagContext::Exif => Some(TagGroup::Exif),
        TagContext::Gps => Some(TagGroup::Gps),
        TagContext::Interop => Some(TagGroup::Interop),
        TagContext::Other => None,
    }
}

/// The group of tags that a context stands for.
pub fn writable_group_from_context(context: TagContext) -> (r: Option<TagGroup>)
    ensures
        r == group_of(context),
{
    match context {
        TagContext::Tiff => Some(TagGroup::Generic),
        TagContext::Exif => Some(TagGroup::Exif),
        TagContext::Gps => Some(TagGroup::Gps),
        TagContext::Interop => Some(TagGroup::Interop),
        TagContext::Other => None,
    }
}

/// A tag as messages name it: by its name, or by its number where it has none.
pub open spec fn tag_display(field: FieldView) -> Seq<char> {
    if starts_with(field.name, "Tag("@) {
        "0x"@ + hex4(field.number)
    } else {
        field.name
    }
}

/// How a tag is called.
pub fn strip_tag_display(field: &ExifField) -> (r: String)
    ensures
        r@ == tag_display(field@),
{
    if text_starts_with(field.name.as_str(), "Tag(") {
        let mut text = "0x".to_owned();
        text.push_str(hex4_text(field.number).as_str());
        text
    } else {
        field.name.clone()
    }
}

/// What a strip is going to do: the tags to remove, what to warn about, and
/// what stands in its way.
pub struct StripPlan {
    pub targets: Seq<TargetView>,
    pub warnings: Seq<Seq<char>>,
    pub errors: Seq<Seq<char>>,
}

/// The plan with one more field looked at.
pub open spec fn with_field(
    plan: StripPlan,
    mode: StripMode,
    field: FieldView,
    is_tiff: bool,
) -> StripPlan {
    let needed = is_tiff && is_structural(field);
    if mode.decision(field) == StripRemovalDecision::Keep {
        plan
    } else if needed && mode.decision(field) == StripRemovalDecision::Base {
        plan
    } else if needed {
        StripPlan {
            errors: plan.errors.push(
                "cannot remove required TIFF tag `"@ + tag_display(field)
                    + "`: TIFF cannot be written without it"@,
            ),
            ..plan
        }
    } else {
        match group_of(field.context) {
            None => StripPlan {
                warnings: plan.warnings.push(
                    "cannot remove EXIF tag `"@ + field.name + "` from unsupported context "@
                        + field.context_name,
                ),
                ..plan
            },
            Some(group) => StripPlan {
                targets: with_target(
                    plan.targets,
                    TargetView { group, tag_id: field.number, name: field.name },
                ),
                ..plan
            },
        }
    }
}

/// The plan with all fields looked at, in their order.
pub open spec fn with_fields(
    plan: StripPlan,
    mode: StripMode,
    fields: Seq<FieldView>,
    is_tiff: bool,
) -> StripPlan
    decreases fields.len(),
{
    if fields.len() == 0 {
        plan
    } else {
        with_field(with_fields(plan, mode, fields.drop_last(), is_tiff), mode, fields.last(), is_tiff)
    }
}

/// The targets with the pointers to the directories that a full strip of a TIFF
/// image leaves behind.
pub open spec fn with_pointers(targets: Seq<TargetView>) -> Seq<TargetView> {
    let one = with_target(
        targets,
        TargetView { group: TagGroup::Generic, tag_id: 0x8769, name: "ExifIFDPointer"@ },
    );
    let two = with_target(
        one,
        TargetView { group: TagGroup::Generic, tag_id: 0x8825, name: "GPSInfoIFDPointer"@ },
    );
    with_target(
        two,
        TargetView { group: TagGroup::Exif, tag_id: 0xa005, name: "InteropIFDPointer"@ },
    )
}

/// What a strip of an image with these fields is going to do.
pub open spec fn strip_plan(mode: StripMode, fields: Seq<FieldView>, is_tiff: bool) -> StripPlan {
    let plan = with_fields(
        StripPlan { targets: Seq::empty(), warnings: Seq::empty(), errors: Seq::empty() },
        mode,
        fields,
        is_tiff,
    );
    if is_tiff && mode.is_full() {
        StripPlan { targets: with_pointers(plan.targets), ..plan }
    } else {
        plan
    }
}

/// The tags to remove from an image, with what there is to say about it.
#[derive(Debug)]
pub struct PlannedStrip {
    pub targets: Vec<StripRemovalTarget>,
    pub warnings: Vec<String>,
    pub errors: Vec<String>,
}

impl View for PlannedStrip {
    type V = StripPlan;

    open spec fn view(&self) -> StripPlan {
        StripPlan {
            targets: target_views(self.targets@),
            warnings: texts(self.warnings@),
            errors: texts(self.errors@),
        }
    }
}

fn plan_field(plan: &mut PlannedStrip, mode: &StripMode, field: &ExifField, is_tiff: bool)
    ensures
        final(plan)@ == with_field(old(plan)@, *mode, field@, is_tiff),
{
    let decision = mode.removal_decision(field);
    let needed = is_tiff && is_required_tiff_structural_field(field);
    let ghost warnings = texts(plan.warnings@);
    let ghost errors = texts(plan.errors@);
    match decision {
        StripRemovalDecision::Keep => {
            return ;
        },
        StripRemovalDecision::Base => {
            if needed {
                return ;
            }
        },
        StripRemovalDecision::Explicit => {
            if needed {
                let mut error = "cannot remove required TIFF tag `".to_owned();
                error.push_str(strip_tag_display(field).as_str());
                error.push_str("`: TIFF cannot be written without it");
                let ghost text = error@;
                plan.errors.push(error);
                proof {
                    assert(texts(plan.errors@) =~= errors.push(text));
                }
                return ;
            }
        },
    }
    match writable_group_from_context(field.context) {
        None => {
            let mut warning = "cannot remove EXIF tag `".to_owned();
            warning.push_str(field.name.as_str());
            warning.push_str("` from unsupported context ");
            warning.push_str(field.context_name.as_str());
            let ghost text = warning@;
            plan.warnings.push(warning);
            proof {
                assert(texts(plan.warnings@) =~= warnings.push(text));
            }
        },
        Some(group) => {
            push_strip_removal_target(
                &mut plan.targets,
                group,
                field.number,
                field.name.as_str(),
            );
        },
    }
}

/// Plans which tags go.
pub fn strip_removal_targets(fields: &Vec<ExifField>, mode: &StripMode, is_tiff: bool) -> (r:
    PlannedStrip)
    ensures
        r@ == strip_plan(*mode, field_views(fields@), is_tiff),
{
    let mut plan = PlannedStrip {
        targets: Vec::new(),
        warnings: Vec::new(),
        errors: Vec::new(),
    };
    let ghost all = field_views(fields@);
    let ghost start = plan@;
    let mut i: usize = 0;
    proof {
        assert(start.targets =~= Seq::empty());
        assert(start.warnings =~= Seq::empty());
        assert(start.errors =~= Seq::empty());
    }
    while i < fields.len()
        invariant
            i <= fields@.len(),
            all == field_views(fields@),
            plan@ == with_fields(start, *mode, all.take(i as int), is_tiff),
        decreases fields@.len() - i,
    {
        proof {
            assert(all.take(i + 1).drop_last() =~= all.take(i as int));
        }
        plan_field(&mut plan, mode, &fields[i], is_tiff);
        i += 1;
    }
    proof {
        assert(all.take(all.len() as int) =~= all);
    }
    if is_tiff && mode.is_full_strip() {
        push_strip_removal_target(&mut plan.targets, TagGroup::Generic, 0x8769, "ExifIFDPointer");
        push_strip_removal_target(
            &mut plan.targets,
            TagGroup::Generic,
            0x8825,
            "GPSInfoIFDPointer",
        );
        push_strip_removal_target(&mut plan.targets, TagGroup::Exif, 0xa005, "InteropIFDPointer");
    }
    plan
}

} // verus!
