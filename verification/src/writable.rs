//! Tags as they are written to an image, and the metadata that holds them.

use little_exif::exif_tag::ExifTag;
use little_exif::ifd::ExifTagGroup;
use little_exif::metadata::Metadata;
use little_exif::rational::uR64;
use vstd::multiset::Multiset;
use vstd::prelude::*;

verus! {

/// The metadata of an image as `little_exif` holds it for writing.
#[verifier::external_type_specification]
#[verifier::external_body]
pub struct ExMetadata(Metadata);

/// A tag of such metadata.
#[verifier::external_type_specification]
#[verifier::external_body]
pub struct ExExifTag(ExifTag);

/// The directory that a tag is written to.
#[derive(Debug, Clone, Copy, PartialEq, Eq, Structural)]
pub enum TagGroup {
    Generic,
    Exif,
    Interop,
    Gps,
}

/// A quotient of two whole numbers.
#[derive(Debug, Clone, Copy, PartialEq, Eq, Structural)]
pub struct UnsignedRatio {
    pub numerator: u32,
    pub denominator: u32,
}

#[derive(Debug, Clone, Copy, PartialEq, Eq, Structural)]
pub enum TextTag {
    Artist,
    Copyright,
    CreateDate,
    DateTimeOriginal,
    GpsLatitudeRef,
    GpsLongitudeRef,
    GpsMapDatum,
    ImageDescription,
    LensMake,
    LensModel,
    Make,
    Model,
    ModifyDate,
    Software,
}

#[derive(Debug, Clone, Copy, PartialEq, Eq, Structural)]
pub enum ByteTag {
    FileSource,
    GpsAltitudeRef,
    UserComment,
}

#[derive(Debug, Clone, Copy, PartialEq, Eq, Structural)]
pub enum ShortTag {
    ExposureProgram,
    Flash,
    Iso,
    LightSource,
    MeteringMode,
    Orientation,
    WhiteBalance,
}

#[derive(Debug, Clone, Copy, PartialEq, Eq, Structural)]
pub enum RatioTag {
    ExposureTime,
    FNumber,
    FocalLength,
    GpsAltitude,
    GpsLatitude,
    GpsLongitude,
    MaxApertureValue,
}

/// A tag with the value to write.
#[derive(Debug)]
pub enum WritableTag {
    Text(TextTag, String),
    Bytes(ByteTag, Vec<u8>),
    Short(ShortTag, u16),
    IsoSpeed(u32),
    Ratios(RatioTag, Vec<UnsignedRatio>),
}

/// What a tag to write says.
pub enum WritableView {
    Text(TextTag, Seq<char>),
    Bytes(ByteTag, Seq<u8>),
    Short(ShortTag, u16),
    IsoSpeed(u32),
    Ratios(RatioTag, Seq<UnsignedRatio>),
}

impl View for WritableTag {
    type V = WritableView;

    open spec fn view(&self) -> WritableView {
        match self {
            WritableTag::Text(tag, text) => WritableView::Text(*tag, text@),
            WritableTag::Bytes(tag, bytes) => WritableView::Bytes(*tag, bytes@),
            WritableTag::Short(tag, value) => WritableView::Short(*tag, *value),
            WritableTag::IsoSpeed(value) => WritableView::IsoSpeed(*value),
            WritableTag::Ratios(tag, values) => WritableView::Ratios(*tag, values@),
        }
    }
}

pub open spec fn tag_views(tags: Seq<WritableTag>) -> Seq<WritableView> {
    tags.map_values(|tag: WritableTag| tag@)
}

/// Where a tag is filed: its directory and its number.
pub type Slot = (TagGroup, u16);

pub open spec fn text_slot(tag: TextTag) -> Slot {
    match tag {
        TextTag::Artist => (TagGroup::Generic, 0x013b),
        TextTag::Copyright => (TagGroup::Generic, 0x8298),
        TextTag::CreateDate => (TagGroup::Exif, 0x9004),
        TextTag::DateTimeOriginal => (TagGroup::Exif, 0x9003),
        TextTag::GpsLatitudeRef => (TagGroup::Gps, 0x0001),
        TextTag::GpsLongitudeRef => (TagGroup::Gps, 0x0003),
        TextTag::GpsMapDatum => (TagGroup::Gps, 0x0012),
        TextTag::ImageDescription => (TagGroup::Generic, 0x010e),
        TextTag::LensMake => (TagGroup::Exif, 0xa433),
        TextTag::LensModel => (TagGroup::Exif, 0xa434),
        TextTag::Make => (TagGroup::Generic, 0x010f),
        TextTag::Model => (TagGroup::Generic, 0x0110),
        TextTag::ModifyDate => (TagGroup::Generic, 0x0132),
        TextTag::Software => (TagGroup::Generic, 0x0131),
    }
}

pub open spec fn byte_slot(tag: ByteTag) -> Slot {
    match tag {
        ByteTag::FileSource => (TagGroup::Exif, 0xa300),
        ByteTag::GpsAltitudeRef => (TagGroup::Gps, 0x0005),
        ByteTag::UserComment => (TagGroup::Exif, 0x9286),
    }
}

pub open spec fn short_slot(tag: ShortTag) -> Slot {
    match tag {
        ShortTag::ExposureProgram => (TagGroup::Exif, 0x8822),
        ShortTag::Flash => (TagGroup::Exif, 0x9209),
        ShortTag::Iso => (TagGroup::Exif, 0x8827),
        ShortTag::LightSource => (TagGroup::Exif, 0x9208),
        ShortTag::MeteringMode => (TagGroup::Exif, 0x9207),
        ShortTag::Orientation => (TagGroup::Generic, 0x0112),
        ShortTag::WhiteBalance => (TagGroup::Exif, 0xa403),
    }
}

pub open spec fn ratio_slot(tag: RatioTag) -> Slot {
    match tag {
        RatioTag::ExposureTime => (TagGroup::Exif, 0x829a),
        RatioTag::FNumber => (TagGroup::Exif, 0x829d),
        RatioTag::FocalLength => (TagGroup::Exif, 0x920a),
        RatioTag::GpsAltitude => (TagGroup::Gps, 0x0006),
        RatioTag::GpsLatitude => (TagGroup::Gps, 0x0002),
        RatioTag::GpsLongitude => (TagGroup::Gps, 0x0004),
        RatioTag::MaxApertureValue => (TagGroup::Exif, 0x9205),
    }
}

pub open spec fn slot_of(tag: WritableView) -> Slot {
    match tag {
        WritableView::Text(tag, _) => text_slot(tag),
        WritableView::Bytes(tag, _) => byte_slot(tag),
        WritableView::Short(tag, _) => short_slot(tag),
        WritableView::IsoSpeed(_) => (TagGroup::Exif, 0x8833),
        WritableView::Ratios(tag, _) => ratio_slot(tag),
    }
}

/// Where a tag is filed.
pub fn writable_tag_identity(tag: &WritableTag) -> (r: (TagGroup, u16))
    ensures
        r == slot_of(tag@),
{
    match tag {
        WritableTag::Text(tag, _) => match tag {
            TextTag::Artist => (TagGroup::Generic, 0x013b),
            TextTag::Copyright => (TagGroup::Generic, 0x8298),
            TextTag::CreateDate => (TagGroup::Exif, 0x9004),
            TextTag::DateTimeOriginal => (TagGroup::Exif, 0x9003),
            TextTag::GpsLatitudeRef => (TagGroup::Gps, 0x0001),
            TextTag::GpsLongitudeRef => (TagGroup::Gps, 0x0003),
            TextTag::GpsMapDatum => (TagGroup::Gps, 0x0012),
            TextTag::ImageDescription => (TagGroup::Generic, 0x010e),
            TextTag::LensMake => (TagGroup::Exif, 0xa433),
            TextTag::LensModel => (TagGroup::Exif, 0xa434),
            TextTag::Make => (TagGroup::Generic, 0x010f),
            TextTag::Model => (TagGroup::Generic, 0x0110),
            TextTag::ModifyDate => (TagGroup::Generic, 0x0132),
            TextTag::Software => (TagGroup::Generic, 0x0131),
        },
        WritableTag::Bytes(tag, _) => match tag {
            ByteTag::FileSource => (TagGroup::Exif, 0xa300),
            ByteTag::GpsAltitudeRef => (TagGroup::Gps, 0x0005),
            ByteTag::UserComment => (TagGroup::Exif, 0x9286),
        },
        WritableTag::Short(tag, _) => match tag {
            ShortTag::ExposureProgram => (TagGroup::Exif, 0x8822),
            ShortTag::Flash => (TagGroup::Exif, 0x9209),
            ShortTag::Iso => (TagGroup::Exif, 0x8827),
            ShortTag::LightSource => (TagGroup::Exif, 0x9208),
            ShortTag::MeteringMode => (TagGroup::Exif, 0x9207),
            ShortTag::Orientation => (TagGroup::Generic, 0x0112),
            ShortTag::WhiteBalance => (TagGroup::Exif, 0xa403),
        },
        WritableTag::IsoSpeed(_) => (TagGroup::Exif, 0x8833),
        WritableTag::Ratios(tag, _) => match tag {
            RatioTag::ExposureTime => (TagGroup::Exif, 0x829a),
            RatioTag::FNumber => (TagGroup::Exif, 0x829d),
            RatioTag::FocalLength => (TagGroup::Exif, 0x920a),
            RatioTag::GpsAltitude => (TagGroup::Gps, 0x0006),
            RatioTag::GpsLatitude => (TagGroup::Gps, 0x0002),
            RatioTag::GpsLongitude => (TagGroup::Gps, 0x0004),
            RatioTag::MaxApertureValue => (TagGroup::Exif, 0x9205),
        },
    }
}

/// The name of a tag that is written under its own name.
pub open spec fn tag_name(tag: WritableView) -> Option<Seq<char>> {
    match tag {
        WritableView::Text(tag, _) => Some(
            match tag {
                TextTag::Artist => "Artist"@,
                TextTag::Copyright => "Copyright"@,
                TextTag::CreateDate => "CreateDate"@,
                TextTag::DateTimeOriginal => "DateTimeOriginal"@,
                TextTag::GpsLatitudeRef => "GPSLatitudeRef"@,
                TextTag::GpsLongitudeRef => "GPSLongitudeRef"@,
                TextTag::GpsMapDatum => "GPSMapDatum"@,
                TextTag::ImageDescription => "ImageDescription"@,
                TextTag::LensMake => "LensMake"@,
                TextTag::LensModel => "LensModel"@,
                TextTag::Make => "Make"@,
                TextTag::Model => "Model"@,
                TextTag::ModifyDate => "ModifyDate"@,
                TextTag::Software => "Software"@,
            },
        ),
        WritableView::Bytes(tag, _) => match tag {
            ByteTag::FileSource => Some("FileSource"@),
            ByteTag::GpsAltitudeRef => Some("GPSAltitudeRef"@),
            ByteTag::UserComment => None,
        },
        WritableView::Short(tag, _) => Some(
            match tag {
                ShortTag::ExposureProgram => "ExposureProgram"@,
                ShortTag::Flash => "Flash"@,
                ShortTag::Iso => "ISO"@,
                ShortTag::LightSource => "LightSource"@,
                ShortTag::MeteringMode => "MeteringMode"@,
                ShortTag::Orientation => "Orientation"@,
                ShortTag::WhiteBalance => "WhiteBalance"@,
            },
        ),
        WritableView::IsoSpeed(_) => Some("ISOSpeed"@),
        WritableView::Ratios(tag, _) => Some(
            match tag {
                RatioTag::ExposureTime => "ExposureTime"@,
                RatioTag::FNumber => "FNumber"@,
                RatioTag::FocalLength => "FocalLength"@,
                RatioTag::GpsAltitude => "GPSAltitude"@,
                RatioTag::GpsLatitude => "GPSLatitude"@,
                RatioTag::GpsLongitude => "GPSLongitude"@,
                RatioTag::MaxApertureValue => "MaxApertureValue"@,
            },
        ),
    }
}

/// How a tag is called.
pub fn writable_tag_name(tag: &WritableTag) -> (r: Option<&'static str>)
    ensures
        match r {
            Some(name) => tag_name(tag@) == Some(name@),
            None => tag_name(tag@) is None,
        },
{
    match tag {
        WritableTag::Text(tag, _) => Some(
            match tag {
                TextTag::Artist => "Artist",
                TextTag::Copyright => "Copyright",
                TextTag::CreateDate => "CreateDate",
                TextTag::DateTimeOriginal => "DateTimeOriginal",
                TextTag::GpsLatitudeRef => "GPSLatitudeRef",
                TextTag::GpsLongitudeRef => "GPSLongitudeRef",
                TextTag::GpsMapDatum => "GPSMapDatum",
                TextTag::ImageDescription => "ImageDescription",
                TextTag::LensMake => "LensMake",
                TextTag::LensModel => "LensModel",
                TextTag::Make => "Make",
                TextTag::Model => "Model",
                TextTag::ModifyDate => "ModifyDate",
                TextTag::Software => "Software",
            },
        ),
        WritableTag::Bytes(tag, _) => match tag {
            ByteTag::FileSource => Some("FileSource"),
            ByteTag::GpsAltitudeRef => Some("GPSAltitudeRef"),
            ByteTag::UserComment => None,
        },
        WritableTag::Short(tag, _) => Some(
            match tag {
                ShortTag::ExposureProgram => "ExposureProgram",
                ShortTag::Flash => "Flash",
                ShortTag::Iso => "ISO",
                ShortTag::LightSource => "LightSource",
                ShortTag::MeteringMode => "MeteringMode",
                ShortTag::Orientation => "Orientation",
                ShortTag::WhiteBalance => "WhiteBalance",
            },
        ),
        WritableTag::IsoSpeed(_) => Some("ISOSpeed"),
        WritableTag::Ratios(tag, _) => Some(
            match tag {
                RatioTag::ExposureTime => "ExposureTime",
                RatioTag::FNumber => "FNumber",
                RatioTag::FocalLength => "FocalLength",
                RatioTag::GpsAltitude => "GPSAltitude",
                RatioTag::GpsLatitude => "GPSLatitude",
                RatioTag::GpsLongitude => "GPSLongitude",
                RatioTag::MaxApertureValue => "MaxApertureValue",
            },
        ),
    }
}

// ---------------------------------------------------------------------------
// Tags of little_exif
// ---------------------------------------------------------------------------
/// The value of a tag.
pub enum TagValue {
    Text(Seq<char>),
    Bytes(Seq<u8>),
    Shorts(Seq<u16>),
    Longs(Seq<u32>),
    Ratios(Seq<UnsignedRatio>),
    /// Any other value, as it is written for debugging.
    Other(Seq<char>),
}

/// What a `little_exif` tag says.
pub struct TagView {
    pub group: TagGroup,
    pub number: u16,
    /// Whether it is a tag with a variant of its own, and none of those that are
    /// kept by their number only.
    pub known: bool,
    pub value: TagValue,
}

/// What an `ExifTag` holds: its group, its number, whether it has a variant of its
/// own, and its value.
pub uninterp spec fn tag_contents(tag: ExifTag) -> TagView;

/// The `ExifTag` variants that hold a text, made from it. Their `get_group` and
/// `as_u16` are those of the table in `exif_tag`.
#[verifier::external_body]
fn text_tag(tag: TextTag, text: String) -> (r: ExifTag)
    ensures
        tag_contents(r) == (TagView {
            group: text_slot(tag).0,
            number: text_slot(tag).1,
            known: true,
            value: TagValue::Text(text@),
        }),
{
    let make: fn(String) -> ExifTag = match tag {
        TextTag::Artist => ExifTag::Artist, TextTag::Copyright => ExifTag::Copyright,
        TextTag::CreateDate => ExifTag::CreateDate,
        TextTag::DateTimeOriginal => ExifTag::DateTimeOriginal,
        TextTag::GpsLatitudeRef => ExifTag::GPSLatitudeRef,
        TextTag::GpsLongitudeRef => ExifTag::GPSLongitudeRef,
        TextTag::GpsMapDatum => ExifTag::GPSMapDatum,
        TextTag::ImageDescription => ExifTag::ImageDescription,
        TextTag::LensMake => ExifTag::LensMake, TextTag::LensModel => ExifTag::LensModel,
        TextTag::Make => ExifTag::Make, TextTag::Model => ExifTag::Model,
        TextTag::ModifyDate => ExifTag::ModifyDate,
        TextTag::Software => ExifTag::Software,
    };
    make(text)
}

/// The `ExifTag` variants that hold bytes, made from them.
#[verifier::external_body]
fn byte_tag(tag: ByteTag, bytes: Vec<u8>) -> (r: ExifTag)
    ensures
        tag_contents(r) == (TagView {
            group: byte_slot(tag).0,
            number: byte_slot(tag).1,
            known: true,
            value: TagValue::Bytes(bytes@),
        }),
{
    match tag {
        ByteTag::FileSource => ExifTag::FileSource(bytes),
        ByteTag::GpsAltitudeRef => ExifTag::GPSAltitudeRef(bytes),
        ByteTag::UserComment => ExifTag::UserComment(bytes),
    }
}

/// The `ExifTag` variants that hold 16-bit numbers, made from one.
#[verifier::external_body]
fn short_tag(tag: ShortTag, value: u16) -> (r: ExifTag)
    ensures
        tag_contents(r) == (TagView {
            group: short_slot(tag).0,
            number: short_slot(tag).1,
            known: true,
            value: TagValue::Shorts(seq![value]),
        }),
{
    let values = vec![value];
    match tag {
        ShortTag::ExposureProgram => ExifTag::ExposureProgram(values),
        ShortTag::Flash => ExifTag::Flash(values),
        ShortTag::Iso => ExifTag::ISO(values),
        ShortTag::LightSource => ExifTag::LightSource(values),
        ShortTag::MeteringMode => ExifTag::MeteringMode(values),
        ShortTag::Orientation => ExifTag::Orientation(values),
        ShortTag::WhiteBalance => ExifTag::WhiteBalance(values),
    }
}

/// `ExifTag::ISOSpeed` with one number.
#[verifier::external_body]
fn iso_speed_tag(value: u32) -> (r: ExifTag)
    ensures
        tag_contents(r) == (TagView {
            group: TagGroup::Exif,
            number: 0x8833,
            known: true,
            value: TagValue::Longs(seq![value]),
        }),
{
    ExifTag::ISOSpeed(vec![value])
}

/// The `ExifTag` variants that hold quotients, made from them.
#[verifier::external_body]
fn ratio_tag(tag: RatioTag, values: Vec<UnsignedRatio>) -> (r: ExifTag)
    ensures
        tag_contents(r) == (TagView {
            group: ratio_slot(tag).0,
            number: ratio_slot(tag).1,
            known: true,
            value: TagValue::Ratios(values@),
        }),
{
    let values = values.into_iter().map(
        |v| uR64 { nominator: v.numerator, denominator: v.denominator },
    ).collect();
    match tag {
        RatioTag::ExposureTime => ExifTag::ExposureTime(values),
        RatioTag::FNumber => ExifTag::FNumber(values),
        RatioTag::FocalLength => ExifTag::FocalLength(values),
        RatioTag::GpsAltitude => ExifTag::GPSAltitude(values),
        RatioTag::GpsLatitude => ExifTag::GPSLatitude(values),
        RatioTag::GpsLongitude => ExifTag::GPSLongitude(values),
        RatioTag::MaxApertureValue => ExifTag::MaxApertureValue(values),
    }
}

/// What a tag to write becomes.
pub open spec fn written_view(tag: WritableView) -> TagView {
    TagView {
        group: slot_of(tag).0,
        number: slot_of(tag).1,
        known: true,
        value: match tag {
            WritableView::Text(_, text) => TagValue::Text(text),
            WritableView::Bytes(_, bytes) => TagValue::Bytes(bytes),
            WritableView::Short(_, value) => TagValue::Shorts(seq![value]),
            WritableView::IsoSpeed(value) => TagValue::Longs(seq![value]),
            WritableView::Ratios(_, values) => TagValue::Ratios(values),
        },
    }
}

/// The `little_exif` tag for a tag to write.
pub fn exif_tag(tag: WritableTag) -> (r: ExifTag)
    ensures
        tag_contents(r) == written_view(tag@),
{
    match tag {
        WritableTag::Text(tag, text) => text_tag(tag, text),
        WritableTag::Bytes(tag, bytes) => byte_tag(tag, bytes),
        WritableTag::Short(tag, value) => short_tag(tag, value),
        WritableTag::IsoSpeed(value) => iso_speed_tag(value),
        WritableTag::Ratios(tag, values) => ratio_tag(tag, values),
    }
}

// ---------------------------------------------------------------------------
// Metadata of little_exif
// ---------------------------------------------------------------------------
/// A directory of tags: which one it is, the image it belongs to, and its tags.
pub struct DirectoryView {
    pub group: TagGroup,
    pub number: u32,
    pub tags: Seq<TagView>,
}

/// What a `Metadata` holds: its directories in their order.
pub uninterp spec fn metadata_contents(metadata: Metadata) -> Seq<DirectoryView>;

/// The tags of a list with a number.
pub open spec fn tags_numbered(tags: Seq<TagView>, number: u16) -> Seq<TagView>
    decreases tags.len(),
{
    if tags.len() == 0 {
        Seq::empty()
    } else if tags.last().number == number {
        tags_numbered(tags.drop_last(), number).push(tags.last())
    } else {
        tags_numbered(tags.drop_last(), number)
    }
}

/// The tags that are filed under a slot, in all directories of its group.
pub open spec fn tags_at(directories: Seq<DirectoryView>, slot: Slot) -> Seq<TagView>
    decreases directories.len(),
{
    if directories.len() == 0 {
        Seq::empty()
    } else if directories.last().group == slot.0 {
        tags_at(directories.drop_last(), slot) + tags_numbered(directories.last().tags, slot.1)
    } else {
        tags_at(directories.drop_last(), slot)
    }
}

/// Whether anything is filed under a slot.
pub open spec fn holds(directories: Seq<DirectoryView>, slot: Slot) -> bool {
    tags_at(directories, slot).len() > 0
}

/// Whether a tag is in a directory.
pub open spec fn has_in(
    directories: Seq<DirectoryView>,
    group: TagGroup,
    number: u32,
    tag: TagView,
) -> bool {
    exists|i: int|
        0 <= i < directories.len() && (#[trigger] directories[i]).group == group
            && directories[i].number == number && directories[i].tags.contains(tag)
}

/// Whether no two directories are the same one of the same image.
pub open spec fn are_distinct(directories: Seq<DirectoryView>) -> bool {
    forall|i: int, j: int|
        0 <= i < j < directories.len() ==> (#[trigger] directories[i]).group != (
        #[trigger] directories[j]).group || directories[i].number != directories[j].number
}

/// Which directories there are.
pub open spec fn directory_slots(directories: Seq<DirectoryView>) -> Seq<(TagGroup, u32)> {
    directories.map_values(|d: DirectoryView| (d.group, d.number))
}

/// Whether there is a directory of a group that belongs to an image that has
/// one of its own.
pub open spec fn is_reachable(directories: Seq<(TagGroup, u32)>, group: TagGroup) -> bool {
    exists|i: int|
        0 <= i < directories.len() && (#[trigger] directories[i]).0 == group && is_covered(
            directories,
            directories[i].1,
        )
}

/// Where a directory belongs: its group, and the image that it is of.
pub type Place = (TagGroup, u32);

/// The tags of the directories of each place, in the order of the directories.
/// The order of the tags within a directory is left aside.
pub type Store = Map<Place, Seq<Multiset<TagView>>>;

/// The tags of the directories of a place, in the order of the directories.
pub open spec fn shelf(directories: Seq<DirectoryView>, place: Place) -> Seq<Multiset<TagView>>
    decreases directories.len(),
{
    if directories.len() == 0 {
        Seq::empty()
    } else {
        let before = shelf(directories.drop_last(), place);
        let last = directories.last();
        if (last.group, last.number) == place {
            before.push(last.tags.to_multiset())
        } else {
            before
        }
    }
}

/// What the directories hold.
pub open spec fn store(directories: Seq<DirectoryView>) -> Store {
    Map::new(|place: Place| true, |place: Place| shelf(directories, place))
}

/// Whether a tag is in a directory of a place.
pub open spec fn stands(store: Store, place: Place, tag: TagView) -> bool {
    exists|k: int| 0 <= k < store[place].len() && (#[trigger] store[place][k]).contains(tag)
}

/// A tag is in a directory of a place exactly where the store has it there.
pub proof fn lemma_has_in_store(
    directories: Seq<DirectoryView>,
    group: TagGroup,
    number: u32,
    tag: TagView,
)
    ensures
        has_in(directories, group, number, tag) == stands(store(directories), (group, number), tag),
    decreases directories.len(),
{
    broadcast use vstd::seq_lib::group_to_multiset_ensures;

    let place = (group, number);
    let all = shelf(directories, place);
    if directories.len() > 0 {
        let before = directories.drop_last();
        let last = directories.last();
        lemma_has_in_store(before, group, number, tag);
        if has_in(directories, group, number, tag) {
            let i = choose|i: int|
                0 <= i < directories.len() && (#[trigger] directories[i]).group == group
                    && directories[i].number == number && directories[i].tags.contains(tag);
            if i < before.len() {
                assert(before[i] == directories[i]);
                let k = choose|k: int|
                    0 <= k < store(before)[place].len() && (#[trigger] store(
                        before,
                    )[place][k]).contains(tag);
                assert(store(directories)[place][k] == store(before)[place][k]);
            } else {
                assert(last.tags.to_multiset().count(tag) > 0);
                assert(store(directories)[place][all.len() - 1] == last.tags.to_multiset());
            }
        }
        if stands(store(directories), place, tag) {
            let k = choose|k: int|
                0 <= k < store(directories)[place].len() && (#[trigger] store(
                    directories,
                )[place][k]).contains(tag);
            if k < shelf(before, place).len() {
                assert(store(before)[place][k].contains(tag));
                let i = choose|i: int|
                    0 <= i < before.len() && (#[trigger] before[i]).group == group
                        && before[i].number == number && before[i].tags.contains(tag);
                assert(directories[i] == before[i]);
            } else {
                assert(last.tags.to_multiset().count(tag) > 0);
                assert(directories[directories.len() - 1] == last);
            }
        }
    }
}

/// A place with a directory has a shelf that is not empty.
pub proof fn lemma_directory_is_shelved(directories: Seq<DirectoryView>, i: int)
    requires
        0 <= i < directories.len(),
    ensures
        store(directories)[(directories[i].group, directories[i].number)].len() > 0,
    decreases directories.len(),
{
    if i < directories.len() - 1 {
        lemma_directory_is_shelved(directories.drop_last(), i);
        assert(directories.drop_last()[i] == directories[i]);
    }
}

/// The tags without those with a number.
pub open spec fn without_number(tags: Multiset<TagView>, number: u16) -> Multiset<TagView> {
    tags.filter(|tag: TagView| tag.number != number)
}

/// The store with an empty directory at a place that has none.
pub open spec fn opened(store: Store, place: Place) -> Store {
    if store[place].len() > 0 {
        store
    } else {
        store.insert(place, seq![Multiset::empty()])
    }
}

/// The store with a directory at a place, and with those that it is reached
/// through where it is new.
pub open spec fn with_directory(store: Store, place: Place) -> Store {
    let root = (TagGroup::Generic, place.1);
    let exif = (TagGroup::Exif, place.1);
    if store[place].len() > 0 {
        store
    } else {
        match place.0 {
            TagGroup::Generic => opened(store, place),
            TagGroup::Exif | TagGroup::Gps => opened(opened(store, root), place),
            TagGroup::Interop => if store[exif].len() > 0 {
                opened(store, place)
            } else {
                opened(opened(opened(store, root), exif), place)
            },
        }
    }
}

/// The store with a tag filed in the first directory of a place, in place of
/// those with its number there.
pub open spec fn with_filed(store: Store, place: Place, tag: TagView) -> Store {
    let ready = with_directory(store, place);
    ready.insert(
        place,
        ready[place].update(0, without_number(ready[place][0], tag.number).insert(tag)),
    )
}

proof fn lemma_with_directory(store: Store, place: Place)
    ensures
        with_directory(store, place)[place].len() > 0,
        forall|p: Place|
            #![trigger with_directory(store, place)[p]]
            with_directory(store, place)[p] == store[p] || (store[p].len() == 0 && with_directory(
                store,
                place,
            )[p] == seq![Multiset::<TagView>::empty()]),
{
}

/// What filing a tag does: it stands at its place, all other tags stay but for
/// those with its number there, nothing else is added, and no directory is lost.
pub proof fn lemma_with_filed(store: Store, place: Place, tag: TagView)
    ensures
        stands(with_filed(store, place, tag), place, tag),
        forall|p: Place, t: TagView| #[trigger]
            stands(with_filed(store, place, tag), p, t) ==> stands(store, p, t) || (p == place && t
                == tag),
        forall|p: Place, t: TagView| #[trigger]
            stands(store, p, t) && !(p == place && t.number == tag.number) ==> stands(
                with_filed(store, place, tag),
                p,
                t,
            ),
        forall|p: Place|
            (#[trigger] with_filed(store, place, tag)[p]).len() >= store[p].len(),
        store[place].len() > 0 ==> forall|p: Place|
            (#[trigger] with_filed(store, place, tag)[p]).len() == store[p].len(),
{
    let ready = with_directory(store, place);
    let after = with_filed(store, place, tag);
    lemma_with_directory(store, place);
    let first = without_number(ready[place][0], tag.number).insert(tag);
    assert(first.contains(tag));
    assert(after[place][0] == first);
    assert forall|p: Place, t: TagView| #[trigger] stands(after, p, t) implies stands(store, p, t)
        || (p == place && t == tag) by {
        let k = choose|k: int| 0 <= k < after[p].len() && (#[trigger] after[p][k]).contains(t);
        assert(ready[p] == store[p] || (store[p].len() == 0 && ready[p] == seq![
            Multiset::<TagView>::empty(),
        ]));
        if p == place && k == 0 {
            if t != tag {
                assert(ready[p][0].contains(t));
                assert(store[p][0].contains(t));
            }
        } else {
            assert(after[p][k] == ready[p][k]);
            assert(store[p][k].contains(t));
        }
    }
    assert forall|p: Place, t: TagView| #[trigger]
        stands(store, p, t) && !(p == place && t.number == tag.number) implies stands(
        after,
        p,
        t,
    ) by {
        let k = choose|k: int| 0 <= k < store[p].len() && (#[trigger] store[p][k]).contains(t);
        assert(ready[p] == store[p]);
        if p == place && k == 0 {
            assert(first.contains(t));
        }
        assert(after[p][k].contains(t));
    }
    assert forall|p: Place| (#[trigger] after[p]).len() >= store[p].len() by {
        assert(ready[p] == store[p] || store[p].len() == 0);
    }
}

/// Whether a tag can be filed at a place: there is a directory, or one can be
/// added, which takes that none is there twice.
pub open spec fn takes_tag(directories: Seq<DirectoryView>, place: Place) -> bool {
    store(directories)[place].len() > 0 || are_distinct(directories)
}

/// Whether an image is not beyond the last that has a generic directory.
pub open spec fn is_covered(directories: Seq<(TagGroup, u32)>, number: u32) -> bool {
    number == 0 || exists|j: int|
        0 <= j < directories.len() && (#[trigger] directories[j]).0 == TagGroup::Generic && number
            <= directories[j].1
}

/// The store without the tags of a group that have a number: they leave the first
/// directory of each image up to the last that has a generic directory.
pub open spec fn without_filed(
    store: Store,
    directories: Seq<(TagGroup, u32)>,
    group: TagGroup,
    number: u16,
) -> Store {
    Map::new(
        |place: Place| true,
        |place: Place|
            if place.0 == group && store[place].len() > 0 && is_covered(directories, place.1) {
                store[place].update(0, without_number(store[place][0], number))
            } else {
                store[place]
            },
    )
}

/// `Metadata::new`: no directories.
#[verifier::external_body]
pub(crate) fn new_metadata() -> (r: Metadata)
    ensures
        metadata_contents(r) == Seq::<DirectoryView>::empty(),
{
    Metadata::new()
}

/// `Metadata::get_tag_by_hex` with a group: whether it finds a tag.
#[verifier::external_body]
pub(crate) fn has_tag(metadata: &Metadata, group: TagGroup, number: u16) -> (r: bool)
    ensures
        r == holds(metadata_contents(*metadata), (group, number)),
{
    let group = match group {
        TagGroup::Generic => ExifTagGroup::GENERIC,
        TagGroup::Exif => ExifTagGroup::EXIF,
        TagGroup::Interop => ExifTagGroup::INTEROP,
        TagGroup::Gps => ExifTagGroup::GPS,
    };
    metadata.get_tag_by_hex(number, Some(group)).next().is_some()
}

/// The bytes of a tag that is a user comment.
pub open spec fn comment_of(tag: TagView) -> Option<Seq<u8>> {
    match tag.value {
        TagValue::Bytes(bytes) => Some(bytes),
        _ => None,
    }
}

/// `Metadata::get_tag` of a user comment: the bytes of each tag that it finds.
/// One that is filed there with a value of another sort has none.
#[verifier::external_body]
pub(crate) fn user_comments(metadata: &Metadata) -> (r: Vec<Option<Vec<u8>>>)
    ensures
        r@.len() == tags_at(metadata_contents(*metadata), byte_slot(ByteTag::UserComment)).len(),
        forall|i: int|
            0 <= i < r@.len() ==> (match #[trigger] r@[i] {
                Some(bytes) => Some(bytes@),
                None => None,
            }) == comment_of(
                tags_at(metadata_contents(*metadata), byte_slot(ByteTag::UserComment))[i],
            ),
{
    metadata.get_tag(&ExifTag::UserComment(Vec::new())).map(|tag| match tag {
        ExifTag::UserComment(bytes) => Some(bytes.clone()),
        _ => None,
    }).collect()
}

/// `Metadata::set_tag`: the tag is filed in the first directory of its group that
/// belongs to the first image, in place of those with its number there; nothing
/// else changes, but that a directory which is missing is added. No other slot
/// gains or loses all its tags. Adding a directory sorts them all, which panics
/// where two are of one group and image, so such metadata is let through only
/// where nothing is to be added.
#[verifier::external_body]
pub(crate) fn set_tag(metadata: &mut Metadata, tag: ExifTag)
    requires
        takes_tag(metadata_contents(*old(metadata)), (tag_contents(tag).group, 0u32)),
    ensures
        store(metadata_contents(*final(metadata))) == with_filed(
            store(metadata_contents(*old(metadata))),
            (tag_contents(tag).group, 0u32),
            tag_contents(tag),
        ),
        forall|slot: Slot| #[trigger]
            holds(metadata_contents(*final(metadata)), slot) == (holds(
                metadata_contents(*old(metadata)),
                slot,
            ) || slot == (tag_contents(tag).group, tag_contents(tag).number)),
        are_distinct(metadata_contents(*old(metadata))) ==> are_distinct(
            metadata_contents(*final(metadata)),
        ),
{
    metadata.set_tag(tag)
}

/// `Metadata::remove_tag_by_hex_group`: the tags with the number leave the first
/// directory of the group in each image, up to the last image that has a generic
/// directory; everything else stays. Zero says that there is no such directory.
#[verifier::external_body]
pub(crate) fn remove_tag(metadata: &mut Metadata, number: u16, group: TagGroup) -> (r: usize)
    ensures
        directory_slots(metadata_contents(*final(metadata))) == directory_slots(
            metadata_contents(*old(metadata)),
        ),
        r == 0 <==> !is_reachable(directory_slots(metadata_contents(*old(metadata))), group),
        store(metadata_contents(*final(metadata))) == without_filed(
            store(metadata_contents(*old(metadata))),
            directory_slots(metadata_contents(*old(metadata))),
            group,
            number,
        ),
{
    let group = match group {
        TagGroup::Generic => ExifTagGroup::GENERIC,
        TagGroup::Exif => ExifTagGroup::EXIF,
        TagGroup::Interop => ExifTagGroup::INTEROP,
        TagGroup::Gps => ExifTagGroup::GPS,
    };
    metadata.remove_tag_by_hex_group(number, group)
}

/// A directory with copies of its tags.
pub struct StoredDirectory {
    pub group: TagGroup,
    pub number: u32,
    pub tags: Vec<ExifTag>,
}

impl View for StoredDirectory {
    type V = DirectoryView;

    open spec fn view(&self) -> DirectoryView {
        DirectoryView {
            group: self.group,
            number: self.number,
            tags: self.tags@.map_values(|tag: ExifTag| tag_contents(tag)),
        }
    }
}

pub open spec fn directory_views(stored: Seq<StoredDirectory>) -> Seq<DirectoryView> {
    stored.map_values(|d: StoredDirectory| d@)
}

/// `Metadata::get_ifds`: the directories with their tags.
#[verifier::external_body]
pub(crate) fn directories(metadata: &Metadata) -> (r: Vec<StoredDirectory>)
    ensures
        directory_views(r@) == metadata_contents(*metadata),
{
    metadata.get_ifds().iter().map(
        |ifd| StoredDirectory {
            group: match ifd.get_ifd_type() {
                ExifTagGroup::GENERIC => TagGroup::Generic,
                ExifTagGroup::EXIF => TagGroup::Exif,
                ExifTagGroup::INTEROP => TagGroup::Interop,
                ExifTagGroup::GPS => TagGroup::Gps,
            },
            number: ifd.get_generic_ifd_nr(),
            tags: ifd.get_tags().clone(),
        },
    ).collect()
}

/// `ExifTag::as_u16`: the number of a tag.
#[verifier::external_body]
pub(crate) fn tag_number(tag: &ExifTag) -> (r: u16)
    ensures
        r == tag_contents(*tag).number,
{
    tag.as_u16()
}

/// The numbers of the tags without which a TIFF image cannot be written.
pub open spec fn is_minimal(number: u16) -> bool {
    ||| number == 0x0100
    ||| number == 0x0101
    ||| number == 0x0102
    ||| number == 0x0103
    ||| number == 0x0106
    ||| number == 0x0111
    ||| number == 0x0115
    ||| number == 0x0116
    ||| number == 0x0117
    ||| number == 0x011a
    ||| number == 0x011b
    ||| number == 0x0128
    ||| number == 0x0140
    ||| number == 0x0201
    ||| number == 0x0202
}

/// Whether a tag with a number is kept by its number only.
pub open spec fn has_unknown(tags: Multiset<TagView>, number: u16) -> bool {
    exists|tag: TagView| #[trigger] tags.contains(tag) && tag.number == number && !tag.known
}

/// The tags of a directory without which a TIFF image cannot be written. A number
/// that stands for a tag kept by its number only is not among them.
pub open spec fn minimal_tags(tags: Multiset<TagView>) -> Multiset<TagView> {
    tags.filter(|tag: TagView| is_minimal(tag.number) && !has_unknown(tags, tag.number))
}

/// The store with nothing but the generic directories, and of their tags only those
/// of the minimum.
pub open spec fn minimal_store(store: Store) -> Store {
    Map::new(
        |place: Place| true,
        |place: Place|
            if place.0 == TagGroup::Generic {
                store[place].map_values(|tags: Multiset<TagView>| minimal_tags(tags))
            } else {
                Seq::empty()
            },
    )
}

/// `Metadata::reduce_to_a_minimum`: of the directories the generic ones stay. Of
/// their tags those stay that have a variant on its list, which are the ones with a
/// variant of their own and a number of the minimum; any other tag leaves along with
/// all of its number in the directory.
#[verifier::external_body]
pub(crate) fn reduce_to_minimum(metadata: &mut Metadata)
    ensures
        store(metadata_contents(*final(metadata))) == minimal_store(
            store(metadata_contents(*old(metadata))),
        ),
{
    metadata.reduce_to_a_minimum()
}

/// `Metadata::get_ifd_mut` and `ImageFileDirectory::set_tag` on it: the tag is
/// filed in the first generic directory of an image, in place of those with its
/// number there; nothing else changes, but that a directory which is missing is
/// added. What `set_tag` says of metadata that cannot take a new directory holds
/// here too.
#[verifier::external_body]
pub(crate) fn set_generic_tag(metadata: &mut Metadata, number: u32, tag: ExifTag)
    requires
        takes_tag(metadata_contents(*old(metadata)), (TagGroup::Generic, number)),
    ensures
        store(metadata_contents(*final(metadata))) == with_filed(
            store(metadata_contents(*old(metadata))),
            (TagGroup::Generic, number),
            tag_contents(tag),
        ),
{
    metadata.get_ifd_mut(ExifTagGroup::GENERIC, number).set_tag(tag)
}

} // verus!
