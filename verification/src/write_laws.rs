//! What holds of everything that is written to an image.

use crate::convert::{position_tags, tag_for, PlaceLookup};
use crate::payload::{encoded_tags, CustomView};
use crate::plan::{
    image_plan, law_frame_tags_override_global_tags, value_of, FramePlanView, NamedValue,
};
use crate::strip_run::StripView;
use crate::text::trim;
use crate::writable::{
    slot_of, written_view, ByteTag, RatioTag, ShortTag, TagGroup, TagValue, TextTag, WritableView,
};
use crate::write_run::{
    with_sorted, write_start, writes_file, MeasuredTag, PreparedView, SortedTags,
};
use crate::yaml::Yaml;
use vstd::prelude::*;
use vstd::utf8::*;

verus! {

// ---------------------------------------------------------------------------
// Sorting out
// ---------------------------------------------------------------------------
/// A tag without a value, or with a blank one, is passed over.
pub proof fn law_blank_values_are_passed_over(sorted: SortedTags, tag: MeasuredTag)
    requires
        tag.tag@.1 is Null || (tag.tag@.1 is Text && trim(tag.tag@.1->Text_0).len() == 0),
    ensures
        with_sorted(sorted, tag) == sorted,
{
}

/// A tag with a name that EXIF does not have becomes a custom tag, with the value as
/// it is.
pub proof fn law_other_names_become_custom(sorted: SortedTags, tag: MeasuredTag)
    requires
        !(tag.tag@.1 is Null),
        tag.tag@.1 is Text ==> trim(tag.tag@.1->Text_0).len() > 0,
        tag.tag@.0 != "$Location"@,
        tag.tag@.0 != "Artist"@,
        tag.tag@.0 != "Photographer"@,
        tag.tag@.0 != "Copyright"@,
        tag.tag@.0 != "GPSLatitudeRef"@,
        tag.tag@.0 != "GPSLongitudeRef"@,
        tag.tag@.0 != "GPSMapDatum"@,
        tag.tag@.0 != "ImageDescription"@,
        tag.tag@.0 != "LensMake"@,
        tag.tag@.0 != "LensModel"@,
        tag.tag@.0 != "Make"@,
        tag.tag@.0 != "Model"@,
        tag.tag@.0 != "Software"@,
        tag.tag@.0 != "CreateDate"@,
        tag.tag@.0 != "DateTimeOriginal"@,
        tag.tag@.0 != "ModifyDate"@,
        tag.tag@.0 != "ExposureProgram"@,
        tag.tag@.0 != "Flash"@,
        tag.tag@.0 != "ISO"@,
        tag.tag@.0 != "ISOSpeedRatings"@,
        tag.tag@.0 != "LightSource"@,
        tag.tag@.0 != "MeteringMode"@,
        tag.tag@.0 != "Orientation"@,
        tag.tag@.0 != "WhiteBalance"@,
        tag.tag@.0 != "ExposureTime"@,
        tag.tag@.0 != "FNumber"@,
        tag.tag@.0 != "FocalLength"@,
        tag.tag@.0 != "GPSAltitude"@,
        tag.tag@.0 != "MaxApertureValue"@,
        tag.tag@.0 != "FileSource"@,
        tag.tag@.0 != "GPSAltitudeRef"@,
        tag.tag@.0 != "GPSLatitude"@,
        tag.tag@.0 != "GPSLongitude"@,
        tag.tag@.0 != "ISOSpeed"@,
    ensures
        with_sorted(sorted, tag).custom == sorted.custom.push(tag.tag@),
        with_sorted(sorted, tag).writable == sorted.writable,
        with_sorted(sorted, tag).warnings == sorted.warnings,
{
}

/// No tag is lost: one with a value is written as an EXIF tag, or kept as a custom
/// tag, and nothing that was sorted out before it changes.
pub proof fn law_every_value_is_written_or_kept(sorted: SortedTags, tag: MeasuredTag)
    requires
        !(tag.tag@.1 is Null),
        tag.tag@.1 is Text ==> trim(tag.tag@.1->Text_0).len() > 0,
        tag.tag@.0 != "$Location"@,
    ensures
        match tag_for(tag.tag@.0, tag.tag@.1, tag.measured@) {
            Some(written) => with_sorted(sorted, tag).writable == sorted.writable.push(written)
                && with_sorted(sorted, tag).custom == sorted.custom,
            None => with_sorted(sorted, tag).writable == sorted.writable && with_sorted(
                sorted,
                tag,
            ).custom == sorted.custom.push(tag.tag@),
        },
        with_sorted(sorted, tag).warnings == sorted.warnings,
{
}

/// A location that is found is written as its position; one that is not is warned
/// about by its name. It never becomes a custom tag.
pub proof fn law_locations_become_positions(sorted: SortedTags, tag: MeasuredTag, text: Seq<char>)
    requires
        tag.tag@ == ("$Location"@, Yaml::Text(text)),
        trim(text).len() > 0,
    ensures
        with_sorted(sorted, tag).custom == sorted.custom,
        match tag.place {
            PlaceLookup::Found(position) => with_sorted(sorted, tag).writable == sorted.writable
                + position_tags(position) && with_sorted(sorted, tag).warnings == sorted.warnings,
            PlaceLookup::NotFound => with_sorted(sorted, tag).writable == sorted.writable
                && with_sorted(sorted, tag).warnings == sorted.warnings.push(
                "$Location: no match found in database [for <"@ + trim(text) + ">]"@,
            ),
            PlaceLookup::Failed(error) => with_sorted(sorted, tag).writable == sorted.writable
                && with_sorted(sorted, tag).warnings == sorted.warnings.push(
                "$Location lookup failed: "@ + error@,
            ),
        },
{
}

// ---------------------------------------------------------------------------
// Frames
// ---------------------------------------------------------------------------
/// The three names of the speed of the film are written with one value: the one that
/// the frame gives last under any of them.
pub proof fn law_film_speeds_agree(
    global: Seq<NamedValue>,
    frame: FramePlanView,
    before: Seq<NamedValue>,
    given: NamedValue,
    image: Seq<char>,
    name: Seq<char>,
)
    requires
        frame.tags == before.push(given),
        given.0 == "ISO"@ || given.0 == "ISOSpeed"@ || given.0 == "ISOSpeedRatings"@,
        name == "ISO"@ || name == "ISOSpeed"@ || name == "ISOSpeedRatings"@,
    ensures
        image_plan(global, Some(frame), image) is Some,
        value_of(image_plan(global, Some(frame), image)->Some_0.tags, name) == Some(given.1),
{
    assert(frame.tags.last() == given);
    law_frame_tags_override_global_tags(global, frame, image, name);
}

/// The last value that a frame gives a tag is written to its image, whatever the
/// global value is.
pub proof fn law_last_value_of_a_frame_is_written(
    global: Seq<NamedValue>,
    frame: FramePlanView,
    before: Seq<NamedValue>,
    given: NamedValue,
    image: Seq<char>,
)
    requires
        frame.tags == before.push(given),
    ensures
        image_plan(global, Some(frame), image) is Some,
        value_of(image_plan(global, Some(frame), image)->Some_0.tags, given.0) == Some(given.1),
{
    assert(frame.tags.last() == given);
    law_frame_tags_override_global_tags(global, frame, image, given.0);
}

proof fn lemma_unnamed(tags: Seq<NamedValue>, name: Seq<char>)
    requires
        forall|i: int| 0 <= i < tags.len() ==> (#[trigger] tags[i]).0 != name,
    ensures
        crate::plan::last_value_of(tags, name) is None,
    decreases tags.len(),
{
    if tags.len() > 0 {
        let before = tags.drop_last();
        assert(tags[tags.len() - 1] == tags.last());
        assert forall|i: int| 0 <= i < before.len() implies (#[trigger] before[i]).0 != name by {
            assert(before[i] == tags[i]);
        }
        lemma_unnamed(before, name);
    }
}

/// A tag that a frame does not name is written with its global value.
pub proof fn law_global_values_are_written_otherwise(
    global: Seq<NamedValue>,
    frame: FramePlanView,
    image: Seq<char>,
    name: Seq<char>,
)
    requires
        image_plan(global, Some(frame), image) is Some,
        forall|i: int| 0 <= i < frame.tags.len() ==> (#[trigger] frame.tags[i]).0 != name,
        name != "ISO"@,
        name != "ISOSpeed"@,
        name != "ISOSpeedRatings"@,
    ensures
        value_of(image_plan(global, Some(frame), image)->Some_0.tags, name) == value_of(
            global,
            name,
        ),
{
    lemma_unnamed(frame.tags, name);
    law_frame_tags_override_global_tags(global, frame, image, name);
}

// ---------------------------------------------------------------------------
// Tags
// ---------------------------------------------------------------------------
/// A tag is filed with the number and in the directory that EXIF gives it.
pub proof fn law_tags_are_filed_where_exif_has_them(tag: WritableView)
    ensures
        slot_of(tag) == (match tag {
            WritableView::Text(TextTag::Artist, _) => (TagGroup::Generic, 315u16),
            WritableView::Text(TextTag::Copyright, _) => (TagGroup::Generic, 33432u16),
            WritableView::Text(TextTag::CreateDate, _) => (TagGroup::Exif, 36868u16),
            WritableView::Text(TextTag::DateTimeOriginal, _) => (TagGroup::Exif, 36867u16),
            WritableView::Text(TextTag::GpsLatitudeRef, _) => (TagGroup::Gps, 1u16),
            WritableView::Text(TextTag::GpsLongitudeRef, _) => (TagGroup::Gps, 3u16),
            WritableView::Text(TextTag::GpsMapDatum, _) => (TagGroup::Gps, 18u16),
            WritableView::Text(TextTag::ImageDescription, _) => (TagGroup::Generic, 270u16),
            WritableView::Text(TextTag::LensMake, _) => (TagGroup::Exif, 42035u16),
            WritableView::Text(TextTag::LensModel, _) => (TagGroup::Exif, 42036u16),
            WritableView::Text(TextTag::Make, _) => (TagGroup::Generic, 271u16),
            WritableView::Text(TextTag::Model, _) => (TagGroup::Generic, 272u16),
            WritableView::Text(TextTag::ModifyDate, _) => (TagGroup::Generic, 306u16),
            WritableView::Text(TextTag::Software, _) => (TagGroup::Generic, 305u16),
            WritableView::Bytes(ByteTag::FileSource, _) => (TagGroup::Exif, 41728u16),
            WritableView::Bytes(ByteTag::GpsAltitudeRef, _) => (TagGroup::Gps, 5u16),
            WritableView::Bytes(ByteTag::UserComment, _) => (TagGroup::Exif, 37510u16),
            WritableView::Short(ShortTag::ExposureProgram, _) => (TagGroup::Exif, 34850u16),
            WritableView::Short(ShortTag::Flash, _) => (TagGroup::Exif, 37385u16),
            WritableView::Short(ShortTag::Iso, _) => (TagGroup::Exif, 34855u16),
            WritableView::Short(ShortTag::LightSource, _) => (TagGroup::Exif, 37384u16),
            WritableView::Short(ShortTag::MeteringMode, _) => (TagGroup::Exif, 37383u16),
            WritableView::Short(ShortTag::Orientation, _) => (TagGroup::Generic, 274u16),
            WritableView::Short(ShortTag::WhiteBalance, _) => (TagGroup::Exif, 41987u16),
            WritableView::IsoSpeed(_) => (TagGroup::Exif, 34867u16),
            WritableView::Ratios(RatioTag::ExposureTime, _) => (TagGroup::Exif, 33434u16),
            WritableView::Ratios(RatioTag::FNumber, _) => (TagGroup::Exif, 33437u16),
            WritableView::Ratios(RatioTag::FocalLength, _) => (TagGroup::Exif, 37386u16),
            WritableView::Ratios(RatioTag::GpsAltitude, _) => (TagGroup::Gps, 6u16),
            WritableView::Ratios(RatioTag::GpsLatitude, _) => (TagGroup::Gps, 2u16),
            WritableView::Ratios(RatioTag::GpsLongitude, _) => (TagGroup::Gps, 4u16),
            WritableView::Ratios(RatioTag::MaxApertureValue, _) => (TagGroup::Exif, 37381u16),
        }),
{
}

/// A tag holds its value as it is.
pub proof fn law_tags_hold_their_values(tag: WritableView)
    ensures
        match tag {
            WritableView::Text(_, text) => written_view(tag).value == TagValue::Text(text),
            WritableView::Bytes(_, bytes) => written_view(tag).value == TagValue::Bytes(bytes),
            WritableView::Short(_, value) => written_view(tag).value matches TagValue::Shorts(
                values,
            ) && values.len() == 1 && values[0] == value,
            WritableView::IsoSpeed(value) => written_view(tag).value matches TagValue::Longs(
                values,
            ) && values.len() == 1 && values[0] == value,
            WritableView::Ratios(_, values) => written_view(tag).value == TagValue::Ratios(values),
        },
        written_view(tag).group == slot_of(tag).0,
        written_view(tag).number == slot_of(tag).1,
{
}

/// The comment that holds custom tags is marked as ASCII text, and behind that as one
/// of this program.
pub proof fn law_payloads_are_marked(tags: Seq<CustomView>)
    requires
        encoded_tags(tags) is Ok,
    ensures
        encoded_tags(tags)->Ok_0.len() >= 24,
        encoded_tags(tags)->Ok_0.take(8) == seq![0x41u8, 0x53, 0x43, 0x49, 0x49, 0, 0, 0],
        encoded_tags(tags)->Ok_0.subrange(8, 24) == encode_utf8("exifmeta-v0.1.0\n"@),
{
    let payload = encoded_tags(tags)->Ok_0;
    reveal_strlit("ASCII\0\0\0");
    reveal_strlit("exifmeta-v0.1.0\n");
    is_ascii_chars_encode_utf8("ASCII\0\0\0"@);
    is_ascii_chars_encode_utf8("exifmeta-v0.1.0\n"@);
    let mark = encode_utf8("ASCII\0\0\0"@);
    assert(mark.len() == 8);
    assert(mark[0] == "ASCII\0\0\0"@[0] as u8);
    assert(mark[1] == "ASCII\0\0\0"@[1] as u8);
    assert(mark[2] == "ASCII\0\0\0"@[2] as u8);
    assert(mark[3] == "ASCII\0\0\0"@[3] as u8);
    assert(mark[4] == "ASCII\0\0\0"@[4] as u8);
    assert(mark[5] == "ASCII\0\0\0"@[5] as u8);
    assert(mark[6] == "ASCII\0\0\0"@[6] as u8);
    assert(mark[7] == "ASCII\0\0\0"@[7] as u8);
    assert(payload.take(8) =~= seq![0x41u8, 0x53, 0x43, 0x49, 0x49, 0, 0, 0]);
    assert(payload.subrange(8, 24) =~= encode_utf8("exifmeta-v0.1.0\n"@));
}

// ---------------------------------------------------------------------------
// Steps
// ---------------------------------------------------------------------------
/// A file is written if and only if this is no dry run and there is something to
/// write.
pub proof fn law_files_are_written_for_tags_only(pending: nat, dry_run: bool)
    ensures
        writes_file(pending, false) <==> pending > 0,
        !writes_file(pending, true),
{
}

/// Nothing is written to an image whose strip failed; what there is to say of the
/// strip and of the tags is said together.
pub proof fn law_failed_strips_stop_a_write(prepared: PreparedView, strip: StripView)
    ensures
        strip.errors.len() > 0 ==> !write_start(prepared, Some(strip)).1,
        strip.errors.len() == 0 && prepared.errors.len() == 0 ==> write_start(
            prepared,
            Some(strip),
        ).1,
        write_start(prepared, None).1,
        write_start(prepared, Some(strip)).0.errors == prepared.errors + strip.errors,
        write_start(prepared, Some(strip)).0.warnings == prepared.warnings + strip.warnings,
        write_start(prepared, Some(strip)).0.removed_tags == strip.removed_tags,
        write_start(prepared, Some(strip)).0.stripped == strip.stripped,
        write_start(prepared, Some(strip)).0.strip_attempted,
        !write_start(prepared, None).0.strip_attempted,
{
}

} // verus!
