//! What holds of every comment that carries custom tags, and of writing one.

use crate::exif_data::{reading_outcome, FieldView, ReadingView, ValueView};
use crate::payload::{
    ascii_prefix, decoded_tags, json_body, legacy_prefix, lemma_marks, lemma_no_start,
    marker_prefix, tags_of_fields, text_entries, value_label,
};
use crate::writable::{slot_of, tags_at, DirectoryView, Slot, TagGroup, TagValue, WritableView};
use crate::write_run::{applied, are_set, WriteView};
use crate::yaml::{yaml_mapping, Yaml};
use vstd::prelude::*;
use vstd::utf8::*;

verus! {

// ---------------------------------------------------------------------------
// Reading
// ---------------------------------------------------------------------------
/// The custom tags are what the text entries of the document tell, wherever it stands:
/// alone, behind a line with the mark of any version, or behind the mark of ASCII and
/// such a line.
pub proof fn law_payloads_of_any_version_are_read(version: Seq<u8>, body: Seq<u8>)
    requires
        !version.contains(0x0a),
        body.len() > 0,
        body[0] == 0x7b,
    ensures
        decoded_tags(encode_utf8("exifmeta-v"@) + version + seq![0x0au8] + body) == decoded_tags(
            body,
        ),
        decoded_tags(
            encode_utf8("ASCII\0\0\0"@) + (encode_utf8("exifmeta-v"@) + version + seq![0x0au8]
                + body),
        ) == decoded_tags(body),
        decoded_tags(encode_utf8("ASCII\0\0\0"@) + body) == decoded_tags(body),
{
    lemma_marks();
    let marked = marker_prefix() + version + seq![0x0au8] + body;
    let n = version.len() as int;
    assert(marked.subrange(0, 10) =~= marker_prefix());
    let tail = marked.skip(10);
    assert(tail[n] == 0x0a);
    assert forall|i: int| 0 <= i < n implies tail[i] != 0x0a by {
        assert(tail[i] == version[i]);
        assert(version.contains(version[i]));
    }
    assert(tail.contains(0x0a));
    tail.index_of_first_ensures(0x0a);
    let first = tail.index_of_first(0x0a)->Some_0;
    assert(first == n);
    assert(tail.skip(n + 1) =~= body);
    assert(json_body(marked) == body);
    assert(marked[9] == marker_prefix()[9]);
    assert(marked[0] == marker_prefix()[0]);
    assert(marker_prefix()[9] == 0x76) by {
        assert(marker_prefix()[9] == crate::payload::payload_marker()[9]);
    }
    lemma_no_start(marked, legacy_prefix(), 9);
    lemma_no_start(marked, ascii_prefix(), 0);
    lemma_no_start(body, legacy_prefix(), 0);
    lemma_no_start(body, ascii_prefix(), 0);
    lemma_no_start(body, marker_prefix(), 0);
    let both = ascii_prefix() + marked;
    assert(both.subrange(0, 8) =~= ascii_prefix());
    assert(both.skip(8) =~= marked);
    assert(both[0] == ascii_prefix()[0]);
    lemma_no_start(both, legacy_prefix(), 0);
    let plain = ascii_prefix() + body;
    assert(plain.subrange(0, 8) =~= ascii_prefix());
    assert(plain.skip(8) =~= body);
    assert(plain[0] == ascii_prefix()[0]);
    lemma_no_start(plain, legacy_prefix(), 0);
}

/// Comments of the first version are read as YAML.
pub proof fn law_payloads_of_the_first_version_are_read(body: Seq<u8>)
    ensures
        decoded_tags(encode_utf8("exifmeta-custom-tags-v1\n"@) + body) is Some <==> yaml_mapping(
            body,
        ) is Some && text_entries(yaml_mapping(body)->Some_0).len() > 0,
        decoded_tags(encode_utf8("exifmeta-custom-tags-v1\n"@) + body) is Some ==> decoded_tags(
            encode_utf8("exifmeta-custom-tags-v1\n"@) + body,
        )->Some_0 == text_entries(yaml_mapping(body)->Some_0),
{
    lemma_marks();
    let bytes = legacy_prefix() + body;
    assert(bytes.subrange(0, 24) =~= legacy_prefix());
    assert(bytes.skip(24) =~= body);
}

/// Entries of a document become custom tags in their order, with their names and
/// values; those that no text names are left out.
pub proof fn law_entries_become_custom_tags(entries: Seq<(Yaml, Yaml)>, name: Seq<char>, value: Yaml)
    ensures
        text_entries(entries.push((Yaml::Text(name), value))) == text_entries(entries).push(
            (name, value),
        ),
        text_entries(entries.push((Yaml::Null, value))) == text_entries(entries),
        text_entries(entries.push((Yaml::Bool(true), value))) == text_entries(entries),
{
    assert(entries.push((Yaml::Text(name), value)).drop_last() =~= entries);
    assert(entries.push((Yaml::Null, value)).drop_last() =~= entries);
    assert(entries.push((Yaml::Bool(true), value)).drop_last() =~= entries);
}

/// An image has the custom tags of its first comment that carries any, as bytes or as
/// text; other fields carry none.
pub proof fn law_first_comment_with_tags_counts(
    before: Seq<FieldView>,
    field: FieldView,
    after: Seq<FieldView>,
    bytes: Seq<u8>,
)
    requires
        forall|i: int|
            0 <= i < before.len() ==> (#[trigger] before[i]).number != 0x9286
                || !(before[i].context is Exif),
        field.context is Exif,
        field.number == 0x9286,
        field.value == ValueView::Undefined(bytes) || field.value == ValueView::Ascii(seq![bytes]),
    ensures
        decoded_tags(bytes) is Some ==> tags_of_fields(before + seq![field] + after)
            == decoded_tags(bytes)->Some_0,
        decoded_tags(bytes) is None ==> tags_of_fields(before + seq![field] + after)
            == tags_of_fields(after),
    decreases before.len(),
{
    let all = before + seq![field] + after;
    if before.len() == 0 {
        assert(all[0] == field);
        assert(all.skip(1) =~= after);
    } else {
        assert(all[0] == before[0]);
        let rest = before.skip(1);
        assert forall|i: int| 0 <= i < rest.len() implies (#[trigger] rest[i]).number != 0x9286
            || !(rest[i].context is Exif) by {
            assert(rest[i] == before[i + 1]);
        }
        assert(all.skip(1) =~= rest + seq![field] + after);
        law_first_comment_with_tags_counts(rest, field, after, bytes);
    }
}

/// An image without a comment has no custom tags.
pub proof fn law_other_fields_carry_no_tags(fields: Seq<FieldView>)
    requires
        forall|i: int|
            0 <= i < fields.len() ==> (#[trigger] fields[i]).number != 0x9286
                || !(fields[i].context is Exif),
    ensures
        tags_of_fields(fields).len() == 0,
    decreases fields.len(),
{
    if fields.len() > 0 {
        let rest = fields.skip(1);
        assert forall|i: int| 0 <= i < rest.len() implies (#[trigger] rest[i]).number != 0x9286
            || !(rest[i].context is Exif) by {
            assert(rest[i] == fields[i + 1]);
        }
        assert(fields[0].number != 0x9286 || !(fields[0].context is Exif));
        law_other_fields_carry_no_tags(rest);
    }
}

/// Values without parts are labelled by what they are.
pub proof fn law_plain_values_are_labelled_as_they_are(text: Seq<char>)
    ensures
        value_label(Yaml::Text(text)) == text,
        value_label(Yaml::Bool(true)) == "true"@,
        value_label(Yaml::Bool(false)) == "false"@,
        value_label(Yaml::Null) == "<null>"@,
{
}

/// An image without metadata is read as one without fields, not as a failure; one that
/// is read in part tells what is wrong; one that cannot be read is a failure that names
/// the image and the reason.
pub proof fn law_missing_metadata_is_no_failure(image: Seq<char>, reading: ReadingView)
    ensures
        reading_outcome(image, reading) is Err <==> reading is Failed,
        reading is NotFound ==> reading_outcome(image, reading)->Ok_0.0.fields.len() == 0
            && reading_outcome(image, reading)->Ok_0.1.len() == 0,
        reading matches ReadingView::Read(exif) ==> reading_outcome(image, reading)->Ok_0.0 == exif
            && reading_outcome(image, reading)->Ok_0.1.len() == 0,
        reading matches ReadingView::Partial(exif, errors) ==> reading_outcome(
            image,
            reading,
        )->Ok_0 == (exif, errors),
        reading matches ReadingView::Failed(error) ==> reading_outcome(image, reading)->Err_0
            == "failed to read EXIF metadata from "@ + image + ": "@ + error,
{
}

// ---------------------------------------------------------------------------
// Writing
// ---------------------------------------------------------------------------
/// A tag whose slot is taken is named as one that already exists where nothing may be
/// overwritten, and counts as nothing written. Any other counts once, but for the
/// comment, which counts for each custom tag.
pub proof fn law_skipped_tags_are_named(
    tags: Seq<WritableView>,
    tag: WritableView,
    held: Set<Slot>,
    custom_count: nat,
)
    ensures
        held.contains(slot_of(tag)) ==> {
            let before = applied(tags, held, true, custom_count);
            let after = applied(tags.push(tag), held, true, custom_count);
            &&& after.pending == before.pending
            &&& after.held == before.held
            &&& after.skipped.len() == before.skipped.len() + 1
            &&& slot_of(tag) == (TagGroup::Generic, 0x010fu16) ==> after.skipped.last() == "Make"@ + " already exists"@
            &&& slot_of(tag) == (TagGroup::Generic, 0x013bu16) ==> after.skipped.last() == "Artist"@ + " already exists"@
            &&& tag is IsoSpeed ==> after.skipped.last() == "ISOSpeed"@ + " already exists"@
            &&& slot_of(tag) == (TagGroup::Exif, 0x9286u16) ==> after.skipped.last()
                == "UserComment"@ + " already exists"@
        },
        ({
            let before = applied(tags, held, false, custom_count);
            let after = applied(tags.push(tag), held, false, custom_count);
            &&& after.held == before.held.insert(slot_of(tag))
            &&& after.skipped == before.skipped
            &&& slot_of(tag) == (TagGroup::Exif, 0x9286u16) ==> after.pending == before.pending
                + custom_count
            &&& slot_of(tag) != (TagGroup::Exif, 0x9286u16) ==> after.pending == before.pending + 1
        }),
{
    assert(tags.push(tag).drop_last() =~= tags);
    assert(tags.push(tag).last() == tag);
    if held.contains(slot_of(tag)) {
        lemma_held_stays(tags, held, true, custom_count);
    }
}

proof fn lemma_held_stays(
    tags: Seq<WritableView>,
    held: Set<Slot>,
    no_overwrite: bool,
    custom_count: nat,
)
    ensures
        held.subset_of(applied(tags, held, no_overwrite, custom_count).held),
    decreases tags.len(),
{
    if tags.len() > 0 {
        lemma_held_stays(tags.drop_last(), held, no_overwrite, custom_count);
    }
}

/// Custom tags that take the place of a comment that is none of this program's come
/// with a warning; where there is no comment there is none.
pub proof fn law_foreign_comments_are_warned_about(
    start: Seq<DirectoryView>,
    end: Seq<DirectoryView>,
    tags: Seq<WritableView>,
    custom_count: nat,
    no_overwrite: bool,
    before: WriteView,
    after: WriteView,
    pending: nat,
    i: int,
)
    requires
        are_set(start, end, tags, custom_count, no_overwrite, before, after, pending),
    ensures
        custom_count > 0 && !no_overwrite && 0 <= i < tags_at(
            start,
            (TagGroup::Exif, 0x9286u16),
        ).len() && (match tags_at(start, (TagGroup::Exif, 0x9286u16))[i].value {
            TagValue::Bytes(bytes) => decoded_tags(bytes) is None,
            _ => true,
        }) ==> after.warnings == before.warnings.push(
            "replacing existing non-exifmeta UserComment"@,
        ),
        tags_at(start, (TagGroup::Exif, 0x9286u16)).len() == 0 ==> after.warnings
            == before.warnings,
        no_overwrite || custom_count == 0 ==> after.warnings == before.warnings,
{
    let comments = tags_at(start, (TagGroup::Exif, 0x9286u16));
    if 0 <= i < comments.len() {
        let comment = comments[i];
        assert(comment == tags_at(
            start,
            crate::writable::byte_slot(crate::writable::ByteTag::UserComment),
        )[i]);
    }
}

} // verus!
