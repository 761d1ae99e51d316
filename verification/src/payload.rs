//! Custom tags: the payload that carries them in a user comment.

use crate::exif_data::{ExifField, FieldValue, FieldView, TagContext, ValueView};
use crate::file_kind::{bytes_start_with, has_bytes_at};
use crate::text::{replace_char, text_replace_char, text_trim, texts, trim};
use crate::yaml::{
    as_text, bool_text, debug_text, emitted_text, empty_mapping, entries_contents, entry_set,
    is_json, json_depth, json_emitted, json_mapping, mapping_contents, mapping_entries,
    mapping_from_json, mapping_from_yaml, mapping_insert, mapping_to_json, text_of, yaml_contents,
    yaml_debug, yaml_emitted, yaml_mapping, yaml_shape, Yaml, YamlShape,
};
use serde_yaml::{Mapping, Value};
use vstd::prelude::*;
use vstd::string::*;
use vstd::utf8::*;

verus! {

/// A tag that EXIF does not define.
#[derive(Debug, Clone, PartialEq)]
pub struct CustomTag {
    pub name: String,
    pub value: Value,
}

/// What a custom tag says: its name and its value.
pub type CustomView = (Seq<char>, Yaml);

impl View for CustomTag {
    type V = CustomView;

    open spec fn view(&self) -> CustomView {
        (self.name@, yaml_contents(self.value))
    }
}

pub open spec fn custom_views(tags: Seq<CustomTag>) -> Seq<CustomView> {
    tags.map_values(|tag: CustomTag| tag@)
}

/// The bytes that mark a user comment as ASCII text.
pub open spec fn ascii_prefix() -> Seq<u8> {
    encode_utf8("ASCII\0\0\0"@)
}

/// The bytes that marked payloads in YAML.
pub open spec fn legacy_prefix() -> Seq<u8> {
    encode_utf8("exifmeta-custom-tags-v1\n"@)
}

/// What the line that marks a payload starts with; the version follows.
pub open spec fn marker_prefix() -> Seq<u8> {
    encode_utf8("exifmeta-v"@)
}

/// The line that marks a payload of this version.
pub open spec fn payload_marker() -> Seq<u8> {
    encode_utf8("exifmeta-v0.1.0\n"@)
}

fn bytes_from(bytes: &[u8], from: usize) -> (r: Vec<u8>)
    requires
        from <= bytes@.len(),
    ensures
        r@ == bytes@.skip(from as int),
{
    let mut out: Vec<u8> = Vec::new();
    let mut i: usize = from;
    while i < bytes.len()
        invariant
            from <= i <= bytes@.len(),
            out@ =~= bytes@.subrange(from as int, i as int),
        decreases bytes@.len() - i,
    {
        out.push(bytes[i]);
        i += 1;
    }
    proof {
        assert(out@ =~= bytes@.skip(from as int));
    }
    out
}

fn append_bytes(out: &mut Vec<u8>, bytes: &[u8])
    ensures
        final(out)@ == old(out)@ + bytes@,
{
    let ghost before = out@;
    let mut i: usize = 0;
    while i < bytes.len()
        invariant
            i <= bytes@.len(),
            out@ =~= before + bytes@.take(i as int),
        decreases bytes@.len() - i,
    {
        out.push(bytes[i]);
        i += 1;
    }
    proof {
        assert(bytes@.take(bytes@.len() as int) =~= bytes@);
    }
}

/// The bytes behind a prefix, where they start with it.
pub open spec fn without_prefix(bytes: Seq<u8>, prefix: Seq<u8>) -> Seq<u8> {
    if bytes_start_with(bytes, prefix) {
        bytes.skip(prefix.len() as int)
    } else {
        bytes
    }
}

/// The JSON document of a payload: what stands behind the marker line, where
/// there is one.
pub open spec fn json_body(bytes: Seq<u8>) -> Seq<u8> {
    let rest = bytes.skip(marker_prefix().len() as int);
    if bytes_start_with(bytes, marker_prefix()) && rest.contains(0x0a) {
        rest.skip(rest.index_of_first(0x0a)->Some_0 + 1)
    } else {
        bytes
    }
}

/// The bytes of a payload without its marks.
pub fn custom_tag_json_body(bytes: &[u8]) -> (r: Vec<u8>)
    ensures
        r@ == json_body(bytes@),
{
    let prefix = "exifmeta-v".as_bytes();
    if has_bytes_at(bytes, 0, prefix) {
        let n: usize = prefix.len();
        let ghost rest = bytes@.skip(n as int);
        let mut i: usize = n;
        while i < bytes.len()
            invariant
                n <= i <= bytes@.len(),
                n == marker_prefix().len(),
                bytes_start_with(bytes@, marker_prefix()),
                rest == bytes@.skip(n as int),
                forall|k: int| 0 <= k < i - n ==> #[trigger] rest[k] != 0x0a,
            decreases bytes@.len() - i,
        {
            if bytes[i] == 0x0a {
                proof {
                    assert(rest[i - n] == 0x0a);
                    assert(rest.contains(0x0a));
                    rest.index_of_first_ensures(0x0a);
                    assert(rest.index_of_first(0x0a)->Some_0 == i - n);
                    assert(bytes@.skip(i + 1) =~= rest.skip(i - n + 1));
                }
                return bytes_from(bytes, i + 1);
            }
            i += 1;
        }
        proof {
            assert(!rest.contains(0x0a));
        }
    }
    proof {
        assert(bytes@.skip(0) =~= bytes@);
    }
    bytes_from(bytes, 0)
}

/// The entries of a mapping that are filed under texts.
pub open spec fn text_entries(entries: Seq<(Yaml, Yaml)>) -> Seq<CustomView>
    decreases entries.len(),
{
    if entries.len() == 0 {
        Seq::empty()
    } else {
        let before = text_entries(entries.drop_last());
        match text_of(entries.last().0) {
            Some(name) => before.push((name, entries.last().1)),
            None => before,
        }
    }
}

/// The custom tags of a mapping, if it has any.
pub open spec fn tags_of_mapping(mapping: Option<Seq<(Yaml, Yaml)>>) -> Option<Seq<CustomView>> {
    match mapping {
        Some(entries) => if text_entries(entries).len() > 0 {
            Some(text_entries(entries))
        } else {
            None
        },
        None => None,
    }
}

/// The custom tags that the bytes of a user comment carry, if they are a
/// payload.
pub open spec fn decoded_tags(bytes: Seq<u8>) -> Option<Seq<CustomView>> {
    if bytes_start_with(bytes, legacy_prefix()) {
        tags_of_mapping(yaml_mapping(bytes.skip(legacy_prefix().len() as int)))
    } else {
        tags_of_mapping(json_mapping(json_body(without_prefix(bytes, ascii_prefix()))))
    }
}

/// The views of tags that may be missing.
pub open spec fn custom_option(tags: Option<Vec<CustomTag>>) -> Option<Seq<CustomView>> {
    match tags {
        Some(tags) => Some(custom_views(tags@)),
        None => None,
    }
}

/// The custom tags of a mapping that was read, if it has any.
pub fn custom_tags_from_mapping(mapping: Mapping) -> (r: Option<Vec<CustomTag>>)
    ensures
        custom_option(r) == tags_of_mapping(Some(mapping_contents(mapping))),
{
    let entries = mapping_entries(mapping);
    let ghost all = entries_contents(entries@);
    let mut tags: Vec<CustomTag> = Vec::new();
    let mut i: usize = 0;
    proof {
        assert(custom_views(tags@) =~= Seq::empty());
    }
    while i < entries.len()
        invariant
            i <= entries@.len(),
            all == entries_contents(entries@),
            custom_views(tags@) == text_entries(all.take(i as int)),
        decreases entries@.len() - i,
    {
        let ghost before = custom_views(tags@);
        proof {
            assert(all.take(i + 1).drop_last() =~= all.take(i as int));
            assert(all.take(i + 1).last() == all[i as int]);
        }
        match as_text(&entries[i].0) {
            Some(name) => {
                let ghost text = name@;
                tags.push(CustomTag { name, value: entries[i].1.clone() });
                proof {
                    assert(custom_views(tags@) =~= before.push((text, all[i as int].1)));
                }
            },
            None => {},
        }
        i += 1;
    }
    proof {
        assert(all.take(all.len() as int) =~= all);
        assert(custom_views(tags@).len() == tags@.len());
    }
    if tags.len() == 0 {
        None
    } else {
        Some(tags)
    }
}

/// The custom tags in YAML.
pub fn custom_tags_from_yaml_bytes(bytes: &[u8]) -> (r: Option<Vec<CustomTag>>)
    ensures
        custom_option(r) == tags_of_mapping(yaml_mapping(bytes@)),
{
    match mapping_from_yaml(bytes) {
        Some(mapping) => custom_tags_from_mapping(mapping),
        None => None,
    }
}

/// The custom tags in JSON.
pub fn custom_tags_from_json_bytes(bytes: &[u8]) -> (r: Option<Vec<CustomTag>>)
    ensures
        custom_option(r) == tags_of_mapping(json_mapping(json_body(bytes@))),
{
    let body = custom_tag_json_body(bytes);
    match mapping_from_json(body.as_slice()) {
        Some(mapping) => custom_tags_from_mapping(mapping),
        None => None,
    }
}

/// The custom tags in a comment.
pub fn custom_tags_from_bytes(bytes: &[u8]) -> (r: Option<Vec<CustomTag>>)
    ensures
        custom_option(r) == decoded_tags(bytes@),
{
    let legacy = "exifmeta-custom-tags-v1\n".as_bytes();
    if has_bytes_at(bytes, 0, legacy) {
        let body = bytes_from(bytes, legacy.len());
        return custom_tags_from_yaml_bytes(body.as_slice());
    }
    let ascii = "ASCII\0\0\0".as_bytes();
    if has_bytes_at(bytes, 0, ascii) {
        let body = bytes_from(bytes, ascii.len());
        return custom_tags_from_json_bytes(body.as_slice());
    }
    custom_tags_from_json_bytes(bytes)
}

/// The mapping that tags make: later values of a name replace earlier ones.
pub open spec fn mapping_of_tags(tags: Seq<CustomView>) -> Seq<(Yaml, Yaml)>
    decreases tags.len(),
{
    if tags.len() == 0 {
        Seq::empty()
    } else {
        entry_set(
            mapping_of_tags(tags.drop_last()),
            Yaml::Text(tags.last().0),
            tags.last().1,
        )
    }
}

/// The payload that carries tags, or why there is none.
pub open spec fn encoded_tags(tags: Seq<CustomView>) -> Result<Seq<u8>, Seq<char>> {
    match json_emitted(mapping_of_tags(tags)) {
        Ok(text) => Ok(ascii_prefix() + payload_marker() + encode_utf8(text)),
        Err(error) => Err("failed to encode custom tags: "@ + error),
    }
}

/// Whether no two tags have the same name.
pub open spec fn have_distinct_names(tags: Seq<CustomView>) -> bool {
    forall|i: int, j: int|
        0 <= i < j < tags.len() ==> (#[trigger] tags[i]).0 != (#[trigger] tags[j]).0
}

/// Whether JSON holds the values of all tags as they are.
pub open spec fn are_json(tags: Seq<CustomView>) -> bool {
    forall|i: int| 0 <= i < tags.len() ==> is_json((#[trigger] tags[i]).1, (json_depth() - 1) as nat)
}

/// Whether a payload carries tags: what is decoded from it are the tags, with its
/// mark as ASCII text or without, and without its marker line too.
pub open spec fn is_carried(payload: Seq<u8>, tags: Seq<CustomView>) -> bool {
    &&& decoded_tags(payload) == Some(tags)
    &&& decoded_tags(payload.skip(ascii_prefix().len() as int)) == Some(tags)
    &&& decoded_tags(payload.skip((ascii_prefix().len() + payload_marker().len()) as int)) == Some(
        tags,
    )
}

/// Makes the payload that carries tags. Tags with distinct names, of values that
/// JSON holds, are carried: what is decoded from the payload are the tags that
/// were encoded.
pub fn encode_custom_tags(tags: &Vec<CustomTag>) -> (r: Result<Vec<u8>, String>)
    ensures
        match r {
            Ok(bytes) => encoded_tags(custom_views(tags@)) == Ok::<Seq<u8>, Seq<char>>(bytes@),
            Err(error) => encoded_tags(custom_views(tags@)) == Err::<Seq<u8>, Seq<char>>(error@),
        },
        are_json(custom_views(tags@)) ==> r is Ok,
        are_json(custom_views(tags@)) && have_distinct_names(custom_views(tags@)) && tags@.len() > 0
            ==> is_carried(r->Ok_0@, custom_views(tags@)),
{
    let mut mapping = empty_mapping();
    let ghost all = custom_views(tags@);
    let mut i: usize = 0;
    while i < tags.len()
        invariant
            i <= tags@.len(),
            all == custom_views(tags@),
            mapping_contents(mapping) == mapping_of_tags(all.take(i as int)),
        decreases tags@.len() - i,
    {
        proof {
            assert(all.take(i + 1).drop_last() =~= all.take(i as int));
        }
        mapping_insert(&mut mapping, tags[i].name.as_str(), tags[i].value.clone());
        i += 1;
    }
    proof {
        assert(all.take(all.len() as int) =~= all);
        if are_json(all) {
            lemma_mapping_is_json(all);
        }
    }
    let text = match mapping_to_json(&mapping) {
        Ok(text) => text,
        Err(error) => {
            let mut message = "failed to encode custom tags: ".to_owned();
            message.push_str(error.as_str());
            return Err(message);
        },
    };
    let mut bytes: Vec<u8> = Vec::new();
    append_bytes(&mut bytes, "ASCII\0\0\0".as_bytes());
    append_bytes(&mut bytes, "exifmeta-v0.1.0\n".as_bytes());
    append_bytes(&mut bytes, text.as_str().as_bytes());
    proof {
        let body = encode_utf8(text@);
        assert(bytes@ =~= ascii_prefix() + payload_marker() + body);
        lemma_first_byte(text@);
        lemma_payload_body(body);
        assert(bytes@.skip(ascii_prefix().len() as int) =~= payload_marker() + body);
        assert(bytes@.skip((ascii_prefix().len() + payload_marker().len()) as int) =~= body);
        if are_json(all) && have_distinct_names(all) {
            lemma_distinct_mapping(all);
            lemma_text_entries_of_mapping(all);
        }
    }
    Ok(bytes)
}

proof fn lemma_entry_set_json(entries: Seq<(Yaml, Yaml)>, key: Seq<char>, value: Yaml, depth: nat)
    requires
        is_json(value, depth),
        forall|i: int|
            0 <= i < entries.len() ==> (#[trigger] entries[i]).0 is Text && is_json(
                entries[i].1,
                depth,
            ),
    ensures
        forall|i: int|
            0 <= i < entry_set(entries, Yaml::Text(key), value).len() ==> (
            #[trigger] entry_set(entries, Yaml::Text(key), value)[i]).0 is Text && is_json(
                entry_set(entries, Yaml::Text(key), value)[i].1,
                depth,
            ),
    decreases entries.len(),
{
    let after = entry_set(entries, Yaml::Text(key), value);
    if entries.len() > 0 && entries[0].0 != Yaml::Text(key) {
        let rest = entries.skip(1);
        assert forall|i: int| 0 <= i < rest.len() implies (#[trigger] rest[i]).0 is Text
            && is_json(rest[i].1, depth) by {
            assert(rest[i] == entries[i + 1]);
        }
        lemma_entry_set_json(rest, key, value, depth);
        let tail = entry_set(rest, Yaml::Text(key), value);
        assert forall|i: int| 0 <= i < after.len() implies (#[trigger] after[i]).0 is Text
            && is_json(after[i].1, depth) by {
            if i > 0 {
                assert(after[i] == tail[i - 1]);
            } else {
                assert(after[0] == entries[0]);
            }
        }
    } else if entries.len() > 0 {
        assert forall|i: int| 0 <= i < after.len() implies (#[trigger] after[i]).0 is Text
            && is_json(after[i].1, depth) by {
            if i > 0 {
                assert(after[i] == entries[i]);
            }
        }
    }
}

proof fn lemma_mapping_entries_json(tags: Seq<CustomView>)
    requires
        are_json(tags),
    ensures
        forall|i: int|
            0 <= i < mapping_of_tags(tags).len() ==> (#[trigger] mapping_of_tags(tags)[i]).0 is Text
                && is_json(mapping_of_tags(tags)[i].1, (json_depth() - 1) as nat),
    decreases tags.len(),
{
    if tags.len() > 0 {
        let before = tags.drop_last();
        assert forall|i: int| 0 <= i < before.len() implies is_json(
            (#[trigger] before[i]).1,
            (json_depth() - 1) as nat,
        ) by {
            assert(before[i] == tags[i]);
        }
        lemma_mapping_entries_json(before);
        assert(is_json(tags[tags.len() - 1].1, (json_depth() - 1) as nat));
        lemma_entry_set_json(
            mapping_of_tags(before),
            tags.last().0,
            tags.last().1,
            (json_depth() - 1) as nat,
        );
    }
}

proof fn lemma_mapping_is_json(tags: Seq<CustomView>)
    requires
        are_json(tags),
    ensures
        is_json(Yaml::Mapping(mapping_of_tags(tags)), json_depth()),
{
    lemma_mapping_entries_json(tags);
}

/// The entries that tags with distinct names make: one for each, in their order.
pub open spec fn plain_entries(tags: Seq<CustomView>) -> Seq<(Yaml, Yaml)> {
    tags.map_values(|tag: CustomView| (Yaml::Text(tag.0), tag.1))
}

proof fn lemma_entry_set_new(entries: Seq<(Yaml, Yaml)>, key: Yaml, value: Yaml)
    requires
        forall|i: int| 0 <= i < entries.len() ==> (#[trigger] entries[i]).0 != key,
    ensures
        entry_set(entries, key, value) == entries.push((key, value)),
    decreases entries.len(),
{
    if entries.len() > 0 {
        let rest = entries.skip(1);
        assert forall|i: int| 0 <= i < rest.len() implies (#[trigger] rest[i]).0 != key by {
            assert(rest[i] == entries[i + 1]);
        }
        lemma_entry_set_new(rest, key, value);
        assert(entries[0].0 != key);
        assert(seq![entries[0]] + rest.push((key, value)) =~= entries.push((key, value)));
    } else {
        assert(seq![(key, value)] =~= entries.push((key, value)));
    }
}

proof fn lemma_distinct_mapping(tags: Seq<CustomView>)
    requires
        have_distinct_names(tags),
    ensures
        mapping_of_tags(tags) == plain_entries(tags),
    decreases tags.len(),
{
    if tags.len() > 0 {
        let before = tags.drop_last();
        assert forall|i: int, j: int| 0 <= i < j < before.len() implies (#[trigger] before[i]).0
            != (#[trigger] before[j]).0 by {
            assert(before[i] == tags[i] && before[j] == tags[j]);
        }
        lemma_distinct_mapping(before);
        let key = Yaml::Text(tags.last().0);
        assert forall|i: int| 0 <= i < plain_entries(before).len() implies (
        #[trigger] plain_entries(before)[i]).0 != key by {
            assert(tags[i].0 != tags[tags.len() - 1].0);
        }
        lemma_entry_set_new(plain_entries(before), key, tags.last().1);
        assert(plain_entries(before).push((key, tags.last().1)) =~= plain_entries(tags));
    } else {
        assert(plain_entries(tags) =~= Seq::empty());
    }
}

proof fn lemma_text_entries_of_mapping(tags: Seq<CustomView>)
    ensures
        text_entries(plain_entries(tags)) == tags,
    decreases tags.len(),
{
    if tags.len() > 0 {
        lemma_text_entries_of_mapping(tags.drop_last());
        assert(plain_entries(tags).drop_last() =~= plain_entries(tags.drop_last()));
        assert(tags.drop_last().push(tags.last()) =~= tags);
    } else {
        assert(text_entries(plain_entries(tags)) =~= tags);
    }
}

/// The marks of a payload in bytes: which byte each starts with, and where they
/// part ways.
pub proof fn lemma_marks()
    ensures
        ascii_prefix().len() == 8,
        ascii_prefix()[0] == 0x41,
        legacy_prefix().len() == 24,
        legacy_prefix()[0] == 0x65,
        legacy_prefix()[9] == 0x63,
        marker_prefix().len() == 10,
        marker_prefix()[0] == 0x65,
        payload_marker().len() == 16,
        payload_marker()[0] == 0x65,
        payload_marker()[9] == 0x76,
        payload_marker()[15] == 0x0a,
        forall|i: int| 0 <= i < 10 ==> #[trigger] marker_prefix()[i] == payload_marker()[i],
        forall|i: int| 10 <= i < 15 ==> #[trigger] payload_marker()[i] != 0x0a,
{
    reveal_strlit("ASCII\0\0\0");
    reveal_strlit("exifmeta-custom-tags-v1\n");
    reveal_strlit("exifmeta-v");
    reveal_strlit("exifmeta-v0.1.0\n");
    let ascii = "ASCII\0\0\0"@;
    let legacy = "exifmeta-custom-tags-v1\n"@;
    let prefix = "exifmeta-v"@;
    let marker = "exifmeta-v0.1.0\n"@;
    assert(is_ascii_chars(ascii));
    assert(is_ascii_chars(legacy));
    assert(is_ascii_chars(prefix));
    assert(is_ascii_chars(marker));
    is_ascii_chars_encode_utf8(ascii);
    is_ascii_chars_encode_utf8(legacy);
    is_ascii_chars_encode_utf8(prefix);
    is_ascii_chars_encode_utf8(marker);
    assert(ascii_prefix()[0] == ascii[0] as u8);
    assert(legacy_prefix()[0] == legacy[0] as u8);
    assert(legacy_prefix()[9] == legacy[9] as u8);
    assert(marker_prefix()[0] == prefix[0] as u8);
    assert(payload_marker()[0] == marker[0] as u8);
    assert(payload_marker()[9] == marker[9] as u8);
    assert(payload_marker()[15] == marker[15] as u8);
    assert forall|i: int| 0 <= i < 10 implies #[trigger] marker_prefix()[i] == payload_marker()[i] by {
        assert(marker_prefix()[i] == prefix[i] as u8);
        assert(payload_marker()[i] == marker[i] as u8);
        assert(prefix[i] == marker[i]);
    }
    assert forall|i: int| 10 <= i < 15 implies #[trigger] payload_marker()[i] != 0x0a by {
        assert(payload_marker()[i] == marker[i] as u8);
    }
}

/// Bytes do not start with others that differ from them somewhere.
pub proof fn lemma_no_start(bytes: Seq<u8>, prefix: Seq<u8>, i: int)
    requires
        0 <= i < prefix.len(),
        i >= bytes.len() || bytes[i] != prefix[i],
    ensures
        !bytes_start_with(bytes, prefix),
{
    if bytes_start_with(bytes, prefix) {
        assert(bytes.subrange(0, prefix.len() as int)[i] == prefix[i]);
    }
}

/// What stands behind the marker line is the JSON document.
proof fn lemma_marked_body(body: Seq<u8>)
    ensures
        json_body(payload_marker() + body) == body,
{
    lemma_marks();
    let bytes = payload_marker() + body;
    assert(bytes.subrange(0, marker_prefix().len() as int) =~= marker_prefix());
    let tail = bytes.skip(marker_prefix().len() as int);
    assert(tail[5] == 0x0a);
    assert forall|i: int| 0 <= i < 5 implies tail[i] != 0x0a by {
        assert(tail[i] == payload_marker()[i + 10]);
    }
    assert(tail.contains(0x0a));
    tail.index_of_first_ensures(0x0a);
    assert(tail.index_of_first(0x0a)->Some_0 == 5);
    assert(tail.skip(6) =~= body);
}

/// What a decoder finds in a payload is the document that was put behind its
/// marks, and the same without one of the marks or both.
proof fn lemma_payload_body(body: Seq<u8>)
    requires
        body.len() > 0,
        body[0] == 0x7b,
    ensures
        decoded_tags(ascii_prefix() + payload_marker() + body) == tags_of_mapping(
            json_mapping(body),
        ),
        decoded_tags(payload_marker() + body) == tags_of_mapping(json_mapping(body)),
        decoded_tags(body) == tags_of_mapping(json_mapping(body)),
{
    lemma_marks();
    lemma_marked_body(body);
    let bytes = ascii_prefix() + payload_marker() + body;
    let rest = payload_marker() + body;
    assert(bytes =~= ascii_prefix() + rest);
    lemma_no_start(bytes, legacy_prefix(), 0);
    assert(bytes.subrange(0, ascii_prefix().len() as int) =~= ascii_prefix());
    assert(bytes.skip(ascii_prefix().len() as int) =~= rest);
    lemma_no_start(rest, legacy_prefix(), 9);
    lemma_no_start(rest, ascii_prefix(), 0);
    lemma_no_start(body, legacy_prefix(), 0);
    lemma_no_start(body, ascii_prefix(), 0);
    lemma_no_start(body, marker_prefix(), 0);
}

proof fn lemma_first_byte(text: Seq<char>)
    requires
        text.len() > 0,
        text[0] == '{',
    ensures
        encode_utf8(text).len() > 0,
        encode_utf8(text)[0] == 0x7b,
{
    let brace = '{' as u32;
    assert(brace == 0x7b);
    assert(0x7bu32 & 0x7f == 0x7b) by (bit_vector);
    assert(encode_utf8(text) == encode_scalar(brace) + encode_utf8(text.drop_first()));
}

// ---------------------------------------------------------------------------
// User comments
// ---------------------------------------------------------------------------
/// Whether a field is a user comment.
pub open spec fn is_user_comment(field: FieldView) -> bool {
    field.context == TagContext::Exif && field.number == 0x9286
}

/// The bytes of a field that holds bytes or text.
pub open spec fn comment_bytes(value: ValueView) -> Option<Seq<u8>> {
    match value {
        ValueView::Undefined(bytes) => Some(bytes),
        ValueView::Ascii(values) => if values.len() > 0 {
            Some(values[0])
        } else {
            None
        },
        _ => None,
    }
}

/// The bytes of a user comment.
pub fn user_comment_bytes(field: &ExifField) -> (r: Option<&Vec<u8>>)
    ensures
        match r {
            Some(bytes) => comment_bytes(field@.value) == Some(bytes@),
            None => comment_bytes(field@.value) is None,
        },
{
    match &field.value {
        FieldValue::Undefined(bytes) => Some(bytes),
        FieldValue::Ascii(values) => if values.len() > 0 {
            Some(&values[0])
        } else {
            None
        },
        _ => None,
    }
}

/// The custom tags that a field carries.
pub open spec fn field_tags(field: FieldView) -> Option<Seq<CustomView>> {
    match comment_bytes(field.value) {
        Some(bytes) => decoded_tags(bytes),
        None => None,
    }
}

/// The custom tags in a field.
pub fn custom_tags_from_field(field: &ExifField) -> (r: Option<Vec<CustomTag>>)
    ensures
        custom_option(r) == field_tags(field@),
{
    match user_comment_bytes(field) {
        Some(bytes) => custom_tags_from_bytes(bytes.as_slice()),
        None => None,
    }
}

/// Whether a field is a user comment that carries custom tags.
pub open spec fn is_payload_field(field: FieldView) -> bool {
    is_user_comment(field) && field_tags(field) is Some
}

/// Whether a field holds custom tags.
pub fn is_exifmeta_custom_payload_field(field: &ExifField) -> (r: bool)
    ensures
        r == is_payload_field(field@),
{
    field.context == TagContext::Exif && field.number == 0x9286 && custom_tags_from_field(
        field,
    ).is_some()
}

/// The custom tags of an image: those of the first user comment that carries
/// any.
pub open spec fn tags_of_fields(fields: Seq<FieldView>) -> Seq<CustomView>
    decreases fields.len(),
{
    if fields.len() == 0 {
        Seq::empty()
    } else if is_payload_field(fields[0]) {
        field_tags(fields[0])->Some_0
    } else {
        tags_of_fields(fields.skip(1))
    }
}

/// The custom tags of an image.
pub fn custom_tags_from_exif(fields: &Vec<ExifField>) -> (r: Vec<CustomTag>)
    ensures
        custom_views(r@) == tags_of_fields(crate::exif_data::field_views(fields@)),
{
    let ghost all = crate::exif_data::field_views(fields@);
    let mut i: usize = 0;
    proof {
        assert(all.skip(0) =~= all);
    }
    while i < fields.len()
        invariant
            i <= fields@.len(),
            all == crate::exif_data::field_views(fields@),
            tags_of_fields(all) == tags_of_fields(all.skip(i as int)),
        decreases fields@.len() - i,
    {
        proof {
            assert(all.skip(i as int)[0] == all[i as int]);
            assert(all.skip(i as int).skip(1) =~= all.skip(i + 1));
        }
        let field = &fields[i];
        if field.context == TagContext::Exif && field.number == 0x9286 {
            match custom_tags_from_field(field) {
                Some(tags) => {
                    return tags;
                },
                None => {},
            }
        }
        i += 1;
    }
    let none: Vec<CustomTag> = Vec::new();
    proof {
        assert(custom_views(none@) =~= Seq::empty());
    }
    none
}

/// A value as it is shown.
pub open spec fn value_label(value: Yaml) -> Seq<char> {
    match value {
        Yaml::Null => "<null>"@,
        Yaml::Bool(value) => if value {
            "true"@
        } else {
            "false"@
        },
        Yaml::Number(text, _, _) => text,
        Yaml::Text(text) => text,
        Yaml::Tagged(_, _) => yaml_debug(value),
        _ => match yaml_emitted(value) {
            Some(text) => replace_char(trim(text), '\n', ' '),
            None => yaml_debug(value),
        },
    }
}

/// The value of a custom tag as it is shown.
pub fn custom_tag_value_label(value: &Value) -> (r: String)
    ensures
        r@ == value_label(yaml_contents(*value)),
{
    match yaml_shape(value) {
        YamlShape::Null => "<null>".to_owned(),
        YamlShape::Bool(value) => bool_text(value),
        YamlShape::Number(number) => number.text,
        YamlShape::Text(text) => text,
        YamlShape::Tagged(_, _) => debug_text(value),
        _ => match emitted_text(value) {
            Some(text) => text_replace_char(text_trim(text.as_str()), '\n', ' '),
            None => debug_text(value),
        },
    }
}

} // verus!
