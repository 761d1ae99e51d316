//! Writing the tags of one image, step by step.

use crate::convert::{
    expand_location_tag, expanded_location, is_blank, is_blank_yaml_value, tag_for,
    writable_exif_tag, Measured, PlaceLookup, WriteTagError,
};
use crate::payload::{
    are_json, custom_tags_from_bytes, custom_views, decoded_tags, encode_custom_tags, encoded_tags,
    have_distinct_names, is_carried, CustomTag, CustomView,
};
use crate::plan::{lemma_with_tag_set_at, lemma_with_tag_set_new, with_tag_set, WriteTag};
use crate::strip_run::{StripFileResult, StripView};
use crate::text::{append_texts, same, texts};
use crate::writable::{
    are_distinct, byte_slot, comment_of, directories, directory_views, exif_tag, has_in, has_tag,
    holds, lemma_directory_is_shelved, lemma_has_in_store, lemma_with_filed, metadata_contents,
    new_metadata, set_tag, slot_of, stands, store, tag_name, tag_views, tags_at, tags_numbered,
    user_comments, with_filed, writable_tag_identity, writable_tag_name, written_view, ByteTag,
    DirectoryView, Place, Slot, Store, StoredDirectory, TagGroup, TagView, WritableTag,
    WritableView,
};
use little_exif::metadata::Metadata;
use vstd::prelude::*;

verus! {

/// A tag to write, with what its value comes to as a number and, for a location,
/// what came of looking the place up.
#[derive(Debug)]
pub struct MeasuredTag {
    pub tag: WriteTag,
    pub measured: Measured,
    pub place: PlaceLookup,
}

/// Tags sorted out: those that EXIF defines, the custom ones, and what there is
/// to warn about.
pub struct SortedTags {
    pub writable: Seq<WritableView>,
    pub custom: Seq<CustomView>,
    pub warnings: Seq<Seq<char>>,
}

pub open spec fn nothing_sorted() -> SortedTags {
    SortedTags { writable: Seq::empty(), custom: Seq::empty(), warnings: Seq::empty() }
}

/// The tags with one more sorted out. A blank value is passed over; a location
/// becomes the tags of its position; a tag that cannot be written as it is
/// becomes a custom one.
pub open spec fn with_sorted(sorted: SortedTags, tag: MeasuredTag) -> SortedTags {
    let name = tag.tag@.0;
    let value = tag.tag@.1;
    if is_blank(value) {
        sorted
    } else if name == "$Location"@ {
        match expanded_location(value, tag.place) {
            Ok(tags) => SortedTags { writable: sorted.writable + tags, ..sorted },
            Err(None) => sorted,
            Err(Some(warning)) => SortedTags { warnings: sorted.warnings.push(warning), ..sorted },
        }
    } else {
        match tag_for(name, value, tag.measured@) {
            Some(writable) => SortedTags { writable: sorted.writable.push(writable), ..sorted },
            None => SortedTags { custom: sorted.custom.push((name, value)), ..sorted },
        }
    }
}

pub open spec fn sorted_tags(tags: Seq<MeasuredTag>) -> SortedTags
    decreases tags.len(),
{
    if tags.len() == 0 {
        nothing_sorted()
    } else {
        with_sorted(sorted_tags(tags.drop_last()), tags.last())
    }
}

/// `tags` with one set: in place of the first in its slot, else behind the
/// others.
pub open spec fn with_slot_set(tags: Seq<WritableView>, tag: WritableView) -> Seq<WritableView>
    decreases tags.len(),
{
    if tags.len() == 0 {
        seq![tag]
    } else if slot_of(tags[0]) == slot_of(tag) {
        seq![tag] + tags.skip(1)
    } else {
        seq![tags[0]] + with_slot_set(tags.skip(1), tag)
    }
}

/// The tags with one for each slot: the last that was given.
pub open spec fn deduped(tags: Seq<WritableView>) -> Seq<WritableView>
    decreases tags.len(),
{
    if tags.len() == 0 {
        Seq::empty()
    } else {
        with_slot_set(deduped(tags.drop_last()), tags.last())
    }
}

proof fn lemma_slot_set_at(tags: Seq<WritableView>, tag: WritableView, i: int)
    requires
        0 <= i < tags.len(),
        slot_of(tags[i]) == slot_of(tag),
        forall|k: int| 0 <= k < i ==> slot_of(#[trigger] tags[k]) != slot_of(tag),
    ensures
        with_slot_set(tags, tag) == tags.update(i, tag),
    decreases i,
{
    if i == 0 {
        assert(seq![tag] + tags.skip(1) =~= tags.update(0, tag));
    } else {
        let rest = tags.skip(1);
        assert forall|k: int| 0 <= k < i - 1 implies slot_of(#[trigger] rest[k]) != slot_of(tag) by {
            assert(rest[k] == tags[k + 1]);
        }
        lemma_slot_set_at(rest, tag, i - 1);
        assert(slot_of(tags[0]) != slot_of(tag));
        assert(seq![tags[0]] + rest.update(i - 1, tag) =~= tags.update(i, tag));
    }
}

proof fn lemma_slot_set_new(tags: Seq<WritableView>, tag: WritableView)
    requires
        forall|k: int| 0 <= k < tags.len() ==> slot_of(#[trigger] tags[k]) != slot_of(tag),
    ensures
        with_slot_set(tags, tag) == tags.push(tag),
    decreases tags.len(),
{
    if tags.len() == 0 {
        assert(seq![tag] =~= tags.push(tag));
    } else {
        let rest = tags.skip(1);
        assert forall|k: int| 0 <= k < rest.len() implies slot_of(#[trigger] rest[k]) != slot_of(
            tag,
        ) by {
            assert(rest[k] == tags[k + 1]);
        }
        lemma_slot_set_new(rest, tag);
        assert(slot_of(tags[0]) != slot_of(tag));
        assert(seq![tags[0]] + rest.push(tag) =~= tags.push(tag));
    }
}

fn set_slot(tags: &mut Vec<WritableTag>, tag: WritableTag)
    ensures
        tag_views(final(tags)@) == with_slot_set(tag_views(old(tags)@), tag@),
{
    let slot = writable_tag_identity(&tag);
    let ghost before = tag_views(tags@);
    let ghost view = tag@;
    let mut i: usize = 0;
    while i < tags.len()
        invariant
            i <= tags@.len(),
            tags@ == old(tags)@,
            before == tag_views(tags@),
            slot == slot_of(view),
            tag@ == view,
            forall|k: int| 0 <= k < i ==> slot_of(#[trigger] before[k]) != slot_of(view),
        decreases tags@.len() - i,
    {
        let other = writable_tag_identity(&tags[i]);
        if other.0 == slot.0 && other.1 == slot.1 {
            proof {
                assert(before[i as int] == tags@[i as int]@);
                lemma_slot_set_at(before, view, i as int);
            }
            tags[i] = tag;
            proof {
                assert(tag_views(tags@) =~= before.update(i as int, view));
            }
            return;
        }
        i += 1;
    }
    tags.push(tag);
    proof {
        lemma_slot_set_new(before, view);
        assert(tag_views(tags@) =~= before.push(view));
    }
}

/// Leaves one tag of each slot, the last.
pub fn dedupe_writable_tags(tags: Vec<WritableTag>) -> (r: Vec<WritableTag>)
    ensures
        tag_views(r@) == deduped(tag_views(tags@)),
{
    let ghost input = tags@;
    let ghost all = tag_views(tags@);
    let mut out: Vec<WritableTag> = Vec::new();
    proof {
        assert(tag_views(out@) =~= Seq::empty());
    }
    for tag in it: tags
        invariant
            it.seq() == input,
            all == tag_views(input),
            tag_views(out@) == deduped(all.take(it.index())),
    {
        proof {
            assert(all.take(it.index() + 1).drop_last() =~= all.take(it.index()));
            assert(all.take(it.index() + 1).last() == tag@);
        }
        set_slot(&mut out, tag);
    }
    proof {
        assert(all.take(all.len() as int) =~= all);
    }
    out
}

/// The tags of an image, ready to be written.
#[derive(Debug)]
pub struct PreparedTags {
    pub writable: Vec<WritableTag>,
    pub custom_count: usize,
    pub warnings: Vec<String>,
    pub errors: Vec<String>,
}

pub struct PreparedView {
    pub writable: Seq<WritableView>,
    pub custom_count: nat,
    pub warnings: Seq<Seq<char>>,
    pub errors: Seq<Seq<char>>,
}

impl View for PreparedTags {
    type V = PreparedView;

    open spec fn view(&self) -> PreparedView {
        PreparedView {
            writable: tag_views(self.writable@),
            custom_count: self.custom_count as nat,
            warnings: texts(self.warnings@),
            errors: texts(self.errors@),
        }
    }
}

/// The tags that are written: one for each slot, and behind them the payload of
/// the custom tags.
pub open spec fn prepared_sorted(sorted: SortedTags) -> PreparedView {
    let plain = PreparedView {
        writable: deduped(sorted.writable),
        custom_count: sorted.custom.len(),
        warnings: sorted.warnings,
        errors: Seq::empty(),
    };
    if sorted.custom.len() == 0 {
        plain
    } else {
        match encoded_tags(sorted.custom) {
            Ok(payload) => PreparedView {
                writable: plain.writable.push(WritableView::Bytes(ByteTag::UserComment, payload)),
                ..plain
            },
            Err(error) => PreparedView { errors: seq![error], ..plain },
        }
    }
}

/// What is written of a list of tags.
pub open spec fn prepared_tags(tags: Seq<MeasuredTag>) -> PreparedView {
    prepared_sorted(sorted_tags(tags))
}

/// A tag that is edited, sorted out. Where it becomes a custom one it is set among
/// those that the image holds, which share one place in the file; where it does not,
/// they are left alone.
pub open spec fn sorted_edit(tag: MeasuredTag, held: Seq<CustomView>) -> SortedTags {
    let own = with_sorted(nothing_sorted(), tag);
    SortedTags {
        custom: if own.custom.len() == 0 {
            own.custom
        } else {
            with_tag_set(held, tag.tag@)
        },
        ..own
    }
}

/// What is written of a tag that is edited. It counts for one tag, whatever is
/// written along with it.
pub open spec fn prepared_edit(tag: MeasuredTag, held: Seq<CustomView>) -> PreparedView {
    PreparedView {
        custom_count: with_sorted(nothing_sorted(), tag).custom.len(),
        ..prepared_sorted(sorted_edit(tag, held))
    }
}

/// Whether the custom tags, where JSON holds them and each has a name of its own,
/// are read back from the comment that is written last.
pub open spec fn has_readable_payload(prepared: PreparedView, custom: Seq<CustomView>) -> bool {
    are_json(custom) && have_distinct_names(custom) && custom.len() > 0 ==> {
        &&& prepared.errors.len() == 0
        &&& prepared.writable.len() > 0
        &&& match prepared.writable.last() {
            WritableView::Bytes(kind, payload) => kind == ByteTag::UserComment && is_carried(
                payload,
                custom,
            ),
            _ => false,
        }
    }
}

fn sort_tag(
    tag: &MeasuredTag,
    writable: &mut Vec<WritableTag>,
    custom: &mut Vec<CustomTag>,
    warnings: &mut Vec<String>,
)
    ensures
        ({
            let before = SortedTags {
                writable: tag_views(old(writable)@),
                custom: custom_views(old(custom)@),
                warnings: texts(old(warnings)@),
            };
            let after = with_sorted(before, *tag);
            &&& tag_views(final(writable)@) == after.writable
            &&& custom_views(final(custom)@) == after.custom
            &&& texts(final(warnings)@) == after.warnings
        }),
{
    let ghost writable_before = tag_views(writable@);
    let ghost custom_before = custom_views(custom@);
    let ghost warnings_before = texts(warnings@);
    if is_blank_yaml_value(&tag.tag.value) {
        return ;
    }
    if same(tag.tag.name.as_str(), "$Location") {
        match expand_location_tag(&tag.tag.value, &tag.place) {
            Ok(expanded) => {
                let ghost added = tag_views(expanded@);
                let mut more = expanded;
                writable.append(&mut more);
                proof {
                    assert(tag_views(writable@) =~= writable_before + added);
                }
            },
            Err(WriteTagError::Ignored) => {},
            Err(WriteTagError::Warning(message)) => {
                let ghost text = message@;
                warnings.push(message);
                proof {
                    assert(texts(warnings@) =~= warnings_before.push(text));
                }
            },
        }
        return ;
    }
    match writable_exif_tag(tag.tag.name.as_str(), &tag.tag.value, &tag.measured) {
        Some(found) => {
            let ghost view = found@;
            writable.push(found);
            proof {
                assert(tag_views(writable@) =~= writable_before.push(view));
            }
        },
        None => {
            custom.push(
                CustomTag { name: tag.tag.name.clone(), value: tag.tag.value.clone() },
            );
            proof {
                assert(custom_views(custom@) =~= custom_before.push(tag.tag@));
            }
        },
    }
}

fn prepare_sorted(
    writable: Vec<WritableTag>,
    custom: &Vec<CustomTag>,
    warnings: Vec<String>,
) -> (r: PreparedTags)
    ensures
        r@ == prepared_sorted(
            SortedTags {
                writable: tag_views(writable@),
                custom: custom_views(custom@),
                warnings: texts(warnings@),
            },
        ),
        has_readable_payload(r@, custom_views(custom@)),
{
    let mut writable = dedupe_writable_tags(writable);
    let mut errors: Vec<String> = Vec::new();
    let ghost plain = tag_views(writable@);
    proof {
        assert(texts(errors@) =~= Seq::empty());
        assert(custom_views(custom@).len() == custom@.len());
    }
    if custom.len() > 0 {
        match encode_custom_tags(custom) {
            Ok(payload) => {
                let ghost bytes = payload@;
                writable.push(WritableTag::Bytes(ByteTag::UserComment, payload));
                proof {
                    assert(tag_views(writable@) =~= plain.push(
                        WritableView::Bytes(ByteTag::UserComment, bytes),
                    ));
                }
            },
            Err(error) => {
                let ghost text = error@;
                errors.push(error);
                proof {
                    assert(texts(errors@) =~= seq![text]);
                }
            },
        }
    }
    PreparedTags { writable, custom_count: custom.len(), warnings, errors }
}

/// Sorts the tags to write into EXIF tags and custom tags.
pub fn prepare_tags(tags: &Vec<MeasuredTag>) -> (r: PreparedTags)
    ensures
        r@ == prepared_tags(tags@),
        has_readable_payload(r@, sorted_tags(tags@).custom),
{
    let mut writable: Vec<WritableTag> = Vec::new();
    let mut custom: Vec<CustomTag> = Vec::new();
    let mut warnings: Vec<String> = Vec::new();
    let mut i: usize = 0;
    proof {
        assert(tag_views(writable@) =~= Seq::empty());
        assert(custom_views(custom@) =~= Seq::empty());
        assert(texts(warnings@) =~= Seq::empty());
    }
    while i < tags.len()
        invariant
            i <= tags@.len(),
            (SortedTags {
                writable: tag_views(writable@),
                custom: custom_views(custom@),
                warnings: texts(warnings@),
            }) == sorted_tags(tags@.take(i as int)),
        decreases tags@.len() - i,
    {
        proof {
            assert(tags@.take(i + 1).drop_last() =~= tags@.take(i as int));
        }
        sort_tag(&tags[i], &mut writable, &mut custom, &mut warnings);
        i += 1;
    }
    proof {
        assert(tags@.take(tags@.len() as int) =~= tags@);
    }
    prepare_sorted(writable, &custom, warnings)
}

fn set_custom_tag(tags: &mut Vec<CustomTag>, tag: CustomTag)
    ensures
        custom_views(final(tags)@) == with_tag_set(custom_views(old(tags)@), tag@),
{
    let ghost before = custom_views(tags@);
    let ghost view = tag@;
    let mut i: usize = 0;
    while i < tags.len()
        invariant
            i <= tags@.len(),
            tags@ == old(tags)@,
            before == custom_views(tags@),
            view == tag@,
            forall|k: int| 0 <= k < i ==> (#[trigger] before[k]).0 != view.0,
        decreases tags@.len() - i,
    {
        if same(tags[i].name.as_str(), tag.name.as_str()) {
            tags[i] = tag;
            proof {
                lemma_with_tag_set_at(before, view, i as int);
                assert(custom_views(tags@) =~= before.update(i as int, view));
            }
            return;
        }
        i += 1;
    }
    tags.push(tag);
    proof {
        lemma_with_tag_set_new(before, view);
        assert(custom_views(tags@) =~= before.push(view));
    }
}

/// Sorts out a tag that is edited in an image with custom tags.
pub fn prepare_edit(tag: &MeasuredTag, held: Vec<CustomTag>) -> (r: PreparedTags)
    ensures
        r@ == prepared_edit(*tag, custom_views(held@)),
        has_readable_payload(r@, sorted_edit(*tag, custom_views(held@)).custom),
{
    let mut writable: Vec<WritableTag> = Vec::new();
    let mut custom: Vec<CustomTag> = Vec::new();
    let mut warnings: Vec<String> = Vec::new();
    proof {
        assert(tag_views(writable@) =~= Seq::empty());
        assert(custom_views(custom@) =~= Seq::empty());
        assert(texts(warnings@) =~= Seq::empty());
    }
    sort_tag(tag, &mut writable, &mut custom, &mut warnings);
    let ghost sorted = custom@;
    proof {
        assert(custom_views(sorted).len() == sorted.len());
    }
    let custom_count: usize = custom.len();
    if let Some(own) = custom.pop() {
        proof {
            assert(own@ == custom_views(sorted)[0]);
        }
        custom = held;
        set_custom_tag(&mut custom, own);
    }
    let prepared = prepare_sorted(writable, &custom, warnings);
    PreparedTags { custom_count, ..prepared }
}

// ---------------------------------------------------------------------------
// The steps
// ---------------------------------------------------------------------------
/// What became of writing to one image.
#[derive(Debug)]
pub struct WriteFileResult {
    pub written: u128,
    pub strip_attempted: bool,
    pub stripped: bool,
    pub removed_tags: usize,
    pub skipped: Vec<String>,
    pub warnings: Vec<String>,
    pub errors: Vec<String>,
}

pub struct WriteView {
    pub written: nat,
    pub strip_attempted: bool,
    pub stripped: bool,
    pub removed_tags: nat,
    pub skipped: Seq<Seq<char>>,
    pub warnings: Seq<Seq<char>>,
    pub errors: Seq<Seq<char>>,
}

impl View for WriteFileResult {
    type V = WriteView;

    open spec fn view(&self) -> WriteView {
        WriteView {
            written: self.written as nat,
            strip_attempted: self.strip_attempted,
            stripped: self.stripped,
            removed_tags: self.removed_tags as nat,
            skipped: texts(self.skipped@),
            warnings: texts(self.warnings@),
            errors: texts(self.errors@),
        }
    }
}

pub open spec fn no_write() -> WriteView {
    WriteView {
        written: 0,
        strip_attempted: false,
        stripped: false,
        removed_tags: 0,
        skipped: Seq::empty(),
        warnings: Seq::empty(),
        errors: Seq::empty(),
    }
}

impl Default for WriteFileResult {
    fn default() -> (r: WriteFileResult)
        ensures
            r@ == no_write(),
    {
        let r = WriteFileResult {
            written: 0,
            strip_attempted: false,
            stripped: false,
            removed_tags: 0,
            skipped: Vec::new(),
            warnings: Vec::new(),
            errors: Vec::new(),
        };
        proof {
            assert(texts(r.skipped@) =~= Seq::empty());
            assert(texts(r.warnings@) =~= Seq::empty());
            assert(texts(r.errors@) =~= Seq::empty());
        }
        r
    }
}

/// What a write starts with: what there is to say of the tags, and of the strip
/// before them, if there was one. After a strip it ends with errors.
pub open spec fn write_start(prepared: PreparedView, strip: Option<StripView>) -> (WriteView, bool) {
    match strip {
        None => (
            WriteView { warnings: prepared.warnings, errors: prepared.errors, ..no_write() },
            true,
        ),
        Some(strip) => (
            WriteView {
                strip_attempted: true,
                stripped: strip.stripped,
                removed_tags: strip.removed_tags,
                warnings: prepared.warnings + strip.warnings,
                errors: prepared.errors + strip.errors,
                ..no_write()
            },
            prepared.errors.len() + strip.errors.len() == 0,
        ),
    }
}

pub open spec fn strip_option(strip: Option<StripFileResult>) -> Option<StripView> {
    match strip {
        Some(strip) => Some(strip@),
        None => None,
    }
}

/// Starts writing to an image; the second result says whether to go on.
pub fn apply_tags_to_image(prepared: &PreparedTags, strip: &Option<StripFileResult>) -> (r: (
    WriteFileResult,
    bool,
))
    ensures
        (r.0@, r.1) == write_start(prepared@, strip_option(*strip)),
{
    let mut result = WriteFileResult::default();
    append_texts(&mut result.warnings, &prepared.warnings);
    append_texts(&mut result.errors, &prepared.errors);
    proof {
        assert(texts(result.warnings@) =~= prepared@.warnings);
        assert(texts(result.errors@) =~= prepared@.errors);
    }
    match strip {
        Some(strip) => {
            result.strip_attempted = true;
            result.stripped = strip.stripped;
            result.removed_tags = strip.removed_tags;
            append_texts(&mut result.warnings, &strip.warnings);
            append_texts(&mut result.errors, &strip.errors);
            proof {
                assert(texts(result.errors@).len() == result.errors@.len());
            }
            let go_on = result.errors.len() == 0;
            (result, go_on)
        },
        None => (result, true),
    }
}

/// Whether a user comment carries custom tags.
pub open spec fn carries_tags(comment: TagView) -> bool {
    comment_of(comment) is Some && decoded_tags(comment_of(comment)->Some_0) is Some
}

/// Whether there is a user comment that carries something else.
pub open spec fn has_foreign_comment(directories: Seq<DirectoryView>) -> bool {
    exists|i: int|
        0 <= i < tags_at(directories, byte_slot(ByteTag::UserComment)).len() && !carries_tags(
            #[trigger] tags_at(directories, byte_slot(ByteTag::UserComment))[i],
        )
}

fn finds_foreign_comment(metadata: &Metadata) -> (r: bool)
    ensures
        r == has_foreign_comment(metadata_contents(*metadata)),
{
    let comments = user_comments(metadata);
    let ghost found = tags_at(metadata_contents(*metadata), byte_slot(ByteTag::UserComment));
    let mut i: usize = 0;
    while i < comments.len()
        invariant
            i <= comments@.len(),
            found == tags_at(metadata_contents(*metadata), byte_slot(ByteTag::UserComment)),
            comments@.len() == found.len(),
            forall|k: int|
                0 <= k < comments@.len() ==> (match #[trigger] comments@[k] {
                    Some(bytes) => Some(bytes@),
                    None => None,
                }) == comment_of(found[k]),
            forall|k: int| 0 <= k < i ==> carries_tags(#[trigger] found[k]),
        decreases comments@.len() - i,
    {
        proof {
            assert(comments@[i as int] == comments@[i as int]);
        }
        let carried = match &comments[i] {
            Some(bytes) => custom_tags_from_bytes(bytes.as_slice()).is_some(),
            None => false,
        };
        if !carried {
            proof {
                assert(!carries_tags(found[i as int]));
            }
            return true;
        }
        i += 1;
    }
    false
}

/// The slots that hold something.
pub open spec fn held_slots(directories: Seq<DirectoryView>) -> Set<Slot> {
    Set::new(|slot: Slot| holds(directories, slot))
}

pub open spec fn is_payload(tag: WritableView) -> bool {
    tag matches WritableView::Bytes(kind, _) && kind == ByteTag::UserComment
}

/// What setting tags comes to: the slots that hold something, the tags that
/// were skipped because theirs did, and how many tags are to be written.
pub struct Applied {
    pub held: Set<Slot>,
    pub skipped: Seq<Seq<char>>,
    pub pending: nat,
}

/// What is said of a tag that is skipped.
pub open spec fn skip_message(tag: WritableView) -> Seq<char> {
    (match tag_name(tag) {
        Some(name) => name,
        None => "UserComment"@,
    }) + " already exists"@
}

/// The tags set in their order. Where nothing is to be overwritten, a tag whose
/// slot holds something is skipped. The payload of custom tags counts for all of
/// them.
pub open spec fn applied(
    tags: Seq<WritableView>,
    held: Set<Slot>,
    no_overwrite: bool,
    custom_count: nat,
) -> Applied
    decreases tags.len(),
{
    if tags.len() == 0 {
        Applied { held, skipped: Seq::empty(), pending: 0 }
    } else {
        let before = applied(tags.drop_last(), held, no_overwrite, custom_count);
        let tag = tags.last();
        if is_skipped(tag, before, no_overwrite) {
            Applied { skipped: before.skipped.push(skip_message(tag)), ..before }
        } else {
            Applied {
                held: before.held.insert(slot_of(tag)),
                pending: before.pending + (if is_payload(tag) {
                    custom_count
                } else {
                    1
                }),
                ..before
            }
        }
    }
}

/// Whether a tag is skipped, where some tags were set before it.
pub open spec fn is_skipped(tag: WritableView, before: Applied, no_overwrite: bool) -> bool {
    no_overwrite && before.held.contains(slot_of(tag))
}

/// What is filed once the tags are set in their order, each in the first
/// directory of its group in place of those with its number there.
pub open spec fn stored_after(
    tags: Seq<WritableView>,
    held: Set<Slot>,
    store: Store,
    no_overwrite: bool,
) -> Store
    decreases tags.len(),
{
    if tags.len() == 0 {
        store
    } else {
        let before = stored_after(tags.drop_last(), held, store, no_overwrite);
        if is_skipped(tags.last(), applied(tags.drop_last(), held, no_overwrite, 0), no_overwrite) {
            before
        } else {
            with_filed(before, (slot_of(tags.last()).0, 0u32), written_view(tags.last()))
        }
    }
}

/// Whether tags can be filed: there is a directory for each of them, or one can be
/// added, which takes that none is there twice.
pub open spec fn takes_tags(directories: Seq<DirectoryView>, tags: Seq<WritableView>) -> bool {
    are_distinct(directories) || forall|i: int|
        0 <= i < tags.len() ==> has_first_directory(directories, slot_of(#[trigger] tags[i]).0)
}

/// Whether the first image has a directory of a group.
pub open spec fn has_first_directory(directories: Seq<DirectoryView>, group: TagGroup) -> bool {
    store(directories)[(group, 0u32)].len() > 0
}

proof fn lemma_held_ignores_count(
    tags: Seq<WritableView>,
    held: Set<Slot>,
    no_overwrite: bool,
    custom_count: nat,
)
    ensures
        applied(tags, held, no_overwrite, custom_count).held == applied(
            tags,
            held,
            no_overwrite,
            0,
        ).held,
    decreases tags.len(),
{
    if tags.len() > 0 {
        lemma_held_ignores_count(tags.drop_last(), held, no_overwrite, custom_count);
    }
}

proof fn lemma_pending_bound(
    tags: Seq<WritableView>,
    held: Set<Slot>,
    no_overwrite: bool,
    custom_count: nat,
)
    ensures
        applied(tags, held, no_overwrite, custom_count).pending <= tags.len() * (custom_count + 1),
    decreases tags.len(),
{
    if tags.len() > 0 {
        lemma_pending_bound(tags.drop_last(), held, no_overwrite, custom_count);
        let n = tags.len();
        assert((n - 1) * (custom_count + 1) + (custom_count + 1) == n * (custom_count + 1))
            by (nonlinear_arith);
    } else {
        assert(0 * (custom_count + 1) == 0) by (nonlinear_arith);
    }
}

/// Whether tags were set in metadata, and nothing else: what it held and holds, what
/// the result said and says, and how many tags are to be written. A comment of
/// another program that custom tags replace is warned about.
pub open spec fn are_set(
    start: Seq<DirectoryView>,
    end: Seq<DirectoryView>,
    tags: Seq<WritableView>,
    custom_count: nat,
    no_overwrite: bool,
    before: WriteView,
    after: WriteView,
    pending: nat,
) -> bool {
    let done = applied(tags, held_slots(start), no_overwrite, custom_count);
    &&& pending == done.pending
    &&& held_slots(end) == done.held
    &&& store(end) == stored_after(tags, held_slots(start), store(start), no_overwrite)
    &&& after == (WriteView {
        skipped: before.skipped + done.skipped,
        warnings: if custom_count > 0 && !no_overwrite && has_foreign_comment(start) {
            before.warnings.push("replacing existing non-exifmeta UserComment"@)
        } else {
            before.warnings
        },
        ..before
    })
}

/// Sets the tags in the metadata of an image, and nothing else.
#[verifier::loop_isolation(false)]
pub fn write_tags(
    metadata: &mut Metadata,
    tags: Vec<WritableTag>,
    custom_count: usize,
    no_overwrite: bool,
    result: &mut WriteFileResult,
) -> (r: u128)
    requires
        takes_tags(metadata_contents(*old(metadata)), tag_views(tags@)),
    ensures
        are_set(
            metadata_contents(*old(metadata)),
            metadata_contents(*final(metadata)),
            tag_views(tags@),
            custom_count as nat,
            no_overwrite,
            old(result)@,
            final(result)@,
            r as nat,
        ),
{
    let ghost start = metadata_contents(*metadata);
    let ghost held = held_slots(start);
    let ghost warnings_before = texts(result.warnings@);
    let ghost skipped_before = texts(result.skipped@);
    if custom_count > 0 && !no_overwrite && finds_foreign_comment(metadata) {
        result.warnings.push("replacing existing non-exifmeta UserComment".to_owned());
        proof {
            assert(texts(result.warnings@) =~= warnings_before.push(
                "replacing existing non-exifmeta UserComment"@,
            ));
        }
    }
    let ghost warnings_after = texts(result.warnings@);
    let ghost all = tag_views(tags@);
    let ghost input = tags@;
    let ghost count = custom_count as nat;
    let total: usize = tags.len();
    let mut pending: u128 = 0;
    proof {
        assert(skipped_before + Seq::<Seq<char>>::empty() =~= skipped_before);
    }
    for tag in it: tags
        invariant
            it.seq() == input,
            all == tag_views(input),
            total == input.len(),
            pending == applied(all.take(it.index()), held, no_overwrite, count).pending,
            held_slots(metadata_contents(*metadata)) == applied(
                all.take(it.index()),
                held,
                no_overwrite,
                count,
            ).held,
            are_distinct(start) ==> are_distinct(metadata_contents(*metadata)),
            forall|place: Place|
                (#[trigger] store(metadata_contents(*metadata))[place]).len() >= store(
                    start,
                )[place].len(),
            store(metadata_contents(*metadata)) == stored_after(
                all.take(it.index()),
                held,
                store(start),
                no_overwrite,
            ),
            texts(result.skipped@) == skipped_before + applied(
                all.take(it.index()),
                held,
                no_overwrite,
                count,
            ).skipped,
            texts(result.warnings@) == warnings_after,
            result.written == old(result).written,
            result.strip_attempted == old(result).strip_attempted,
            result.stripped == old(result).stripped,
            result.removed_tags == old(result).removed_tags,
            result.errors == old(result).errors,
    {
        let ghost k = it.index();
        let ghost view = tag@;
        let ghost now = metadata_contents(*metadata);
        proof {
            assert(all.take(k + 1).drop_last() =~= all.take(k));
            assert(all.take(k + 1).last() == view);
            lemma_pending_bound(all.take(k), held, no_overwrite, count);
            lemma_held_ignores_count(all.take(k), held, no_overwrite, count);
            assert(k * (count + 1) + (count + 1) <= u128::MAX) by (nonlinear_arith)
                requires
                    k < total,
                    total <= usize::MAX,
                    count <= usize::MAX,
                    usize::MAX <= 0xffff_ffff_ffff_ffff,
                    k >= 0,
                    count >= 0,
            ;
        }
        let payload = match &tag {
            WritableTag::Bytes(kind, _) => match kind {
                ByteTag::UserComment => true,
                _ => false,
            },
            _ => false,
        };
        let slot = writable_tag_identity(&tag);
        proof {
            assert(held_slots(now).contains(slot_of(view)) == holds(now, slot_of(view)));
            assert(all[k] == view);
            let place = (slot_of(view).0, 0u32);
            assert(store(now)[place].len() >= store(start)[place].len());
            lemma_with_filed(store(now), place, written_view(view));
        }
        if no_overwrite && has_tag(metadata, slot.0, slot.1) {
            let mut message = (match writable_tag_name(&tag) {
                Some(name) => name,
                None => "UserComment",
            }).to_owned();
            message.push_str(" already exists");
            let ghost text = message@;
            let ghost listed = texts(result.skipped@);
            result.skipped.push(message);
            proof {
                assert(texts(result.skipped@) =~= listed.push(text));
                assert(texts(result.skipped@) =~= skipped_before + applied(
                    all.take(k + 1),
                    held,
                    no_overwrite,
                    count,
                ).skipped);
            }
        } else {
            let converted = exif_tag(tag);
            set_tag(metadata, converted);
            proof {
                let after = metadata_contents(*metadata);
                assert(held_slots(after) =~= held_slots(now).insert(slot_of(view)));
            }
            pending = pending + (if payload {
                custom_count as u128
            } else {
                1
            });
        }
    }
    proof {
        assert(all.take(all.len() as int) =~= all);
    }
    pending
}

proof fn lemma_no_directory(directories: Seq<DirectoryView>, place: Place)
    requires
        forall|i: int|
            0 <= i < directories.len() ==> ((#[trigger] directories[i]).group, directories[i].number)
                != place,
    ensures
        store(directories)[place].len() == 0,
    decreases directories.len(),
{
    if directories.len() > 0 {
        let before = directories.drop_last();
        assert forall|i: int| 0 <= i < before.len() implies (
            (#[trigger] before[i]).group,
            before[i].number,
        ) != place by {
            assert(before[i] == directories[i]);
        }
        lemma_no_directory(before, place);
        assert(directories[directories.len() - 1] == directories.last());
    }
}

fn finds_first_directory(stored: &Vec<StoredDirectory>, group: TagGroup) -> (r: bool)
    ensures
        r == has_first_directory(directory_views(stored@), group),
{
    let ghost all = directory_views(stored@);
    let mut i: usize = 0;
    while i < stored.len()
        invariant
            i <= stored@.len(),
            all == directory_views(stored@),
            forall|k: int|
                0 <= k < i ==> ((#[trigger] all[k]).group, all[k].number) != (group, 0u32),
        decreases stored@.len() - i,
    {
        proof {
            assert(all[i as int] == stored@[i as int]@);
        }
        if stored[i].group == group && stored[i].number == 0 {
            proof {
                lemma_directory_is_shelved(all, i as int);
            }
            return true;
        }
        i += 1;
    }
    proof {
        lemma_no_directory(all, (group, 0u32));
    }
    false
}

fn has_distinct_directories(stored: &Vec<StoredDirectory>) -> (r: bool)
    ensures
        r == are_distinct(directory_views(stored@)),
{
    let ghost all = directory_views(stored@);
    let mut i: usize = 0;
    while i < stored.len()
        invariant
            i <= stored@.len(),
            all == directory_views(stored@),
            forall|a: int, b: int|
                0 <= a < b < all.len() && a < i ==> (#[trigger] all[a]).group != (
                #[trigger] all[b]).group || all[a].number != all[b].number,
        decreases stored@.len() - i,
    {
        let mut j: usize = i + 1;
        while j < stored.len()
            invariant
                i < stored@.len(),
                i < j <= stored@.len(),
                all == directory_views(stored@),
                forall|b: int|
                    i < b < j ==> all[i as int].group != (#[trigger] all[b]).group
                        || all[i as int].number != all[b].number,
            decreases stored@.len() - j,
        {
            proof {
                assert(all[i as int] == stored@[i as int]@);
                assert(all[j as int] == stored@[j as int]@);
            }
            if stored[i].group == stored[j].group && stored[i].number == stored[j].number {
                return false;
            }
            j += 1;
        }
        i += 1;
    }
    true
}

/// Whether tags can be filed in the metadata of an image.
pub fn can_take_tags(metadata: &Metadata, tags: &Vec<WritableTag>) -> (r: bool)
    ensures
        r == takes_tags(metadata_contents(*metadata), tag_views(tags@)),
{
    let stored = directories(metadata);
    let ghost all = tag_views(tags@);
    if has_distinct_directories(&stored) {
        return true;
    }
    let mut i: usize = 0;
    while i < tags.len()
        invariant
            i <= tags@.len(),
            all == tag_views(tags@),
            directory_views(stored@) == metadata_contents(*metadata),
            !are_distinct(metadata_contents(*metadata)),
            forall|k: int|
                0 <= k < i ==> has_first_directory(
                    metadata_contents(*metadata),
                    slot_of(#[trigger] all[k]).0,
                ),
        decreases tags@.len() - i,
    {
        proof {
            assert(all[i as int] == tags@[i as int]@);
        }
        if !finds_first_directory(&stored, writable_tag_identity(&tags[i]).0) {
            return false;
        }
        i += 1;
    }
    true
}

/// Sets the tags in the metadata of an image, and nothing else, where they can be
/// filed there; otherwise nothing changes.
pub fn try_write_tags(
    metadata: &mut Metadata,
    tags: Vec<WritableTag>,
    custom_count: usize,
    no_overwrite: bool,
    result: &mut WriteFileResult,
) -> (r: Option<u128>)
    ensures
        r is Some <==> takes_tags(metadata_contents(*old(metadata)), tag_views(tags@)),
        match r {
            Some(pending) => are_set(
                metadata_contents(*old(metadata)),
                metadata_contents(*final(metadata)),
                tag_views(tags@),
                custom_count as nat,
                no_overwrite,
                old(result)@,
                final(result)@,
                pending as nat,
            ),
            None => *final(metadata) == *old(metadata) && *final(result) == *old(result),
        },
{
    if can_take_tags(metadata, &tags) {
        Some(write_tags(metadata, tags, custom_count, no_overwrite, result))
    } else {
        None
    }
}

/// Metadata without any tags, for an image whose own cannot be read.
pub fn empty_metadata() -> (r: Metadata)
    ensures
        metadata_contents(r) == Seq::<DirectoryView>::empty(),
{
    new_metadata()
}

/// Whether the file is written once the tags are set.
pub open spec fn writes_file(pending: nat, dry_run: bool) -> bool {
    !dry_run && pending > 0
}

/// What follows once the tags are set: a dry run counts them, and otherwise the
/// file is written where there is something to write.
pub fn tags_applied(result: WriteFileResult, pending: u128, dry_run: bool) -> (r: (
    WriteFileResult,
    bool,
))
    ensures
        r.0@ == (WriteView {
            written: if dry_run {
                pending as nat
            } else {
                result@.written
            },
            ..result@
        }),
        r.1 == writes_file(pending as nat, dry_run),
{
    let mut result = result;
    if dry_run {
        result.written = pending;
        return (result, false);
    }
    (result, pending > 0)
}

/// Ends a write once the file was to be written.
pub fn file_written(result: WriteFileResult, pending: u128, outcome: Result<(), String>) -> (r:
    WriteFileResult)
    ensures
        r@ == (match outcome {
            Ok(_) => WriteView { written: pending as nat, ..result@ },
            Err(error) => WriteView {
                errors: result@.errors.push("failed to write EXIF metadata: "@ + error@),
                ..result@
            },
        }),
{
    let mut result = result;
    match outcome {
        Ok(_) => {
            result.written = pending;
        },
        Err(error) => {
            let ghost before = texts(result.errors@);
            let mut message = "failed to write EXIF metadata: ".to_owned();
            message.push_str(error.as_str());
            let ghost text = message@;
            result.errors.push(message);
            proof {
                assert(texts(result.errors@) =~= before.push(text));
            }
        },
    }
    result
}

// ---------------------------------------------------------------------------
// Laws
// ---------------------------------------------------------------------------
/// Whether no two tags are for the same slot.
pub open spec fn have_distinct_slots(tags: Seq<WritableView>) -> bool {
    forall|i: int, j: int|
        0 <= i < j < tags.len() ==> slot_of(#[trigger] tags[i]) != slot_of(#[trigger] tags[j])
}

proof fn lemma_slot_set_distinct(tags: Seq<WritableView>, tag: WritableView)
    requires
        have_distinct_slots(tags),
    ensures
        have_distinct_slots(with_slot_set(tags, tag)),
{
    if exists|i: int| 0 <= i < tags.len() && slot_of(#[trigger] tags[i]) == slot_of(tag) {
        let i = choose|i: int| 0 <= i < tags.len() && slot_of(#[trigger] tags[i]) == slot_of(tag);
        assert forall|k: int| 0 <= k < i implies slot_of(#[trigger] tags[k]) != slot_of(tag) by {
            assert(slot_of(tags[k]) != slot_of(tags[i]));
        }
        lemma_slot_set_at(tags, tag, i);
        let after = tags.update(i, tag);
        assert forall|a: int, b: int| 0 <= a < b < after.len() implies slot_of(
            #[trigger] after[a],
        ) != slot_of(#[trigger] after[b]) by {
            assert(slot_of(after[a]) == slot_of(tags[a]));
            assert(slot_of(after[b]) == slot_of(tags[b]));
            assert(slot_of(tags[a]) != slot_of(tags[b]));
        }
    } else {
        lemma_slot_set_new(tags, tag);
        let after = tags.push(tag);
        assert forall|a: int, b: int| 0 <= a < b < after.len() implies slot_of(
            #[trigger] after[a],
        ) != slot_of(#[trigger] after[b]) by {
            assert(after[a] == tags[a]);
            if b < tags.len() {
                assert(after[b] == tags[b]);
                assert(slot_of(tags[a]) != slot_of(tags[b]));
            } else {
                assert(slot_of(tags[a]) != slot_of(tag));
            }
        }
    }
}

/// No slot is written twice.
pub proof fn law_deduped_slots_are_distinct(tags: Seq<WritableView>)
    ensures
        have_distinct_slots(deduped(tags)),
    decreases tags.len(),
{
    if tags.len() > 0 {
        law_deduped_slots_are_distinct(tags.drop_last());
        lemma_slot_set_distinct(deduped(tags.drop_last()), tags.last());
    }
}

/// The tag of a slot that was given last is the one that is written.
pub proof fn law_last_tag_of_a_slot_wins(tags: Seq<WritableView>, i: int)
    requires
        0 <= i < tags.len(),
        forall|k: int| i < k < tags.len() ==> slot_of(#[trigger] tags[k]) != slot_of(tags[i]),
    ensures
        deduped(tags).contains(tags[i]),
    decreases tags.len(),
{
    let before = deduped(tags.drop_last());
    let last = tags.last();
    if i == tags.len() - 1 {
        lemma_slot_set_contains(before, last);
    } else {
        assert forall|k: int| i < k < tags.drop_last().len() implies slot_of(
            #[trigger] tags.drop_last()[k],
        ) != slot_of(tags.drop_last()[i]) by {
            assert(slot_of(tags[k]) != slot_of(tags[i]));
        }
        law_last_tag_of_a_slot_wins(tags.drop_last(), i);
        assert(slot_of(tags[tags.len() - 1]) != slot_of(tags[i]));
        lemma_slot_set_keeps(before, last, tags[i]);
    }
}

proof fn lemma_slot_set_contains(tags: Seq<WritableView>, tag: WritableView)
    ensures
        with_slot_set(tags, tag).contains(tag),
    decreases tags.len(),
{
    let after = with_slot_set(tags, tag);
    if tags.len() == 0 || slot_of(tags[0]) == slot_of(tag) {
        assert(after[0] == tag);
    } else {
        lemma_slot_set_contains(tags.skip(1), tag);
        let rest = with_slot_set(tags.skip(1), tag);
        let k = choose|k: int| 0 <= k < rest.len() && rest[k] == tag;
        assert(after[k + 1] == tag);
    }
}

proof fn lemma_slot_set_keeps(tags: Seq<WritableView>, tag: WritableView, other: WritableView)
    requires
        tags.contains(other),
        slot_of(other) != slot_of(tag),
    ensures
        with_slot_set(tags, tag).contains(other),
    decreases tags.len(),
{
    let after = with_slot_set(tags, tag);
    let i = choose|i: int| 0 <= i < tags.len() && tags[i] == other;
    if slot_of(tags[0]) == slot_of(tag) {
        assert(after[i] == other);
    } else if i == 0 {
        assert(after[0] == other);
    } else {
        assert(tags.skip(1)[i - 1] == other);
        lemma_slot_set_keeps(tags.skip(1), tag, other);
        let rest = with_slot_set(tags.skip(1), tag);
        let k = choose|k: int| 0 <= k < rest.len() && rest[k] == other;
        assert(after[k + 1] == other);
    }
}

/// Without leave to overwrite, tags whose slots hold something are all skipped,
/// and nothing is written.
pub proof fn law_held_slots_are_spared(
    tags: Seq<WritableView>,
    held: Set<Slot>,
    custom_count: nat,
)
    requires
        forall|i: int| 0 <= i < tags.len() ==> held.contains(slot_of(#[trigger] tags[i])),
    ensures
        applied(tags, held, true, custom_count).held == held,
        applied(tags, held, true, custom_count).skipped.len() == tags.len(),
        applied(tags, held, true, custom_count).pending == 0,
    decreases tags.len(),
{
    if tags.len() > 0 {
        let before = tags.drop_last();
        assert forall|i: int| 0 <= i < before.len() implies held.contains(
            slot_of(#[trigger] before[i]),
        ) by {
            assert(before[i] == tags[i]);
        }
        law_held_slots_are_spared(before, held, custom_count);
        assert(held.contains(slot_of(tags[tags.len() - 1])));
    }
}

proof fn lemma_numbered(tags: Seq<TagView>, tag: TagView)
    requires
        tags.contains(tag),
    ensures
        tags_numbered(tags, tag.number).len() > 0,
    decreases tags.len(),
{
    let i = choose|i: int| 0 <= i < tags.len() && tags[i] == tag;
    if i < tags.len() - 1 {
        assert(tags.drop_last()[i] == tag);
        lemma_numbered(tags.drop_last(), tag);
    }
}

proof fn lemma_filed_is_held(directories: Seq<DirectoryView>, i: int, tag: TagView)
    requires
        0 <= i < directories.len(),
        directories[i].tags.contains(tag),
    ensures
        holds(directories, (directories[i].group, tag.number)),
    decreases directories.len(),
{
    if i < directories.len() - 1 {
        assert(directories.drop_last()[i] == directories[i]);
        lemma_filed_is_held(directories.drop_last(), i, tag);
    } else {
        lemma_numbered(directories[i].tags, tag);
    }
}

proof fn lemma_found_in_directory(tags: Seq<TagView>, number: u16, tag: TagView)
    ensures
        tags_numbered(tags, number).contains(tag) == (tags.contains(tag) && tag.number == number),
    decreases tags.len(),
{
    if tags.len() > 0 {
        let before = tags.drop_last();
        let last = tags.last();
        lemma_found_in_directory(before, number, tag);
        assert(tags =~= before.push(last));
        assert(tags.contains(tag) == (before.contains(tag) || last == tag)) by {
            if before.contains(tag) {
                let i = choose|i: int| 0 <= i < before.len() && before[i] == tag;
                assert(tags[i] == tag);
            }
            if last == tag {
                assert(tags[tags.len() - 1] == tag);
            }
        }
        if last.number == number {
            let found = tags_numbered(before, number);
            assert(found.push(last).contains(tag) == (found.contains(tag) || last == tag)) by {
                if found.contains(tag) {
                    let i = choose|i: int| 0 <= i < found.len() && found[i] == tag;
                    assert(found.push(last)[i] == tag);
                }
                if last == tag {
                    assert(found.push(last)[found.len() as int] == tag);
                }
            }
        }
    }
}

/// A tag is found under a slot exactly where it stands in a directory of the group
/// and has the number.
proof fn lemma_found_where_it_stands(directories: Seq<DirectoryView>, slot: Slot, tag: TagView)
    ensures
        tags_at(directories, slot).contains(tag) <==> tag.number == slot.1 && exists|n: u32|
            #[trigger] has_in(directories, slot.0, n, tag),
    decreases directories.len(),
{
    if directories.len() > 0 {
        let before = directories.drop_last();
        let last = directories.last();
        lemma_found_where_it_stands(before, slot, tag);
        lemma_found_in_directory(last.tags, slot.1, tag);
        let earlier = tags_at(before, slot);
        let own = tags_numbered(last.tags, slot.1);
        assert((earlier + own).contains(tag) == (earlier.contains(tag) || own.contains(tag))) by {
            if earlier.contains(tag) {
                let i = choose|i: int| 0 <= i < earlier.len() && earlier[i] == tag;
                assert((earlier + own)[i] == tag);
            }
            if own.contains(tag) {
                let i = choose|i: int| 0 <= i < own.len() && own[i] == tag;
                assert((earlier + own)[earlier.len() + i] == tag);
            }
        }
        assert forall|n: u32| #[trigger] has_in(directories, slot.0, n, tag) == (has_in(
            before,
            slot.0,
            n,
            tag,
        ) || (last.group == slot.0 && last.number == n && last.tags.contains(tag))) by {
            if has_in(directories, slot.0, n, tag) {
                let i = choose|i: int|
                    0 <= i < directories.len() && (#[trigger] directories[i]).group == slot.0
                        && directories[i].number == n && directories[i].tags.contains(tag);
                if i < before.len() {
                    assert(before[i] == directories[i]);
                }
            }
            if has_in(before, slot.0, n, tag) {
                let i = choose|i: int|
                    0 <= i < before.len() && (#[trigger] before[i]).group == slot.0
                        && before[i].number == n && before[i].tags.contains(tag);
                assert(directories[i] == before[i]);
            }
            if last.group == slot.0 && last.number == n && last.tags.contains(tag) {
                assert(directories[directories.len() - 1] == last);
            }
        }
        if tags_at(directories, slot).contains(tag) {
            if earlier.contains(tag) {
                let n = choose|n: u32| #[trigger] has_in(before, slot.0, n, tag);
                assert(has_in(directories, slot.0, n, tag));
            } else {
                assert(has_in(directories, slot.0, last.number, tag));
            }
        }
        if tag.number == slot.1 && exists|n: u32| #[trigger] has_in(directories, slot.0, n, tag) {
            let n = choose|n: u32| #[trigger] has_in(directories, slot.0, n, tag);
            if has_in(before, slot.0, n, tag) {
                assert(earlier.contains(tag));
            }
        }
    }
}

proof fn lemma_held_entry_stays(
    tags: Seq<WritableView>,
    store: Store,
    held: Set<Slot>,
    place: Place,
    tag: TagView,
)
    requires
        stands(store, place, tag),
        held.contains((place.0, tag.number)),
    ensures
        stands(stored_after(tags, held, store, true), place, tag),
        applied(tags, held, true, 0).held.contains((place.0, tag.number)),
    decreases tags.len(),
{
    if tags.len() > 0 {
        let last = tags.last();
        lemma_held_entry_stays(tags.drop_last(), store, held, place, tag);
        lemma_with_filed(
            stored_after(tags.drop_last(), held, store, true),
            (slot_of(last).0, 0u32),
            written_view(last),
        );
    }
}

/// Without leave to overwrite, nothing that is filed is lost.
pub proof fn law_what_is_there_stays(
    tags: Seq<WritableView>,
    directories: Seq<DirectoryView>,
    place: Place,
    tag: TagView,
)
    requires
        stands(store(directories), place, tag),
    ensures
        stands(
            stored_after(tags, held_slots(directories), store(directories), true),
            place,
            tag,
        ),
{
    lemma_has_in_store(directories, place.0, place.1, tag);
    let i = choose|i: int|
        0 <= i < directories.len() && (#[trigger] directories[i]).group == place.0
            && directories[i].number == place.1 && directories[i].tags.contains(tag);
    lemma_filed_is_held(directories, i, tag);
    lemma_held_entry_stays(tags, store(directories), held_slots(directories), place, tag);
}

proof fn lemma_other_slots_stay(
    tags: Seq<WritableView>,
    store: Store,
    held: Set<Slot>,
    no_overwrite: bool,
    place: Place,
    tag: TagView,
)
    requires
        forall|i: int|
            0 <= i < tags.len() ==> slot_of(#[trigger] tags[i]) != (place.0, tag.number),
    ensures
        stands(stored_after(tags, held, store, no_overwrite), place, tag) == stands(
            store,
            place,
            tag,
        ),
    decreases tags.len(),
{
    if tags.len() > 0 {
        let before = tags.drop_last();
        let last = tags.last();
        assert forall|i: int| 0 <= i < before.len() implies slot_of(#[trigger] before[i]) != (
            place.0,
            tag.number,
        ) by {
            assert(before[i] == tags[i]);
        }
        lemma_other_slots_stay(before, store, held, no_overwrite, place, tag);
        assert(slot_of(tags[tags.len() - 1]) != (place.0, tag.number));
        lemma_with_filed(
            stored_after(before, held, store, no_overwrite),
            (slot_of(last).0, 0u32),
            written_view(last),
        );
    }
}

/// The tags of a slot that none of the tags to write is for stay as they are.
pub proof fn law_other_tags_stay(
    tags: Seq<WritableView>,
    before: Seq<DirectoryView>,
    after: Seq<DirectoryView>,
    no_overwrite: bool,
    slot: Slot,
    tag: TagView,
)
    requires
        store(after) == stored_after(tags, held_slots(before), store(before), no_overwrite),
        forall|i: int| 0 <= i < tags.len() ==> slot_of(#[trigger] tags[i]) != slot,
    ensures
        tags_at(after, slot).contains(tag) == tags_at(before, slot).contains(tag),
{
    lemma_found_where_it_stands(before, slot, tag);
    lemma_found_where_it_stands(after, slot, tag);
    if tag.number == slot.1 {
        assert forall|n: u32| #[trigger] has_in(after, slot.0, n, tag) == has_in(
            before,
            slot.0,
            n,
            tag,
        ) by {
            lemma_has_in_store(after, slot.0, n, tag);
            lemma_has_in_store(before, slot.0, n, tag);
            lemma_other_slots_stay(
                tags,
                store(before),
                held_slots(before),
                no_overwrite,
                (slot.0, n),
                tag,
            );
        }
        if tags_at(before, slot).contains(tag) {
            let n = choose|n: u32| #[trigger] has_in(before, slot.0, n, tag);
            assert(has_in(after, slot.0, n, tag));
        }
    }
}

proof fn lemma_written_tag_stands(
    tags: Seq<WritableView>,
    store: Store,
    held: Set<Slot>,
    no_overwrite: bool,
    i: int,
)
    requires
        have_distinct_slots(tags),
        0 <= i < tags.len(),
        !is_skipped(tags[i], applied(tags.take(i), held, no_overwrite, 0), no_overwrite),
    ensures
        stands(
            stored_after(tags, held, store, no_overwrite),
            (slot_of(tags[i]).0, 0u32),
            written_view(tags[i]),
        ),
    decreases tags.len(),
{
    let before = tags.drop_last();
    let last = tags.last();
    lemma_with_filed(
        stored_after(before, held, store, no_overwrite),
        (slot_of(last).0, 0u32),
        written_view(last),
    );
    if i < before.len() {
        assert forall|a: int, b: int| 0 <= a < b < before.len() implies slot_of(
            #[trigger] before[a],
        ) != slot_of(#[trigger] before[b]) by {
            assert(before[a] == tags[a] && before[b] == tags[b]);
        }
        assert(before.take(i) =~= tags.take(i));
        lemma_written_tag_stands(before, store, held, no_overwrite, i);
        assert(slot_of(tags[i]) != slot_of(tags[tags.len() - 1]));
    } else {
        assert(tags.take(i) =~= before);
    }
}

/// Every tag of distinct slots that is not skipped is filed as it was given.
pub proof fn law_written_tags_are_filed(
    tags: Seq<WritableView>,
    before: Seq<DirectoryView>,
    after: Seq<DirectoryView>,
    no_overwrite: bool,
    i: int,
)
    requires
        store(after) == stored_after(tags, held_slots(before), store(before), no_overwrite),
        have_distinct_slots(tags),
        0 <= i < tags.len(),
        !is_skipped(
            tags[i],
            applied(tags.take(i), held_slots(before), no_overwrite, 0),
            no_overwrite,
        ),
    ensures
        tags_at(after, slot_of(tags[i])).contains(written_view(tags[i])),
{
    let slot = slot_of(tags[i]);
    let tag = written_view(tags[i]);
    lemma_written_tag_stands(tags, store(before), held_slots(before), no_overwrite, i);
    lemma_has_in_store(after, slot.0, 0, tag);
    lemma_found_where_it_stands(after, slot, tag);
}

/// What is filed afterwards was given or was there before.
pub proof fn law_nothing_else_is_filed(
    tags: Seq<WritableView>,
    store: Store,
    held: Set<Slot>,
    no_overwrite: bool,
    place: Place,
    tag: TagView,
)
    requires
        stands(stored_after(tags, held, store, no_overwrite), place, tag),
    ensures
        stands(store, place, tag) || exists|i: int|
            0 <= i < tags.len() && place == (slot_of(#[trigger] tags[i]).0, 0u32) && tag
                == written_view(tags[i]),
    decreases tags.len(),
{
    if tags.len() > 0 {
        let before = tags.drop_last();
        let last = tags.last();
        let earlier = stored_after(before, held, store, no_overwrite);
        lemma_with_filed(earlier, (slot_of(last).0, 0u32), written_view(last));
        if stands(earlier, place, tag) {
            law_nothing_else_is_filed(before, store, held, no_overwrite, place, tag);
            if !stands(store, place, tag) {
                let i = choose|i: int|
                    0 <= i < before.len() && place == (slot_of(#[trigger] before[i]).0, 0u32) && tag
                        == written_view(before[i]);
                assert(tags[i] == before[i]);
            }
        } else {
            assert(tags[tags.len() - 1] == last);
        }
    }
}

/// With leave to overwrite, no tag is skipped.
pub proof fn law_overwriting_skips_nothing(
    tags: Seq<WritableView>,
    held: Set<Slot>,
    custom_count: nat,
)
    ensures
        applied(tags, held, false, custom_count).skipped.len() == 0,
    decreases tags.len(),
{
    if tags.len() > 0 {
        law_overwriting_skips_nothing(tags.drop_last(), held, custom_count);
    }
}

proof fn lemma_deduped_is_listed(tags: Seq<WritableView>, k: int)
    requires
        0 <= k < deduped(tags).len(),
    ensures
        tags.contains(deduped(tags)[k]),
    decreases tags.len(),
{
    if tags.len() > 0 {
        let before = tags.drop_last();
        let tag = deduped(tags)[k];
        lemma_slot_set_is_listed(deduped(before), tags.last(), k);
        if tag == tags.last() {
            assert(tags[tags.len() - 1] == tag);
        } else {
            let i = choose|i: int| 0 <= i < deduped(before).len() && deduped(before)[i] == tag;
            lemma_deduped_is_listed(before, i);
            let j = choose|j: int| 0 <= j < before.len() && before[j] == tag;
            assert(tags[j] == tag);
        }
    }
}

proof fn lemma_slot_set_is_listed(tags: Seq<WritableView>, tag: WritableView, k: int)
    requires
        0 <= k < with_slot_set(tags, tag).len(),
    ensures
        with_slot_set(tags, tag)[k] == tag || tags.contains(with_slot_set(tags, tag)[k]),
    decreases tags.len(),
{
    if tags.len() > 0 && k > 0 {
        let rest = tags.skip(1);
        let found = with_slot_set(tags, tag)[k];
        if slot_of(tags[0]) == slot_of(tag) {
            assert(tags[k] == found);
        } else {
            lemma_slot_set_is_listed(rest, tag, k - 1);
            if found != tag {
                let i = choose|i: int| 0 <= i < rest.len() && rest[i] == found;
                assert(tags[i + 1] == found);
            }
        }
    } else if tags.len() > 0 {
        assert(tags[0] == tags[0]);
        assert(with_slot_set(tags, tag)[0] == tag || with_slot_set(tags, tag)[0] == tags[0]);
    }
}

/// An edit that becomes no custom tag does not write the comment that holds the
/// custom tags.
pub proof fn law_other_edits_leave_custom_tags(tag: MeasuredTag, held: Seq<CustomView>, k: int)
    requires
        with_sorted(nothing_sorted(), tag).custom.len() == 0,
        0 <= k < prepared_edit(tag, held).writable.len(),
    ensures
        !is_payload(prepared_edit(tag, held).writable[k]),
{
    let own = with_sorted(nothing_sorted(), tag);
    lemma_deduped_is_listed(own.writable, k);
    let found = deduped(own.writable)[k];
    let i = choose|i: int| 0 <= i < own.writable.len() && own.writable[i] == found;
    assert(!is_payload(own.writable[i]));
}

proof fn lemma_first_named(tags: Seq<CustomView>, name: Seq<char>, found: int) -> (r: int)
    requires
        0 <= found < tags.len(),
        tags[found].0 == name,
    ensures
        0 <= r <= found,
        tags[r].0 == name,
        forall|k: int| 0 <= k < r ==> (#[trigger] tags[k]).0 != name,
    decreases found,
{
    if exists|k: int| 0 <= k < found && (#[trigger] tags[k]).0 == name {
        let earlier = choose|k: int| 0 <= k < found && (#[trigger] tags[k]).0 == name;
        lemma_first_named(tags, name, earlier)
    } else {
        found
    }
}

/// An edit that becomes a custom tag is written along with every other custom tag of
/// the image, as it is there, and with no more than those.
pub proof fn law_edits_keep_custom_tags(tag: MeasuredTag, held: Seq<CustomView>)
    requires
        with_sorted(nothing_sorted(), tag).custom.len() > 0,
    ensures
        sorted_edit(tag, held).custom.contains(tag.tag@),
        forall|i: int|
            0 <= i < held.len() && (#[trigger] held[i]).0 != tag.tag@.0 ==> sorted_edit(
                tag,
                held,
            ).custom.contains(held[i]),
        forall|i: int|
            0 <= i < sorted_edit(tag, held).custom.len() ==> (#[trigger] sorted_edit(
                tag,
                held,
            ).custom[i]) == tag.tag@ || held.contains(sorted_edit(tag, held).custom[i]),
        have_distinct_names(held) ==> have_distinct_names(sorted_edit(tag, held).custom),
{
    let all = sorted_edit(tag, held).custom;
    let name = tag.tag@.0;
    if exists|i: int| 0 <= i < held.len() && (#[trigger] held[i]).0 == name {
        let found = choose|i: int| 0 <= i < held.len() && (#[trigger] held[i]).0 == name;
        let place = lemma_first_named(held, name, found);
        lemma_with_tag_set_at(held, tag.tag@, place);
        assert(all == held.update(place, tag.tag@));
        assert(all[place] == tag.tag@);
        assert forall|i: int| 0 <= i < held.len() && (#[trigger] held[i]).0 != name implies all.contains(
            held[i],
        ) by {
            assert(all[i] == held[i]);
        }
        assert forall|i: int| 0 <= i < all.len() implies (#[trigger] all[i]) == tag.tag@
            || held.contains(all[i]) by {
            assert(i == place || all[i] == held[i]);
        }
    } else {
        lemma_with_tag_set_new(held, tag.tag@);
        assert(all == held.push(tag.tag@));
        assert(all[held.len() as int] == tag.tag@);
        assert forall|i: int| 0 <= i < held.len() && (#[trigger] held[i]).0 != name implies all.contains(
            held[i],
        ) by {
            assert(all[i] == held[i]);
        }
        assert forall|i: int| 0 <= i < all.len() implies (#[trigger] all[i]) == tag.tag@
            || held.contains(all[i]) by {
            assert(i == held.len() || all[i] == held[i]);
        }
    }
}

} // verus!
