//! The strip of one image, step by step.

use crate::exif_data::{field_views, ExifData, FieldView};
use crate::strip::{
    is_structural_number, strip_plan, strip_removal_targets, structural_number, target_views,
    PlannedStrip, StripMode, StripPlan, StripRemovalTarget, TargetView,
};
use crate::text::{join, join_texts, texts};
use crate::writable::{
    directories, directory_slots, directory_views, has_in, has_unknown, is_covered, is_minimal,
    is_reachable, lemma_directory_is_shelved, lemma_has_in_store, lemma_with_filed,
    metadata_contents, minimal_store, minimal_tags, reduce_to_minimum, remove_tag, set_generic_tag,
    stands, store, tag_contents, tag_number, with_filed, without_filed, without_number,
    DirectoryView, Place, Store, StoredDirectory, TagGroup, TagView,
};
use little_exif::exif_tag::ExifTag;
use little_exif::metadata::Metadata;
use vstd::multiset::Multiset;
use vstd::prelude::*;

verus! {

/// What became of stripping one image.
#[derive(Debug)]
pub struct StripFileResult {
    pub stripped: bool,
    pub verified: bool,
    pub removed_tags: usize,
    pub warnings: Vec<String>,
    pub errors: Vec<String>,
}

pub struct StripView {
    pub stripped: bool,
    pub verified: bool,
    pub removed_tags: nat,
    pub warnings: Seq<Seq<char>>,
    pub errors: Seq<Seq<char>>,
}

impl View for StripFileResult {
    type V = StripView;

    open spec fn view(&self) -> StripView {
        StripView {
            stripped: self.stripped,
            verified: self.verified,
            removed_tags: self.removed_tags as nat,
            warnings: texts(self.warnings@),
            errors: texts(self.errors@),
        }
    }
}

pub open spec fn no_strip() -> StripView {
    StripView {
        stripped: false,
        verified: false,
        removed_tags: 0,
        warnings: Seq::empty(),
        errors: Seq::empty(),
    }
}

impl Default for StripFileResult {
    fn default() -> (r: StripFileResult)
        ensures
            r@ == no_strip(),
    {
        let r = StripFileResult {
            stripped: false,
            verified: false,
            removed_tags: 0,
            warnings: Vec::new(),
            errors: Vec::new(),
        };
        proof {
            assert(texts(r.warnings@) =~= Seq::empty());
            assert(texts(r.errors@) =~= Seq::empty());
        }
        r
    }
}

impl StripFileResult {
    /// Adds an error made of what failed and why.
    fn fail(&mut self, what: &str, why: &str)
        ensures
            final(self)@ == (StripView {
                errors: old(self)@.errors.push(what@ + why@),
                ..old(self)@
            }),
    {
        let ghost errors = texts(self.errors@);
        let mut error = what.to_owned();
        error.push_str(why);
        let ghost text = error@;
        self.errors.push(error);
        proof {
            assert(texts(self.errors@) =~= errors.push(text));
        }
    }
}

/// What there is to do next on the image.
#[derive(Debug)]
pub enum StripNext {
    /// Nothing.
    Done,
    /// Clear all metadata of the file.
    ClearFile,
    /// Reduce the metadata of the TIFF file to what it needs.
    ClearTiff,
    /// Remove these tags from the metadata of the file.
    RemoveTags(Vec<StripRemovalTarget>),
    /// Read the file again and see whether the tags are gone.
    Verify,
}

pub enum NextView {
    Done,
    ClearFile,
    ClearTiff,
    RemoveTags(Seq<TargetView>),
    Verify,
}

impl View for StripNext {
    type V = NextView;

    open spec fn view(&self) -> NextView {
        match self {
            StripNext::Done => NextView::Done,
            StripNext::ClearFile => NextView::ClearFile,
            StripNext::ClearTiff => NextView::ClearTiff,
            StripNext::RemoveTags(targets) => NextView::RemoveTags(target_views(targets@)),
            StripNext::Verify => NextView::Verify,
        }
    }
}

/// What a strip starts with. `reading` is what was read of the image, or why
/// nothing could be: only a full strip that is not verified goes on then.
pub open spec fn strip_start(
    reading: Result<Seq<FieldView>, Seq<char>>,
    mode: StripMode,
    is_tiff: bool,
    dry_run: bool,
    verify: bool,
) -> (StripView, NextView) {
    let plan = match reading {
        Ok(fields) => strip_plan(mode, fields, is_tiff),
        Err(_) => StripPlan {
            targets: Seq::empty(),
            warnings: Seq::empty(),
            errors: Seq::empty(),
        },
    };
    let planned = StripView {
        removed_tags: plan.targets.len(),
        warnings: plan.warnings,
        errors: plan.errors,
        ..no_strip()
    };
    if reading is Err && (!mode.is_full() || verify) {
        (
            StripView {
                errors: seq!["failed to read EXIF metadata: "@ + reading->Err_0],
                ..no_strip()
            },
            NextView::Done,
        )
    } else if plan.errors.len() > 0 {
        (planned, NextView::Done)
    } else if dry_run {
        (
            StripView { stripped: mode.is_full() || plan.targets.len() > 0, ..planned },
            NextView::Done,
        )
    } else if mode.is_full() {
        (planned, if is_tiff {
            NextView::ClearTiff
        } else {
            NextView::ClearFile
        })
    } else if plan.targets.len() > 0 {
        (planned, NextView::RemoveTags(plan.targets))
    } else {
        (planned, if verify {
            NextView::Verify
        } else {
            NextView::Done
        })
    }
}

/// What was read of an image, as far as a strip looks at it.
pub open spec fn fields_read(reading: Result<ExifData, String>) -> Result<
    Seq<FieldView>,
    Seq<char>,
> {
    match reading {
        Ok(exif) => Ok(field_views(exif.fields@)),
        Err(error) => Err(error@),
    }
}

/// Starts the strip of an image.
pub fn strip_metadata_from_image(
    reading: &Result<ExifData, String>,
    mode: &StripMode,
    is_tiff: bool,
    dry_run: bool,
    verify: bool,
) -> (r: (StripFileResult, StripNext))
    ensures
        (r.0@, r.1@) == strip_start(fields_read(*reading), *mode, is_tiff, dry_run, verify),
{
    let mut result = StripFileResult::default();
    let full = mode.is_full_strip();
    let plan = match reading {
        Ok(exif) => strip_removal_targets(&exif.fields, mode, is_tiff),
        Err(error) => {
            if !full || verify {
                result.fail("failed to read EXIF metadata: ", error.as_str());
                proof {
                    assert(result@.errors =~= seq!["failed to read EXIF metadata: "@ + error@]);
                }
                return (result, StripNext::Done);
            }
            let none = PlannedStrip {
                targets: Vec::new(),
                warnings: Vec::new(),
                errors: Vec::new(),
            };
            proof {
                assert(none@.targets =~= Seq::empty());
                assert(none@.warnings =~= Seq::empty());
                assert(none@.errors =~= Seq::empty());
            }
            none
        },
    };
    let count: usize = plan.targets.len();
    let targets = plan.targets;
    result.removed_tags = count;
    result.warnings = plan.warnings;
    result.errors = plan.errors;
    if result.errors.len() > 0 {
        return (result, StripNext::Done);
    }
    if dry_run {
        result.stripped = full || count > 0;
        return (result, StripNext::Done);
    }
    if full {
        if is_tiff {
            return (result, StripNext::ClearTiff);
        }
        return (result, StripNext::ClearFile);
    }
    if count > 0 {
        return (result, StripNext::RemoveTags(targets));
    }
    if verify {
        return (result, StripNext::Verify);
    }
    (result, StripNext::Done)
}

/// What follows on an attempt to change the file.
pub open spec fn after_change(
    result: StripView,
    failure: Option<Seq<char>>,
    verify: bool,
) -> (StripView, NextView) {
    match failure {
        Some(error) => (
            StripView { errors: result.errors.push(error), ..result },
            NextView::Done,
        ),
        None => (StripView { stripped: true, ..result }, if verify {
            NextView::Verify
        } else {
            NextView::Done
        }),
    }
}

/// Goes on after the metadata of the file was to be cleared.
pub fn strip_cleared(result: StripFileResult, outcome: Result<(), String>, verify: bool) -> (r: (
    StripFileResult,
    StripNext,
))
    ensures
        (r.0@, r.1@) == after_change(
            result@,
            match outcome {
                Ok(_) => None,
                Err(error) => Some("failed to strip EXIF metadata: "@ + error@),
            },
            verify,
        ),
{
    let mut result = result;
    match outcome {
        Ok(_) => {
            result.stripped = true;
        },
        Err(error) => {
            result.fail("failed to strip EXIF metadata: ", error.as_str());
            return (result, StripNext::Done);
        },
    }
    if verify {
        (result, StripNext::Verify)
    } else {
        (result, StripNext::Done)
    }
}

/// Ends a strip whose tags could not be removed because the metadata of the
/// file could not be read for writing.
pub fn strip_unreadable(result: StripFileResult, error: &str) -> (r: StripFileResult)
    ensures
        r@ == (StripView {
            errors: result@.errors.push("failed to read writable EXIF metadata: "@ + error@),
            ..result@
        }),
{
    let mut result = result;
    result.fail("failed to read writable EXIF metadata: ", error);
    result
}

/// What is said of a tag that is not there to be removed.
pub open spec fn missing_tag_warning(name: Seq<char>) -> Seq<char> {
    "could not find writable EXIF tag `"@ + name + "` to remove"@
}

/// The warnings about targets whose directory is not there.
pub open spec fn missing_warnings(
    targets: Seq<TargetView>,
    slots: Seq<(TagGroup, u32)>,
) -> Seq<Seq<char>>
    decreases targets.len(),
{
    if targets.len() == 0 {
        Seq::empty()
    } else {
        let before = missing_warnings(targets.drop_last(), slots);
        if is_reachable(slots, targets.last().group) {
            before
        } else {
            before.push(missing_tag_warning(targets.last().name))
        }
    }
}

/// Whether the tags of a group with a number are one of the targets.
pub open spec fn is_aimed_at(targets: Seq<TargetView>, group: TagGroup, number: u16) -> bool {
    exists|i: int|
        0 <= i < targets.len() && (#[trigger] targets[i]).group == group && targets[i].tag_id
            == number
}

/// The tags of a directory of a group without the targets.
pub open spec fn without_aimed_at(
    tags: Multiset<TagView>,
    targets: Seq<TargetView>,
    group: TagGroup,
) -> Multiset<TagView> {
    tags.filter(|tag: TagView| !is_aimed_at(targets, group, tag.number))
}

/// The store without the targets: they leave the first directory of their group in
/// each image, up to the last image that has a generic directory.
pub open spec fn without_targets(
    store: Store,
    directories: Seq<(TagGroup, u32)>,
    targets: Seq<TargetView>,
) -> Store {
    Map::new(
        |place: Place| true,
        |place: Place|
            if store[place].len() > 0 && is_covered(directories, place.1) {
                store[place].update(0, without_aimed_at(store[place][0], targets, place.0))
            } else {
                store[place]
            },
    )
}

proof fn lemma_aimed_at_one_more(targets: Seq<TargetView>, group: TagGroup, number: u16)
    requires
        targets.len() > 0,
    ensures
        is_aimed_at(targets, group, number) == (is_aimed_at(targets.drop_last(), group, number) || (
        targets.last().group == group && targets.last().tag_id == number)),
{
    let before = targets.drop_last();
    if is_aimed_at(targets, group, number) {
        let i = choose|i: int|
            0 <= i < targets.len() && (#[trigger] targets[i]).group == group && targets[i].tag_id
                == number;
        if i < before.len() {
            assert(before[i] == targets[i]);
        }
    }
    if is_aimed_at(before, group, number) {
        let i = choose|i: int|
            0 <= i < before.len() && (#[trigger] before[i]).group == group && before[i].tag_id
                == number;
        assert(targets[i] == before[i]);
    }
    if targets.last().group == group && targets.last().tag_id == number {
        assert(targets[targets.len() - 1] == targets.last());
    }
}

proof fn lemma_without_one_more(
    store: Store,
    directories: Seq<(TagGroup, u32)>,
    targets: Seq<TargetView>,
)
    requires
        targets.len() > 0,
    ensures
        without_targets(store, directories, targets) == without_filed(
            without_targets(store, directories, targets.drop_last()),
            directories,
            targets.last().group,
            targets.last().tag_id,
        ),
{
    let before = targets.drop_last();
    let last = targets.last();
    let prior = without_targets(store, directories, before);
    let now = without_targets(store, directories, targets);
    let then = without_filed(prior, directories, last.group, last.tag_id);
    assert forall|place: Place| #[trigger] now[place] == then[place] by {
        if store[place].len() > 0 && is_covered(directories, place.1) {
            let tags = store[place][0];
            let kept = without_aimed_at(tags, before, place.0);
            assert forall|number: u16| is_aimed_at(targets, place.0, number) == (is_aimed_at(
                before,
                place.0,
                number,
            ) || (last.group == place.0 && last.tag_id == number)) by {
                lemma_aimed_at_one_more(targets, place.0, number);
            }
            if place.0 == last.group {
                assert(without_aimed_at(tags, targets, place.0) =~= without_number(
                    kept,
                    last.tag_id,
                ));
            } else {
                assert(without_aimed_at(tags, targets, place.0) =~= kept);
            }
            assert(now[place] =~= then[place]);
        }
    }
    assert(now =~= then);
}

proof fn lemma_without_no_targets(store: Store, directories: Seq<(TagGroup, u32)>)
    requires
        forall|place: Place| #[trigger] store.dom().contains(place),
    ensures
        without_targets(store, directories, Seq::empty()) == store,
{
    let now = without_targets(store, directories, Seq::empty());
    assert forall|place: Place| #[trigger] now[place] == store[place] by {
        if store[place].len() > 0 {
            let tags = store[place][0];
            assert(without_aimed_at(tags, Seq::empty(), place.0) =~= tags);
            assert(now[place] =~= store[place]);
        }
    }
    assert(now =~= store);
}

/// Removes the targets from the metadata of a file, and nothing else; one whose
/// directory is not there is warned about.
pub fn remove_targets(
    metadata: &mut Metadata,
    targets: &Vec<StripRemovalTarget>,
    result: &mut StripFileResult,
)
    ensures
        final(result)@ == (StripView {
            warnings: old(result)@.warnings + missing_warnings(
                target_views(targets@),
                directory_slots(metadata_contents(*old(metadata))),
            ),
            ..old(result)@
        }),
        directory_slots(metadata_contents(*final(metadata))) == directory_slots(
            metadata_contents(*old(metadata)),
        ),
        store(metadata_contents(*final(metadata))) == without_targets(
            store(metadata_contents(*old(metadata))),
            directory_slots(metadata_contents(*old(metadata))),
            target_views(targets@),
        ),
{
    let ghost all = target_views(targets@);
    let ghost start = metadata_contents(*metadata);
    let ghost slots = directory_slots(start);
    let ghost before = texts(result.warnings@);
    let mut i: usize = 0;
    proof {
        assert(before + Seq::<Seq<char>>::empty() =~= before);
        assert(all.take(0) =~= Seq::empty());
        lemma_without_no_targets(store(start), slots);
    }
    while i < targets.len()
        invariant
            i <= targets@.len(),
            all == target_views(targets@),
            start == metadata_contents(*old(metadata)),
            slots == directory_slots(start),
            directory_slots(metadata_contents(*metadata)) == slots,
            result.stripped == old(result).stripped,
            result.verified == old(result).verified,
            result.removed_tags == old(result).removed_tags,
            result.errors == old(result).errors,
            texts(result.warnings@) == before + missing_warnings(all.take(i as int), slots),
            store(metadata_contents(*metadata)) == without_targets(
                store(start),
                slots,
                all.take(i as int),
            ),
        decreases targets@.len() - i,
    {
        let target = &targets[i];
        let ghost warned = texts(result.warnings@);
        proof {
            assert(all.take(i + 1).drop_last() =~= all.take(i as int));
            assert(all.take(i + 1).last() == all[i as int]);
            lemma_without_one_more(store(start), slots, all.take(i + 1));
        }
        let count: usize = remove_tag(metadata, target.tag_id, target.group);
        if count == 0 {
            let mut warning = "could not find writable EXIF tag `".to_owned();
            warning.push_str(target.name.as_str());
            warning.push_str("` to remove");
            let ghost text = warning@;
            result.warnings.push(warning);
            proof {
                assert(texts(result.warnings@) =~= warned.push(text));
            }
        }
        i += 1;
        proof {
            assert(texts(result.warnings@) =~= before + missing_warnings(
                all.take(i as int),
                slots,
            ));
        }
    }
    proof {
        assert(all.take(all.len() as int) =~= all);
    }
}

/// Goes on after the metadata without the tags was to be written.
pub fn strip_written(result: StripFileResult, outcome: Result<(), String>, verify: bool) -> (r: (
    StripFileResult,
    StripNext,
))
    ensures
        (r.0@, r.1@) == after_change(
            result@,
            match outcome {
                Ok(_) => None,
                Err(error) => Some("failed to write stripped EXIF metadata: "@ + error@),
            },
            verify,
        ),
{
    let mut result = result;
    match outcome {
        Ok(_) => {
            result.stripped = true;
        },
        Err(error) => {
            result.fail("failed to write stripped EXIF metadata: ", error.as_str());
            return (result, StripNext::Done);
        },
    }
    if verify {
        (result, StripNext::Verify)
    } else {
        (result, StripNext::Done)
    }
}

/// The names of the fields that a strip was to remove.
pub open spec fn remaining_names(
    mode: StripMode,
    fields: Seq<FieldView>,
    is_tiff: bool,
) -> Seq<Seq<char>>
    decreases fields.len(),
{
    if fields.len() == 0 {
        Seq::empty()
    } else if mode.removes(fields.last(), is_tiff) {
        remaining_names(mode, fields.drop_last(), is_tiff).push(fields.last().name)
    } else {
        remaining_names(mode, fields.drop_last(), is_tiff)
    }
}

/// Whether the tags that were to be removed are gone from an image that was
/// read again.
pub fn verify_strip_result(reading: &Result<ExifData, String>, mode: &StripMode, is_tiff: bool) -> (r:
    Result<(), String>)
    ensures
        match (r, *reading) {
            (Err(error), Err(reason)) => error@ == reason@,
            (Ok(_), Ok(exif)) => remaining_names(*mode, field_views(exif.fields@), is_tiff).len()
                == 0,
            (Err(error), Ok(exif)) => {
                let names = remaining_names(*mode, field_views(exif.fields@), is_tiff);
                names.len() > 0 && error@ == "EXIF tags remain: "@ + join(names, ", "@)
            },
            (Ok(_), Err(_)) => false,
        },
{
    let exif = match reading {
        Ok(exif) => exif,
        Err(error) => return Err(error.clone()),
    };
    let ghost all = field_views(exif.fields@);
    let mut names: Vec<String> = Vec::new();
    let mut i: usize = 0;
    proof {
        assert(texts(names@) =~= Seq::empty());
    }
    while i < exif.fields.len()
        invariant
            i <= exif.fields@.len(),
            all == field_views(exif.fields@),
            texts(names@) == remaining_names(*mode, all.take(i as int), is_tiff),
        decreases exif.fields@.len() - i,
    {
        let ghost before = texts(names@);
        proof {
            assert(all.take(i + 1).drop_last() =~= all.take(i as int));
        }
        if mode.should_remove(&exif.fields[i], is_tiff) {
            names.push(exif.fields[i].name.clone());
            proof {
                assert(texts(names@) =~= before.push(all[i as int].name));
            }
        }
        i += 1;
    }
    proof {
        assert(all.take(all.len() as int) =~= all);
    }
    if names.len() == 0 {
        Ok(())
    } else {
        let mut error = "EXIF tags remain: ".to_owned();
        error.push_str(join_texts(&names, ", ").as_str());
        Err(error)
    }
}

/// Ends a strip that was verified.
pub fn strip_verified(result: StripFileResult, outcome: Result<(), String>) -> (r: StripFileResult)
    ensures
        r@ == (match outcome {
            Ok(_) => StripView { verified: true, ..result@ },
            Err(error) => StripView {
                errors: result@.errors.push("verification failed: "@ + error@),
                ..result@
            },
        }),
{
    let mut result = result;
    match outcome {
        Ok(_) => {
            result.verified = true;
        },
        Err(error) => {
            result.fail("verification failed: ", error.as_str());
        },
    }
    result
}

// ---------------------------------------------------------------------------
// TIFF
// ---------------------------------------------------------------------------
/// The tags of a list that say how a TIFF image is laid out and shown, each with the
/// image that it belongs to.
pub open spec fn layout_tags(tags: Seq<TagView>, number: u32) -> Seq<(u32, TagView)>
    decreases tags.len(),
{
    if tags.len() == 0 {
        Seq::empty()
    } else if is_structural_number(tags.last().number) {
        layout_tags(tags.drop_last(), number).push((number, tags.last()))
    } else {
        layout_tags(tags.drop_last(), number)
    }
}

/// The tags of the generic directories that say how a TIFF image is laid out and
/// shown, in their order.
pub open spec fn preserved_tags(directories: Seq<DirectoryView>) -> Seq<(u32, TagView)>
    decreases directories.len(),
{
    if directories.len() == 0 {
        Seq::empty()
    } else {
        let before = preserved_tags(directories.drop_last());
        let last = directories.last();
        if last.group == TagGroup::Generic {
            before + layout_tags(last.tags, last.number)
        } else {
            before
        }
    }
}

/// A preserved tag: the image it belongs to, and the tag.
pub open spec fn preserved_view(preserved: (u32, ExifTag)) -> (u32, TagView) {
    (preserved.0, tag_contents(preserved.1))
}

pub open spec fn preserved_views(preserved: Seq<(u32, ExifTag)>) -> Seq<(u32, TagView)> {
    preserved.map_values(|entry: (u32, ExifTag)| preserved_view(entry))
}

fn preserve_layout(tags: Vec<ExifTag>, number: u32, out: &mut Vec<(u32, ExifTag)>)
    ensures
        preserved_views(final(out)@) == preserved_views(old(out)@) + layout_tags(
            tags@.map_values(|tag: ExifTag| tag_contents(tag)),
            number,
        ),
{
    let ghost before = preserved_views(out@);
    let ghost input = tags@;
    let ghost all = tags@.map_values(|tag: ExifTag| tag_contents(tag));
    proof {
        assert(before + layout_tags(all.take(0), number) =~= before);
    }
    for tag in it: tags
        invariant
            it.seq() == input,
            all == input.map_values(|tag: ExifTag| tag_contents(tag)),
            preserved_views(out@) == before + layout_tags(all.take(it.index()), number),
    {
        let ghost k = it.index();
        let ghost listed = preserved_views(out@);
        let ghost contents = tag_contents(tag);
        proof {
            assert(all.take(k + 1).drop_last() =~= all.take(k));
            assert(all.take(k + 1).last() == contents);
        }
        if structural_number(tag_number(&tag)) {
            out.push((number, tag));
            proof {
                assert(preserved_views(out@) =~= listed.push((number, contents)));
                assert(preserved_views(out@) =~= before + layout_tags(all.take(k + 1), number));
            }
        }
    }
    proof {
        assert(all.take(all.len() as int) =~= all);
    }
}

fn preserve_tags(stored: Vec<StoredDirectory>) -> (r: Vec<(u32, ExifTag)>)
    ensures
        preserved_views(r@) == preserved_tags(directory_views(stored@)),
{
    let ghost all = directory_views(stored@);
    let ghost input = stored@;
    let mut out: Vec<(u32, ExifTag)> = Vec::new();
    proof {
        assert(preserved_views(out@) =~= Seq::empty());
    }
    for directory in it: stored
        invariant
            it.seq() == input,
            all == directory_views(input),
            preserved_views(out@) == preserved_tags(all.take(it.index())),
    {
        let ghost k = it.index();
        proof {
            assert(all.take(k + 1).drop_last() =~= all.take(k));
            assert(all.take(k + 1).last() == directory@);
        }
        if directory.group == TagGroup::Generic {
            preserve_layout(directory.tags, directory.number, &mut out);
        }
    }
    proof {
        assert(all.take(all.len() as int) =~= all);
    }
    out
}

/// The store with tags filed in generic directories, one after the other, each in
/// place of those with its number there.
pub open spec fn with_layout(store: Store, tags: Seq<(u32, TagView)>) -> Store
    decreases tags.len(),
{
    if tags.len() == 0 {
        store
    } else {
        with_filed(
            with_layout(store, tags.drop_last()),
            (TagGroup::Generic, tags.last().0),
            tags.last().1,
        )
    }
}

/// What is left of the metadata of a TIFF file that was reduced to what the image
/// needs: the bare minimum, with the tags of the layout set again in their order.
pub open spec fn reduced_store(directories: Seq<DirectoryView>) -> Store {
    with_layout(minimal_store(store(directories)), preserved_tags(directories))
}

proof fn lemma_layout_tag(tags: Seq<TagView>, number: u32, i: int)
    requires
        0 <= i < layout_tags(tags, number).len(),
    ensures
        layout_tags(tags, number)[i].0 == number,
        is_structural_number(layout_tags(tags, number)[i].1.number),
        tags.contains(layout_tags(tags, number)[i].1),
    decreases tags.len(),
{
    let before = layout_tags(tags.drop_last(), number);
    if i < before.len() {
        lemma_layout_tag(tags.drop_last(), number, i);
        let tag = before[i].1;
        let k = choose|k: int| 0 <= k < tags.drop_last().len() && tags.drop_last()[k] == tag;
        assert(tags[k] == tag);
    } else {
        assert(tags[tags.len() - 1] == tags.last());
    }
}

proof fn lemma_preserved_tag(directories: Seq<DirectoryView>, i: int)
    requires
        0 <= i < preserved_tags(directories).len(),
    ensures
        is_structural_number(preserved_tags(directories)[i].1.number),
        has_in(
            directories,
            TagGroup::Generic,
            preserved_tags(directories)[i].0,
            preserved_tags(directories)[i].1,
        ),
        store(directories)[(TagGroup::Generic, preserved_tags(directories)[i].0)].len() > 0,
    decreases directories.len(),
{
    let before = directories.drop_last();
    let last = directories.last();
    let (number, tag) = preserved_tags(directories)[i];
    if i < preserved_tags(before).len() {
        lemma_preserved_tag(before, i);
        let k = choose|k: int|
            0 <= k < before.len() && (#[trigger] before[k]).group == TagGroup::Generic
                && before[k].number == number && before[k].tags.contains(tag);
        assert(directories[k] == before[k]);
        lemma_directory_is_shelved(directories, k);
    } else {
        lemma_layout_tag(last.tags, last.number, i - preserved_tags(before).len());
        assert(directories[directories.len() - 1] == last);
        lemma_directory_is_shelved(directories, directories.len() - 1);
    }
}

/// Reduces the metadata of a TIFF file to what the image needs: the bare minimum,
/// and the tags that say how the image is laid out and shown.
pub fn strip_tiff_full_metadata(metadata: &mut Metadata)
    ensures
        store(metadata_contents(*final(metadata))) == reduced_store(
            metadata_contents(*old(metadata)),
        ),
{
    let ghost start = metadata_contents(*metadata);
    let preserved = preserve_tags(directories(metadata));
    let ghost saved = preserved@;
    let ghost all = preserved_tags(start);
    let ghost minimum = minimal_store(store(start));
    reduce_to_minimum(metadata);
    for entry in it: preserved
        invariant
            it.seq() == saved,
            all == preserved_tags(start),
            all == preserved_views(saved),
            minimum == minimal_store(store(start)),
            store(metadata_contents(*metadata)) == with_layout(minimum, all.take(it.index())),
            forall|place: Place|
                (#[trigger] store(metadata_contents(*metadata))[place]).len()
                    >= minimum[place].len(),
    {
        let ghost k = it.index();
        let ghost prior = store(metadata_contents(*metadata));
        let ghost place = (TagGroup::Generic, entry.0);
        let ghost contents = tag_contents(entry.1);
        proof {
            assert(all[k] == (entry.0, contents));
            lemma_preserved_tag(start, k);
            assert(minimum[place].len() == store(start)[place].len());
            assert(prior[place].len() >= minimum[place].len());
            assert(all.take(k + 1).drop_last() =~= all.take(k));
            assert(all.take(k + 1).last() == all[k]);
            lemma_with_filed(prior, place, contents);
        }
        set_generic_tag(metadata, entry.0, entry.1);
    }
    proof {
        assert(all.take(all.len() as int) =~= all);
    }
}

proof fn lemma_layout_stands(store: Store, tags: Seq<(u32, TagView)>, place: Place, tag: TagView)
    requires
        stands(with_layout(store, tags), place, tag),
    ensures
        stands(store, place, tag) || (place.0 == TagGroup::Generic && tags.contains(
            (place.1, tag),
        )),
    decreases tags.len(),
{
    if tags.len() > 0 {
        let before = tags.drop_last();
        let last = tags.last();
        let prior = with_layout(store, before);
        lemma_with_filed(prior, (TagGroup::Generic, last.0), last.1);
        if stands(prior, place, tag) {
            lemma_layout_stands(store, before, place, tag);
            if before.contains((place.1, tag)) {
                let i = choose|i: int| 0 <= i < before.len() && before[i] == (place.1, tag);
                assert(tags[i] == (place.1, tag));
            }
        } else {
            assert(tags[tags.len() - 1] == (place.1, tag));
        }
    }
}

/// Nothing is left of a TIFF file that was reduced but generic tags that were there
/// before, of the bare minimum or of the layout.
pub proof fn law_full_strip_leaves_the_layout(
    directories: Seq<DirectoryView>,
    place: Place,
    tag: TagView,
)
    requires
        stands(reduced_store(directories), place, tag),
    ensures
        place.0 == TagGroup::Generic,
        is_minimal(tag.number) || is_structural_number(tag.number),
        has_in(directories, place.0, place.1, tag),
{
    let minimum = minimal_store(store(directories));
    let all = preserved_tags(directories);
    lemma_layout_stands(minimum, all, place, tag);
    if stands(minimum, place, tag) {
        let k = choose|k: int| 0 <= k < minimum[place].len() && (#[trigger] minimum[place][k]).contains(
            tag,
        );
        let tags = store(directories)[place][k];
        assert(minimum[place][k] == minimal_tags(tags));
        assert(store(directories)[place][k].contains(tag));
        lemma_has_in_store(directories, place.0, place.1, tag);
    } else {
        let i = choose|i: int| 0 <= i < all.len() && all[i] == (place.1, tag);
        lemma_preserved_tag(directories, i);
    }
}

proof fn lemma_last_layout_tag_stands(store: Store, tags: Seq<(u32, TagView)>, i: int)
    requires
        0 <= i < tags.len(),
        forall|k: int|
            i < k < tags.len() ==> (#[trigger] tags[k]).0 != tags[i].0 || tags[k].1.number
                != tags[i].1.number,
    ensures
        stands(with_layout(store, tags), (TagGroup::Generic, tags[i].0), tags[i].1),
    decreases tags.len(),
{
    let before = tags.drop_last();
    let last = tags.last();
    lemma_with_filed(with_layout(store, before), (TagGroup::Generic, last.0), last.1);
    if i < before.len() {
        assert(before[i] == tags[i]);
        assert forall|k: int| i < k < before.len() implies (#[trigger] before[k]).0 != before[i].0
            || before[k].1.number != before[i].1.number by {
            assert(before[k] == tags[k]);
        }
        lemma_last_layout_tag_stands(store, before, i);
        assert(tags[tags.len() - 1].0 != tags[i].0 || tags[tags.len() - 1].1.number
            != tags[i].1.number);
    }
}

/// Of the tags of the layout with one number in one image, the last is there after a
/// full strip.
pub proof fn law_layout_survives_a_full_strip(directories: Seq<DirectoryView>, i: int)
    requires
        0 <= i < preserved_tags(directories).len(),
        forall|k: int|
            i < k < preserved_tags(directories).len() ==> (#[trigger] preserved_tags(
                directories,
            )[k]).0 != preserved_tags(directories)[i].0 || preserved_tags(directories)[k].1.number
                != preserved_tags(directories)[i].1.number,
    ensures
        stands(
            reduced_store(directories),
            (TagGroup::Generic, preserved_tags(directories)[i].0),
            preserved_tags(directories)[i].1,
        ),
{
    lemma_last_layout_tag_stands(
        minimal_store(store(directories)),
        preserved_tags(directories),
        i,
    );
}

proof fn lemma_other_numbers_stand(
    store: Store,
    tags: Seq<(u32, TagView)>,
    place: Place,
    tag: TagView,
)
    requires
        stands(store, place, tag),
        forall|i: int| 0 <= i < tags.len() ==> (#[trigger] tags[i]).1.number != tag.number,
    ensures
        stands(with_layout(store, tags), place, tag),
    decreases tags.len(),
{
    if tags.len() > 0 {
        let before = tags.drop_last();
        let last = tags.last();
        assert forall|i: int| 0 <= i < before.len() implies (#[trigger] before[i]).1.number
            != tag.number by {
            assert(before[i] == tags[i]);
        }
        lemma_other_numbers_stand(store, before, place, tag);
        assert(tags[tags.len() - 1].1.number != tag.number);
        lemma_with_filed(with_layout(store, before), (TagGroup::Generic, last.0), last.1);
    }
}

/// A tag of the bare minimum that says nothing of the layout, such as where the
/// thumbnail is, is there after a full strip.
pub proof fn law_minimum_survives_a_full_strip(
    directories: Seq<DirectoryView>,
    number: u32,
    k: int,
    tag: TagView,
)
    requires
        0 <= k < store(directories)[(TagGroup::Generic, number)].len(),
        store(directories)[(TagGroup::Generic, number)][k].contains(tag),
        is_minimal(tag.number),
        !is_structural_number(tag.number),
        !has_unknown(store(directories)[(TagGroup::Generic, number)][k], tag.number),
    ensures
        stands(reduced_store(directories), (TagGroup::Generic, number), tag),
{
    let place = (TagGroup::Generic, number);
    let minimum = minimal_store(store(directories));
    let all = preserved_tags(directories);
    assert(minimum[place][k] == minimal_tags(store(directories)[place][k]));
    assert(minimum[place][k].contains(tag));
    assert forall|i: int| 0 <= i < all.len() implies (#[trigger] all[i]).1.number != tag.number by {
        lemma_preserved_tag(directories, i);
    }
    lemma_other_numbers_stand(minimum, all, place, tag);
}

/// A target is gone from the first directory of its place, a tag that is no target
/// is not, and other directories of the place stay as they are.
pub proof fn law_targets_alone_are_gone(
    store: Store,
    directories: Seq<(TagGroup, u32)>,
    targets: Seq<TargetView>,
    place: Place,
    tag: TagView,
)
    requires
        store[place].len() > 0,
        is_covered(directories, place.1),
    ensures
        ({
            let after = without_targets(store, directories, targets)[place];
            &&& after.len() == store[place].len()
            &&& after[0].contains(tag) <==> store[place][0].contains(tag) && !is_aimed_at(
                targets,
                place.0,
                tag.number,
            )
            &&& forall|k: int| 0 < k < after.len() ==> #[trigger] after[k] == store[place][k]
        }),
{
}

/// A dry run leaves the file alone.
pub proof fn law_dry_run_changes_nothing(
    reading: Result<Seq<FieldView>, Seq<char>>,
    mode: StripMode,
    is_tiff: bool,
    verify: bool,
)
    ensures
        strip_start(reading, mode, is_tiff, true, verify).1 is Done,
{
}

/// A strip with errors leaves the file alone.
pub proof fn law_errors_stop_a_strip(
    reading: Result<Seq<FieldView>, Seq<char>>,
    mode: StripMode,
    is_tiff: bool,
    dry_run: bool,
    verify: bool,
)
    requires
        strip_start(reading, mode, is_tiff, dry_run, verify).0.errors.len() > 0,
    ensures
        strip_start(reading, mode, is_tiff, dry_run, verify).1 is Done,
        !strip_start(reading, mode, is_tiff, dry_run, verify).0.stripped,
{
}

/// A dry run foretells a strip: it counts the tags that the strip removes, and
/// says that there is something to strip exactly where the strip goes on to
/// change the file.
pub proof fn law_dry_run_foretells_the_strip(
    reading: Result<Seq<FieldView>, Seq<char>>,
    mode: StripMode,
    is_tiff: bool,
    verify: bool,
)
    ensures
        ({
            let dry = strip_start(reading, mode, is_tiff, true, verify).0;
            let wet = strip_start(reading, mode, is_tiff, false, verify);
            &&& dry.removed_tags == wet.0.removed_tags
            &&& dry.warnings == wet.0.warnings
            &&& dry.errors == wet.0.errors
            &&& dry.stripped <==> (wet.1 is ClearFile || wet.1 is ClearTiff || wet.1 is RemoveTags)
        }),
{
}

/// Where no field is left that a strip was to remove, the strip is verified,
/// and only there.
pub proof fn law_verified_means_gone(mode: StripMode, fields: Seq<FieldView>, is_tiff: bool)
    ensures
        remaining_names(mode, fields, is_tiff).len() == 0 <==> forall|i: int|
            0 <= i < fields.len() ==> !mode.removes(#[trigger] fields[i], is_tiff),
    decreases fields.len(),
{
    if fields.len() > 0 {
        law_verified_means_gone(mode, fields.drop_last(), is_tiff);
        assert forall|i: int| 0 <= i < fields.drop_last().len() implies fields.drop_last()[i]
            == fields[i] by {}
        if remaining_names(mode, fields, is_tiff).len() == 0 {
            assert forall|i: int| 0 <= i < fields.len() implies !mode.removes(
                #[trigger] fields[i],
                is_tiff,
            ) by {
                if i < fields.len() - 1 {
                    assert(!mode.removes(fields.drop_last()[i], is_tiff));
                }
            }
        }
        if forall|i: int| 0 <= i < fields.len() ==> !mode.removes(#[trigger] fields[i], is_tiff) {
            assert(!mode.removes(fields[fields.len() - 1], is_tiff));
            assert forall|i: int| 0 <= i < fields.drop_last().len() implies !mode.removes(
                #[trigger] fields.drop_last()[i],
                is_tiff,
            ) by {
                assert(!mode.removes(fields[i], is_tiff));
            }
        }
    }
}

} // verus!
