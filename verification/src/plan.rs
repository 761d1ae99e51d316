//! Which tags are written to which image.

use crate::check::{
    frame_entries, frame_outcomes, lookup_views, no_findings, numbered_image, path_option,
    reference_warnings, structure_error, with_items, Findings, FrameSurroundings, OutcomeView,
};
use crate::path::{name_of, write_file_heading, FilePath, PathView};
use crate::tags::tag_names;
use crate::text::{decimal, decimal_text, same, texts};
use crate::yaml::{
    as_mapping, as_text, entries_contents, entry_of, frame_number, frame_number_from_key,
    items_contents, mapping_of, text_of, yaml_contents, yaml_mapping_get, yaml_shape, Yaml,
    YamlShape,
};
use serde_yaml::Value;
use vstd::prelude::*;

verus! {

/// A tag to write, as the metadata file has it.
#[derive(Debug)]
pub struct WriteTag {
    pub name: String,
    pub value: Value,
}

/// What a tag to write says: its name and its value.
pub type NamedValue = (Seq<char>, Yaml);

impl View for WriteTag {
    type V = NamedValue;

    open spec fn view(&self) -> NamedValue {
        (self.name@, yaml_contents(self.value))
    }
}

pub open spec fn write_views(tags: Seq<WriteTag>) -> Seq<NamedValue> {
    tags.map_values(|tag: WriteTag| tag@)
}

fn copy_tag(tag: &WriteTag) -> (r: WriteTag)
    ensures
        r@ == tag@,
{
    WriteTag { name: tag.name.clone(), value: tag.value.clone() }
}

fn copy_tags(tags: &Vec<WriteTag>) -> (r: Vec<WriteTag>)
    ensures
        write_views(r@) == write_views(tags@),
        r@.len() == tags@.len(),
{
    let mut out: Vec<WriteTag> = Vec::new();
    let mut i: usize = 0;
    while i < tags.len()
        invariant
            i <= tags@.len(),
            out@.len() == i,
            forall|k: int| 0 <= k < i ==> (#[trigger] out@[k])@ == tags@[k]@,
        decreases tags@.len() - i,
    {
        out.push(copy_tag(&tags[i]));
        i += 1;
    }
    proof {
        assert(write_views(out@) =~= write_views(tags@));
    }
    out
}

// ---------------------------------------------------------------------------
// Reading tags
// ---------------------------------------------------------------------------
/// The tags of a mapping, where all its keys are texts.
pub open spec fn tags_in(entries: Seq<(Yaml, Yaml)>) -> Option<Seq<NamedValue>>
    decreases entries.len(),
{
    if entries.len() == 0 {
        Some(Seq::empty())
    } else {
        match (tags_in(entries.drop_last()), text_of(entries.last().0)) {
            (Some(tags), Some(name)) => Some(tags.push((name, entries.last().1))),
            _ => None,
        }
    }
}

proof fn lemma_bad_key(entries: Seq<(Yaml, Yaml)>, i: int)
    requires
        0 <= i < entries.len(),
        text_of(entries[i].0) is None,
    ensures
        tags_in(entries) is None,
    decreases entries.len(),
{
    if i < entries.len() - 1 {
        lemma_bad_key(entries.drop_last(), i);
    }
}

pub open spec fn tag_keys_error() -> Seq<char> {
    "metadata YAML tag keys must be strings"@
}

/// The tags of a mapping.
pub fn collect_write_tags_from_mapping(entries: &Vec<(Value, Value)>) -> (r: Result<
    Vec<WriteTag>,
    String,
>)
    ensures
        match r {
            Ok(tags) => tags_in(entries_contents(entries@)) == Some(write_views(tags@)),
            Err(error) => tags_in(entries_contents(entries@)) is None && error@
                == tag_keys_error(),
        },
{
    let ghost all = entries_contents(entries@);
    let mut tags: Vec<WriteTag> = Vec::new();
    let mut i: usize = 0;
    proof {
        assert(write_views(tags@) =~= Seq::empty());
    }
    while i < entries.len()
        invariant
            i <= entries@.len(),
            all == entries_contents(entries@),
            tags_in(all.take(i as int)) == Some(write_views(tags@)),
        decreases entries@.len() - i,
    {
        let ghost before = write_views(tags@);
        proof {
            assert(all.take(i + 1).drop_last() =~= all.take(i as int));
            assert(all.take(i + 1).last() == all[i as int]);
        }
        match as_text(&entries[i].0) {
            Some(name) => {
                let ghost text = name@;
                tags.push(WriteTag { name, value: entries[i].1.clone() });
                proof {
                    assert(write_views(tags@) =~= before.push((text, all[i as int].1)));
                }
            },
            None => {
                proof {
                    lemma_bad_key(all, i as int);
                }
                return Err("metadata YAML tag keys must be strings".to_owned());
            },
        }
        i += 1;
    }
    proof {
        assert(all.take(all.len() as int) =~= all);
    }
    Ok(tags)
}

/// The tags of a frame that is a list of mappings with one tag each, up to the
/// first item that is none.
pub open spec fn tags_in_items(items: Seq<Yaml>) -> Result<Seq<NamedValue>, Seq<char>>
    decreases items.len(),
{
    if items.len() == 0 {
        Ok(Seq::empty())
    } else {
        match tags_in_items(items.drop_last()) {
            Err(error) => Err(error),
            Ok(before) => match mapping_of(items.last()) {
                None => Err("metadata YAML frame entries must be mappings"@),
                Some(entries) => if entries.len() != 1 {
                    Err("metadata YAML frame sequence entries must contain one tag"@)
                } else {
                    match tags_in(entries) {
                        None => Err(tag_keys_error()),
                        Some(tags) => Ok(before + tags),
                    }
                },
            },
        }
    }
}

proof fn lemma_item_error_stays(items: Seq<Yaml>, i: int)
    requires
        0 <= i <= items.len(),
        tags_in_items(items.take(i)) is Err,
    ensures
        tags_in_items(items) == tags_in_items(items.take(i)),
    decreases items.len() - i,
{
    if i == items.len() {
        assert(items.take(i) =~= items);
    } else {
        assert(items.take(i + 1).drop_last() =~= items.take(i));
        lemma_item_error_stays(items, i + 1);
    }
}

/// The tags of a frame.
pub open spec fn frame_tags(value: Yaml) -> Result<Seq<NamedValue>, Seq<char>> {
    match value {
        Yaml::Mapping(entries) => match tags_in(entries) {
            Some(tags) => Ok(tags),
            None => Err(tag_keys_error()),
        },
        Yaml::Sequence(items) => tags_in_items(items),
        Yaml::Null => Ok(Seq::empty()),
        _ => Err("metadata YAML frame values must be mappings or sequences"@),
    }
}

pub open spec fn views_result(r: Result<Vec<WriteTag>, String>) -> Result<
    Seq<NamedValue>,
    Seq<char>,
> {
    match r {
        Ok(tags) => Ok(write_views(tags@)),
        Err(error) => Err(error@),
    }
}

/// The tags of a frame.
#[verifier::loop_isolation(false)]
pub fn collect_write_tags_from_frame_value(value: &Value) -> (r: Result<Vec<WriteTag>, String>)
    ensures
        views_result(r) == frame_tags(yaml_contents(*value)),
{
    match yaml_shape(value) {
        YamlShape::Mapping(entries) => collect_write_tags_from_mapping(&entries),
        YamlShape::Sequence(items) => {
            let ghost all = items_contents(items@);
            let mut tags: Vec<WriteTag> = Vec::new();
            let mut i: usize = 0;
            proof {
                assert(write_views(tags@) =~= Seq::empty());
            }
            while i < items.len()
                invariant
                    i <= items@.len(),
                    all == items_contents(items@),
                    tags_in_items(all.take(i as int)) == Ok::<Seq<NamedValue>, Seq<char>>(
                        write_views(tags@),
                    ),
                decreases items@.len() - i,
            {
                let ghost before = write_views(tags@);
                proof {
                    assert(all.take(i + 1).drop_last() =~= all.take(i as int));
                    assert(all.take(i + 1).last() == all[i as int]);
                }
                let entries = match as_mapping(&items[i]) {
                    Some(entries) => entries,
                    None => {
                        proof {
                            lemma_item_error_stays(all, i + 1);
                        }
                        return Err("metadata YAML frame entries must be mappings".to_owned());
                    },
                };
                if entries.len() != 1 {
                    proof {
                        lemma_item_error_stays(all, i + 1);
                    }
                    return Err(
                        "metadata YAML frame sequence entries must contain one tag".to_owned(),
                    );
                }
                match collect_write_tags_from_mapping(&entries) {
                    Ok(more) => {
                        let ghost added = write_views(more@);
                        let mut more = more;
                        tags.append(&mut more);
                        proof {
                            assert(write_views(tags@) =~= before + added);
                        }
                    },
                    Err(error) => {
                        proof {
                            lemma_item_error_stays(all, i + 1);
                        }
                        return Err(error);
                    },
                }
                i += 1;
            }
            proof {
                assert(all.take(all.len() as int) =~= all);
            }
            Ok(tags)
        },
        YamlShape::Null => {
            let none: Vec<WriteTag> = Vec::new();
            proof {
                assert(write_views(none@) =~= Seq::empty());
            }
            Ok(none)
        },
        _ => Err("metadata YAML frame values must be mappings or sequences".to_owned()),
    }
}

// ---------------------------------------------------------------------------
// Frames
// ---------------------------------------------------------------------------
/// A file that a frame names, and the spelling that its path beside the
/// metadata file shares with every path that compares equal.
#[derive(Debug)]
pub struct FrameFile {
    pub name: String,
    pub identity: String,
}

pub open spec fn file_views(files: Seq<FrameFile>) -> Seq<(Seq<char>, Seq<char>)> {
    files.map_values(|file: FrameFile| (file.name@, file.identity@))
}

/// Where the file that a frame names lies.
pub open spec fn identity_of(files: Seq<(Seq<char>, Seq<char>)>, name: Seq<char>) -> Option<
    Seq<char>,
>
    decreases files.len(),
{
    if files.len() == 0 {
        None
    } else if files[0].0 == name {
        Some(files[0].1)
    } else {
        identity_of(files.skip(1), name)
    }
}

fn find_identity<'a>(files: &'a Vec<FrameFile>, name: &str) -> (r: Option<&'a str>)
    ensures
        crate::text::slice_option(r) == identity_of(file_views(files@), name@),
{
    let ghost all = file_views(files@);
    let mut i: usize = 0;
    proof {
        assert(all.skip(0) =~= all);
    }
    while i < files.len()
        invariant
            i <= files@.len(),
            all == file_views(files@),
            identity_of(all, name@) == identity_of(all.skip(i as int), name@),
        decreases files@.len() - i,
    {
        proof {
            assert(all.skip(i as int).skip(1) =~= all.skip(i + 1));
            assert(all.skip(i as int)[0] == all[i as int]);
        }
        if same(files[i].name.as_str(), name) {
            return Some(files[i].identity.as_str());
        }
        i += 1;
    }
    None
}

/// The first target with an identity.
pub open spec fn target_at(targets: Seq<FilePath>, identity: Seq<char>) -> Option<PathView>
    decreases targets.len(),
{
    if targets.len() == 0 {
        None
    } else if targets[0].identity@ == identity {
        Some(targets[0]@)
    } else {
        target_at(targets.skip(1), identity)
    }
}

fn find_target(targets: &Vec<FilePath>, identity: &str) -> (r: Option<FilePath>)
    ensures
        path_option(r) == target_at(targets@, identity@),
{
    let ghost all = targets@;
    let mut i: usize = 0;
    proof {
        assert(all.skip(0) =~= all);
    }
    while i < targets.len()
        invariant
            i <= targets@.len(),
            all == targets@,
            target_at(all, identity@) == target_at(all.skip(i as int), identity@),
        decreases targets@.len() - i,
    {
        proof {
            assert(all.skip(i as int).skip(1) =~= all.skip(i + 1));
            assert(all.skip(i as int)[0] == all[i as int]);
        }
        if same(targets[i].identity.as_str(), identity) {
            return Some(targets[i].duplicate());
        }
        i += 1;
    }
    None
}

/// The target that a frame is for: by its number among the targets, or by the
/// name of its file.
pub open spec fn frame_target(
    key: Yaml,
    files: Seq<(Seq<char>, Seq<char>)>,
    targets: Seq<FilePath>,
) -> Option<PathView> {
    match frame_number(key) {
        Some(number) => numbered_image(Some(number), targets),
        None => match text_of(key) {
            Some(name) => match identity_of(files, name) {
                Some(identity) => target_at(targets, identity),
                None => None,
            },
            None => None,
        },
    }
}

/// The image that a frame is about.
pub fn resolve_write_frame_target(
    key: &Value,
    files: &Vec<FrameFile>,
    targets: &Vec<FilePath>,
) -> (r: Option<FilePath>)
    ensures
        path_option(r) == frame_target(yaml_contents(*key), file_views(files@), targets@),
{
    match frame_number_from_key(key) {
        Some(number) => crate::check::resolved_frame_file(Some(number), targets),
        None => match as_text(key) {
            Some(name) => match find_identity(files, name.as_str()) {
                Some(identity) => find_target(targets, identity),
                None => None,
            },
            None => None,
        },
    }
}

/// The name of the file of a path.
pub open spec fn view_name(path: PathView) -> Seq<char> {
    match path.file_name {
        Some(name) => name,
        None => path.text,
    }
}

/// The label that the frame of an image is reported under.
pub open spec fn frame_label(key: Yaml, image: PathView) -> Seq<char> {
    match frame_number(key) {
        Some(number) => view_name(image) + " ← frame "@ + decimal(number as nat),
        None => view_name(image),
    }
}

/// How a frame is called.
pub fn write_frame_label(key: &Value, image: &FilePath) -> (r: String)
    ensures
        r@ == frame_label(yaml_contents(*key), image@),
{
    let mut label = write_file_heading(image);
    match frame_number_from_key(key) {
        Some(number) => {
            label.push_str(" ← frame ");
            label.push_str(decimal_text(number as u128).as_str());
        },
        None => {},
    }
    label
}

/// What is written to one image.
#[derive(Debug)]
pub struct WriteFramePlan {
    pub label: String,
    pub tags: Vec<WriteTag>,
}

pub struct FramePlanView {
    pub label: Seq<char>,
    pub tags: Seq<NamedValue>,
}

impl View for WriteFramePlan {
    type V = FramePlanView;

    open spec fn view(&self) -> FramePlanView {
        FramePlanView { label: self.label@, tags: write_views(self.tags@) }
    }
}

/// What the frame of one image has to be written.
#[derive(Debug)]
pub struct PlannedFrame {
    pub image: FilePath,
    pub plan: WriteFramePlan,
}

/// What is written: the global tags, and those of frames.
#[derive(Debug)]
pub struct WritePlan {
    pub global: Vec<WriteTag>,
    pub frames: Vec<PlannedFrame>,
}

/// The frame that is planned for an image.
pub open spec fn frame_at(frames: Seq<PlannedFrame>, identity: Seq<char>) -> Option<FramePlanView>
    decreases frames.len(),
{
    if frames.len() == 0 {
        None
    } else if frames[0].image.identity@ == identity {
        Some(frames[0].plan@)
    } else {
        frame_at(frames.skip(1), identity)
    }
}

fn find_frame<'a>(frames: &'a Vec<PlannedFrame>, identity: &str) -> (r: Option<&'a WriteFramePlan>)
    ensures
        match r {
            Some(plan) => frame_at(frames@, identity@) == Some(plan@),
            None => frame_at(frames@, identity@) is None,
        },
{
    let ghost all = frames@;
    let mut i: usize = 0;
    proof {
        assert(all.skip(0) =~= all);
    }
    while i < frames.len()
        invariant
            i <= frames@.len(),
            all == frames@,
            frame_at(all, identity@) == frame_at(all.skip(i as int), identity@),
        decreases frames@.len() - i,
    {
        proof {
            assert(all.skip(i as int).skip(1) =~= all.skip(i + 1));
            assert(all.skip(i as int)[0] == all[i as int]);
        }
        if same(frames[i].image.identity.as_str(), identity) {
            return Some(&frames[i].plan);
        }
        i += 1;
    }
    None
}

proof fn lemma_frame_at_push_first(frames: Seq<PlannedFrame>, frame: PlannedFrame, id: Seq<char>)
    ensures
        frame_at(seq![frame] + frames, id) == (if id == frame.image.identity@ {
            Some(frame.plan@)
        } else {
            frame_at(frames, id)
        }),
{
    assert((seq![frame] + frames).skip(1) =~= frames);
}

/// Puts a frame before the others, so that it is the one that is found for its
/// image.
fn put_frame(frames: &mut Vec<PlannedFrame>, frame: PlannedFrame)
    ensures
        forall|id: Seq<char>| #[trigger]
            frame_at(final(frames)@, id) == (if id == frame.image.identity@ {
                Some(frame.plan@)
            } else {
                frame_at(old(frames)@, id)
            }),
{
    let ghost before = frames@;
    frames.insert(0, frame);
    proof {
        assert(frames@ =~= seq![frame] + before);
        assert forall|id: Seq<char>| #[trigger]
            frame_at(frames@, id) == (if id == frame.image.identity@ {
                Some(frame.plan@)
            } else {
                frame_at(before, id)
            }) by {
            lemma_frame_at_push_first(before, frame, id);
        }
    }
}

/// What the frames of a metadata file plan for an image: the last frame for it
/// counts.
pub open spec fn planned_frame(
    entries: Seq<(Yaml, Yaml)>,
    files: Seq<(Seq<char>, Seq<char>)>,
    targets: Seq<FilePath>,
    identity: Seq<char>,
) -> Option<FramePlanView>
    decreases entries.len(),
{
    if entries.len() == 0 {
        None
    } else {
        let key = entries.last().0;
        match frame_target(key, files, targets) {
            Some(image) => if image.identity == identity {
                Some(
                    FramePlanView {
                        label: frame_label(key, image),
                        tags: frame_tags(entries.last().1)->Ok_0,
                    },
                )
            } else {
                planned_frame(entries.drop_last(), files, targets, identity)
            },
            None => planned_frame(entries.drop_last(), files, targets, identity),
        }
    }
}

/// What is wrong with the frames that are for a target, if something is: the
/// first of them without proper tags. Other frames are not looked at.
pub open spec fn frames_error(
    entries: Seq<(Yaml, Yaml)>,
    files: Seq<(Seq<char>, Seq<char>)>,
    targets: Seq<FilePath>,
) -> Option<Seq<char>>
    decreases entries.len(),
{
    if entries.len() == 0 {
        None
    } else {
        match frames_error(entries.drop_last(), files, targets) {
            Some(error) => Some(error),
            None => if frame_target(entries.last().0, files, targets) is Some {
                match frame_tags(entries.last().1) {
                    Err(error) => Some(error),
                    Ok(_) => None,
                }
            } else {
                None
            },
        }
    }
}

proof fn lemma_frames_error_stays(
    entries: Seq<(Yaml, Yaml)>,
    files: Seq<(Seq<char>, Seq<char>)>,
    targets: Seq<FilePath>,
    i: int,
)
    requires
        0 <= i <= entries.len(),
        frames_error(entries.take(i), files, targets) is Some,
    ensures
        frames_error(entries, files, targets) == frames_error(entries.take(i), files, targets),
    decreases entries.len() - i,
{
    if i == entries.len() {
        assert(entries.take(i) =~= entries);
    } else {
        assert(entries.take(i + 1).drop_last() =~= entries.take(i));
        lemma_frames_error_stays(entries, files, targets, i + 1);
    }
}

/// The global tags of a metadata file, or what is wrong with them.
pub open spec fn global_tags(root: Seq<(Yaml, Yaml)>) -> Result<Seq<NamedValue>, Seq<char>> {
    match entry_of(root, "exif"@) {
        None => Ok(Seq::empty()),
        Some(exif) => match mapping_of(exif) {
            None => Err("metadata YAML `exif` key must be a mapping"@),
            Some(entries) => match tags_in(entries) {
                None => Err(tag_keys_error()),
                Some(tags) => Ok(tags),
            },
        },
    }
}

/// The frames of a metadata file, where they have a proper structure.
pub open spec fn entries_of_frames(root: Seq<(Yaml, Yaml)>) -> Seq<(Yaml, Yaml)> {
    match frame_entries(root) {
        Ok(Some(entries)) => entries,
        _ => Seq::empty(),
    }
}

/// Why a metadata file cannot be planned, if so: the root is looked at first,
/// then the global tags, then the frames.
pub open spec fn plan_error(
    yaml: Yaml,
    files: Seq<(Seq<char>, Seq<char>)>,
    targets: Seq<FilePath>,
) -> Option<Seq<char>> {
    match mapping_of(yaml) {
        None => Some("metadata YAML root must be a mapping"@),
        Some(root) => match (global_tags(root), frame_entries(root)) {
            (Err(error), _) => Some(error),
            (_, Err(error)) => Some(error),
            (_, Ok(_)) => frames_error(entries_of_frames(root), files, targets),
        },
    }
}

/// Whether a plan is that of a metadata file.
pub open spec fn is_plan_of(
    plan: WritePlan,
    root: Seq<(Yaml, Yaml)>,
    files: Seq<(Seq<char>, Seq<char>)>,
    targets: Seq<FilePath>,
) -> bool {
    &&& write_views(plan.global@) == global_tags(root)->Ok_0
    &&& forall|id: Seq<char>| #[trigger]
        frame_at(plan.frames@, id) == planned_frame(entries_of_frames(root), files, targets, id)
}

/// Plans what is written to which image.
#[verifier::loop_isolation(false)]
pub fn build_write_plan(yaml: &Value, files: &Vec<FrameFile>, targets: &Vec<FilePath>) -> (r:
    Result<WritePlan, String>)
    ensures
        match r {
            Ok(plan) => {
                &&& plan_error(yaml_contents(*yaml), file_views(files@), targets@) is None
                &&& is_plan_of(
                    plan,
                    mapping_of(yaml_contents(*yaml))->Some_0,
                    file_views(files@),
                    targets@,
                )
            },
            Err(error) => plan_error(yaml_contents(*yaml), file_views(files@), targets@) == Some(
                error@,
            ),
        },
{
    let root = match as_mapping(yaml) {
        Some(root) => root,
        None => return Err("metadata YAML root must be a mapping".to_owned()),
    };
    let mut plan = WritePlan { global: Vec::new(), frames: Vec::new() };
    proof {
        assert(write_views(plan.global@) =~= Seq::empty());
    }
    if let Some(exif) = yaml_mapping_get(&root, "exif") {
        let entries = match as_mapping(&exif) {
            Some(entries) => entries,
            None => return Err("metadata YAML `exif` key must be a mapping".to_owned()),
        };
        plan.global = match collect_write_tags_from_mapping(&entries) {
            Ok(tags) => tags,
            Err(error) => return Err(error),
        };
    }
    if let Some(frames) = yaml_mapping_get(&root, "frames") {
        let entries = match yaml_shape(&frames) {
            YamlShape::Null => {
                let none: Vec<(Value, Value)> = Vec::new();
                proof {
                    assert(entries_contents(none@) =~= Seq::empty());
                }
                none
            },
            YamlShape::Mapping(entries) => entries,
            _ => return Err("metadata YAML `frames` key must be a mapping".to_owned()),
        };
        let ghost all = entries_contents(entries@);
        let ghost views = file_views(files@);
        let mut i: usize = 0;
        while i < entries.len()
            invariant
                i <= entries@.len(),
                all == entries_contents(entries@),
                views == file_views(files@),
                global_tags(entries_contents(root@)) == Ok::<Seq<NamedValue>, Seq<char>>(
                    write_views(plan.global@),
                ),
                frames_error(all.take(i as int), views, targets@) is None,
                forall|id: Seq<char>| #[trigger]
                    frame_at(plan.frames@, id) == planned_frame(
                        all.take(i as int),
                        views,
                        targets@,
                        id,
                    ),
            decreases entries@.len() - i,
        {
            let ghost before = plan.frames@;
            proof {
                assert(all.take(i + 1).drop_last() =~= all.take(i as int));
                assert(all.take(i + 1).last() == all[i as int]);
            }
            match resolve_write_frame_target(&entries[i].0, files, targets) {
                Some(image) => {
                    let tags = match collect_write_tags_from_frame_value(&entries[i].1) {
                        Ok(tags) => tags,
                        Err(error) => {
                            proof {
                                lemma_frames_error_stays(all, views, targets@, i + 1);
                            }
                            return Err(error);
                        },
                    };
                    let label = write_frame_label(&entries[i].0, &image);
                    put_frame(
                        &mut plan.frames,
                        PlannedFrame { image, plan: WriteFramePlan { label, tags } },
                    );
                },
                None => {},
            }
            i += 1;
            proof {
                assert forall|id: Seq<char>| #[trigger]
                    frame_at(plan.frames@, id) == planned_frame(
                        all.take(i as int),
                        views,
                        targets@,
                        id,
                    ) by {
                    assert(frame_at(before, id) == planned_frame(
                        all.take(i - 1),
                        views,
                        targets@,
                        id,
                    ));
                }
            }
        }
        proof {
            assert(all.take(all.len() as int) =~= all);
            assert(entries_of_frames(entries_contents(root@)) == all);
        }
    } else {
        proof {
            let none = entries_of_frames(entries_contents(root@));
            assert(none =~= Seq::empty());
            assert forall|id: Seq<char>| #[trigger]
                frame_at(plan.frames@, id) == planned_frame(
                    none,
                    file_views(files@),
                    targets@,
                    id,
                ) by {}
        }
    }
    Ok(plan)
}

// ---------------------------------------------------------------------------
// One image
// ---------------------------------------------------------------------------
/// `tags` with a tag set: in place of the first with its name, else behind the
/// others.
pub open spec fn with_tag_set(tags: Seq<NamedValue>, tag: NamedValue) -> Seq<NamedValue>
    decreases tags.len(),
{
    if tags.len() == 0 {
        seq![tag]
    } else if tags[0].0 == tag.0 {
        seq![tag] + tags.skip(1)
    } else {
        seq![tags[0]] + with_tag_set(tags.skip(1), tag)
    }
}

/// `tags` with all of `more` set, in their order.
pub open spec fn with_tags_set(tags: Seq<NamedValue>, more: Seq<NamedValue>) -> Seq<NamedValue>
    decreases more.len(),
{
    if more.len() == 0 {
        tags
    } else {
        with_tag_set(with_tags_set(tags, more.drop_last()), more.last())
    }
}

pub proof fn lemma_with_tag_set_at(tags: Seq<NamedValue>, tag: NamedValue, i: int)
    requires
        0 <= i < tags.len(),
        tags[i].0 == tag.0,
        forall|k: int| 0 <= k < i ==> (#[trigger] tags[k]).0 != tag.0,
    ensures
        with_tag_set(tags, tag) == tags.update(i, tag),
    decreases i,
{
    if i == 0 {
        assert(seq![tag] + tags.skip(1) =~= tags.update(0, tag));
    } else {
        let rest = tags.skip(1);
        assert forall|k: int| 0 <= k < i - 1 implies (#[trigger] rest[k]).0 != tag.0 by {
            assert(rest[k] == tags[k + 1]);
        }
        lemma_with_tag_set_at(rest, tag, i - 1);
        assert(tags[0].0 != tag.0);
        assert(seq![tags[0]] + rest.update(i - 1, tag) =~= tags.update(i, tag));
    }
}

pub proof fn lemma_with_tag_set_new(tags: Seq<NamedValue>, tag: NamedValue)
    requires
        forall|k: int| 0 <= k < tags.len() ==> (#[trigger] tags[k]).0 != tag.0,
    ensures
        with_tag_set(tags, tag) == tags.push(tag),
    decreases tags.len(),
{
    if tags.len() == 0 {
        assert(seq![tag] =~= tags.push(tag));
    } else {
        let rest = tags.skip(1);
        assert forall|k: int| 0 <= k < rest.len() implies (#[trigger] rest[k]).0 != tag.0 by {
            assert(rest[k] == tags[k + 1]);
        }
        lemma_with_tag_set_new(rest, tag);
        assert(tags[0].0 != tag.0);
        assert(seq![tags[0]] + rest.push(tag) =~= tags.push(tag));
    }
}

fn set_tag(tags: &mut Vec<WriteTag>, tag: &WriteTag)
    ensures
        write_views(final(tags)@) == with_tag_set(write_views(old(tags)@), tag@),
{
    let ghost before = write_views(tags@);
    let mut i: usize = 0;
    while i < tags.len()
        invariant
            i <= tags@.len(),
            tags@ == old(tags)@,
            before == write_views(tags@),
            forall|k: int| 0 <= k < i ==> (#[trigger] before[k]).0 != tag.name@,
        decreases tags@.len() - i,
    {
        if same(tags[i].name.as_str(), tag.name.as_str()) {
            let copy = copy_tag(tag);
            tags[i] = copy;
            proof {
                lemma_with_tag_set_at(before, tag@, i as int);
                assert(write_views(tags@) =~= before.update(i as int, tag@));
            }
            return;
        }
        i += 1;
    }
    tags.push(copy_tag(tag));
    proof {
        lemma_with_tag_set_new(before, tag@);
        assert(write_views(tags@) =~= before.push(tag@));
    }
}

/// The names under which the sensitivity of the film is written.
pub open spec fn is_iso_name(name: Seq<char>) -> bool {
    name == "ISO"@ || name == "ISOSpeed"@ || name == "ISOSpeedRatings"@
}

/// Whether a name is one of those of the film speed.
pub fn is_iso_alias(name: &str) -> (r: bool)
    ensures
        r == is_iso_name(name@),
{
    same(name, "ISO") || same(name, "ISOSpeed") || same(name, "ISOSpeedRatings")
}

/// The value of the last tag for the sensitivity of the film.
pub open spec fn last_iso(tags: Seq<NamedValue>) -> Option<Yaml>
    decreases tags.len(),
{
    if tags.len() == 0 {
        None
    } else if is_iso_name(tags.last().0) {
        Some(tags.last().1)
    } else {
        last_iso(tags.drop_last())
    }
}

/// The tags that are not for the sensitivity of the film.
pub open spec fn without_iso(tags: Seq<NamedValue>) -> Seq<NamedValue>
    decreases tags.len(),
{
    if tags.len() == 0 {
        Seq::empty()
    } else if is_iso_name(tags.last().0) {
        without_iso(tags.drop_last())
    } else {
        without_iso(tags.drop_last()).push(tags.last())
    }
}

/// The tags with a sensitivity of the film, where there is one, under all of its
/// names.
pub open spec fn with_iso_value(tags: Seq<NamedValue>, value: Option<Yaml>) -> Seq<NamedValue> {
    match value {
        None => tags,
        Some(value) => without_iso(tags) + seq![
            ("ISO"@, value),
            ("ISOSpeed"@, value),
            ("ISOSpeedRatings"@, value),
        ],
    }
}

/// The tags with the sensitivity of the film, where there is one, under all of
/// its names: the last that was given counts.
pub open spec fn with_iso_aliases(tags: Seq<NamedValue>) -> Seq<NamedValue> {
    with_iso_value(tags, last_iso(tags))
}

/// The sensitivity of the film of an image: that of its frame, and the global one
/// where the frame gives none.
pub open spec fn image_iso(global: Seq<NamedValue>, frame: Seq<NamedValue>) -> Option<Yaml> {
    match last_iso(frame) {
        Some(value) => Some(value),
        None => last_iso(global),
    }
}

proof fn lemma_last_iso(tags: Seq<NamedValue>, i: int)
    requires
        0 <= i < tags.len(),
        is_iso_name(tags[i].0),
        forall|k: int| i < k < tags.len() ==> !is_iso_name((#[trigger] tags[k]).0),
    ensures
        last_iso(tags) == Some(tags[i].1),
    decreases tags.len(),
{
    if i < tags.len() - 1 {
        assert(!is_iso_name(tags[tags.len() - 1].0));
        lemma_last_iso(tags.drop_last(), i);
    }
}

proof fn lemma_no_iso(tags: Seq<NamedValue>)
    requires
        forall|k: int| 0 <= k < tags.len() ==> !is_iso_name((#[trigger] tags[k]).0),
    ensures
        last_iso(tags) is None,
    decreases tags.len(),
{
    if tags.len() > 0 {
        assert(!is_iso_name(tags[tags.len() - 1].0));
        lemma_no_iso(tags.drop_last());
    }
}

fn find_last_iso(tags: &Vec<WriteTag>) -> (r: Option<Value>)
    ensures
        value_option(r) == last_iso(write_views(tags@)),
{
    let ghost all = write_views(tags@);
    let mut n: usize = tags.len();
    while n > 0
        invariant
            n <= tags@.len(),
            all == write_views(tags@),
            forall|k: int| n <= k < tags@.len() ==> !is_iso_name((#[trigger] all[k]).0),
        decreases n,
    {
        if is_iso_alias(tags[n - 1].name.as_str()) {
            proof {
                lemma_last_iso(all, n - 1);
            }
            return Some(tags[n - 1].value.clone());
        }
        n -= 1;
    }
    proof {
        lemma_no_iso(all);
    }
    None
}

/// A value that may be missing.
pub open spec fn value_option(value: Option<Value>) -> Option<Yaml> {
    match value {
        Some(value) => Some(yaml_contents(value)),
        None => None,
    }
}

/// Gives all names of the film speed the value of the last.
pub fn normalize_iso_aliases(tags: Vec<WriteTag>) -> (r: Vec<WriteTag>)
    ensures
        write_views(r@) == with_iso_aliases(write_views(tags@)),
{
    let value = find_last_iso(&tags);
    set_iso_aliases(tags, value)
}

/// Gives all names of the film speed a value, where there is one.
pub fn set_iso_aliases(tags: Vec<WriteTag>, value: Option<Value>) -> (r: Vec<WriteTag>)
    ensures
        write_views(r@) == with_iso_value(write_views(tags@), value_option(value)),
{
    let value = match value {
        Some(value) => value,
        None => return tags,
    };
    let ghost all = write_views(tags@);
    let ghost input = tags@;
    let mut out: Vec<WriteTag> = Vec::new();
    proof {
        assert(write_views(out@) =~= Seq::empty());
    }
    for tag in it: tags
        invariant
            it.seq() == input,
            all == write_views(input),
            write_views(out@) == without_iso(all.take(it.index())),
    {
        let ghost before = write_views(out@);
        let ghost view = tag@;
        proof {
            assert(all.take(it.index() + 1).drop_last() =~= all.take(it.index()));
            assert(all.take(it.index() + 1).last() == view);
        }
        if !is_iso_alias(tag.name.as_str()) {
            out.push(tag);
            proof {
                assert(write_views(out@) =~= before.push(view));
            }
        }
    }
    out.push(WriteTag { name: "ISO".to_owned(), value: value.clone() });
    out.push(WriteTag { name: "ISOSpeed".to_owned(), value: value.clone() });
    out.push(WriteTag { name: "ISOSpeedRatings".to_owned(), value });
    proof {
        assert(all.take(all.len() as int) =~= all);
        assert(write_views(out@) =~= with_iso_value(all, Some(yaml_contents(value))));
    }
    out
}

/// What is written to an image, if anything is: the global tags with those of
/// its frame set, and the sensitivity of the film under all of its names.
pub open spec fn image_plan(
    global: Seq<NamedValue>,
    frame: Option<FramePlanView>,
    name: Seq<char>,
) -> Option<FramePlanView> {
    if global.len() == 0 && (frame is None || frame->Some_0.tags.len() == 0) {
        None
    } else {
        Some(
            FramePlanView {
                label: match frame {
                    Some(frame) => frame.label,
                    None => name,
                },
                tags: match frame {
                    Some(frame) => with_iso_value(
                        with_tags_set(global, frame.tags),
                        image_iso(global, frame.tags),
                    ),
                    None => with_iso_aliases(global),
                },
            },
        )
    }
}

impl WritePlan {
    /// What is written to an image, if anything.
    pub fn frame_for_image(&self, image: &FilePath) -> (r: Option<WriteFramePlan>)
        ensures
            match r {
                Some(plan) => image_plan(
                    write_views(self.global@),
                    frame_at(self.frames@, image.identity@),
                    name_of(*image),
                ) == Some(plan@),
                None => image_plan(
                    write_views(self.global@),
                    frame_at(self.frames@, image.identity@),
                    name_of(*image),
                ) is None,
            },
    {
        let frame = find_frame(&self.frames, image.identity.as_str());
        proof {
            assert(write_views(self.global@).len() == self.global@.len());
        }
        match frame {
            Some(frame) => {
                proof {
                    assert(write_views(frame.tags@).len() == frame.tags@.len());
                }
                if self.global.len() == 0 && frame.tags.len() == 0 {
                    return None;
                }
                let mut merged = copy_tags(&self.global);
                let ghost global = write_views(self.global@);
                let ghost more = write_views(frame.tags@);
                let mut i: usize = 0;
                while i < frame.tags.len()
                    invariant
                        i <= frame.tags@.len(),
                        more == write_views(frame.tags@),
                        write_views(merged@) == with_tags_set(global, more.take(i as int)),
                    decreases frame.tags@.len() - i,
                {
                    proof {
                        assert(more.take(i + 1).drop_last() =~= more.take(i as int));
                        assert(more.take(i + 1).last() == more[i as int]);
                    }
                    set_tag(&mut merged, &frame.tags[i]);
                    i += 1;
                }
                proof {
                    assert(more.take(more.len() as int) =~= more);
                }
                let value = match find_last_iso(&frame.tags) {
                    Some(value) => Some(value),
                    None => find_last_iso(&self.global),
                };
                let tags = set_iso_aliases(merged, value);
                Some(WriteFramePlan { label: frame.label.clone(), tags })
            },
            None => {
                if self.global.len() == 0 {
                    return None;
                }
                let tags = normalize_iso_aliases(copy_tags(&self.global));
                Some(WriteFramePlan { label: write_file_heading(image), tags })
            },
        }
    }
}

// ---------------------------------------------------------------------------
// Laws
// ---------------------------------------------------------------------------
/// The value of the first tag with a name.
pub open spec fn value_of(tags: Seq<NamedValue>, name: Seq<char>) -> Option<Yaml>
    decreases tags.len(),
{
    if tags.len() == 0 {
        None
    } else if tags[0].0 == name {
        Some(tags[0].1)
    } else {
        value_of(tags.skip(1), name)
    }
}

/// The value of the last tag with a name.
pub open spec fn last_value_of(tags: Seq<NamedValue>, name: Seq<char>) -> Option<Yaml>
    decreases tags.len(),
{
    if tags.len() == 0 {
        None
    } else if tags.last().0 == name {
        Some(tags.last().1)
    } else {
        last_value_of(tags.drop_last(), name)
    }
}

proof fn lemma_value_of_set(tags: Seq<NamedValue>, tag: NamedValue, name: Seq<char>)
    ensures
        value_of(with_tag_set(tags, tag), name) == (if name == tag.0 {
            Some(tag.1)
        } else {
            value_of(tags, name)
        }),
    decreases tags.len(),
{
    let after = with_tag_set(tags, tag);
    if tags.len() == 0 {
        assert(after.skip(1) =~= Seq::empty());
        assert(value_of(after.skip(1), name) is None);
    } else if tags[0].0 == tag.0 {
        assert(after.skip(1) =~= tags.skip(1));
    } else {
        assert(after.skip(1) =~= with_tag_set(tags.skip(1), tag));
        lemma_value_of_set(tags.skip(1), tag, name);
    }
}

proof fn lemma_set_tags_override(
    global: Seq<NamedValue>,
    frame: Seq<NamedValue>,
    name: Seq<char>,
)
    ensures
        value_of(with_tags_set(global, frame), name) == (match last_value_of(frame, name) {
            Some(value) => Some(value),
            None => value_of(global, name),
        }),
    decreases frame.len(),
{
    if frame.len() > 0 {
        lemma_set_tags_override(global, frame.drop_last(), name);
        lemma_value_of_set(with_tags_set(global, frame.drop_last()), frame.last(), name);
    }
}

proof fn lemma_value_of_append(a: Seq<NamedValue>, b: Seq<NamedValue>, name: Seq<char>)
    ensures
        value_of(a + b, name) == (match value_of(a, name) {
            Some(value) => Some(value),
            None => value_of(b, name),
        }),
    decreases a.len(),
{
    if a.len() == 0 {
        assert(a + b =~= b);
    } else {
        assert((a + b).skip(1) =~= a.skip(1) + b);
        lemma_value_of_append(a.skip(1), b, name);
    }
}

proof fn lemma_without_iso_values(tags: Seq<NamedValue>, name: Seq<char>)
    ensures
        value_of(without_iso(tags), name) == (if is_iso_name(name) {
            None
        } else {
            value_of(tags, name)
        }),
    decreases tags.len(),
{
    if tags.len() > 0 {
        let before = tags.drop_last();
        lemma_without_iso_values(before, name);
        assert(tags =~= before + seq![tags.last()]);
        lemma_value_of_append(before, seq![tags.last()], name);
        assert(seq![tags.last()].skip(1) =~= Seq::empty());
        assert(value_of(seq![tags.last()].skip(1), name) is None);
        if !is_iso_name(tags.last().0) {
            assert(without_iso(tags) =~= without_iso(before) + seq![tags.last()]);
            lemma_value_of_append(without_iso(before), seq![tags.last()], name);
        }
    }
}

proof fn lemma_iso_value(tags: Seq<NamedValue>, iso: Option<Yaml>, name: Seq<char>)
    ensures
        value_of(with_iso_value(tags, iso), name) == (if is_iso_name(name) && iso is Some {
            iso
        } else {
            value_of(tags, name)
        }),
{
    if iso is Some {
        let value = iso->Some_0;
        let added = seq![("ISO"@, value), ("ISOSpeed"@, value), ("ISOSpeedRatings"@, value)];
        lemma_without_iso_values(tags, name);
        lemma_value_of_append(without_iso(tags), added, name);
        assert(added.skip(1) =~= seq![("ISOSpeed"@, value), ("ISOSpeedRatings"@, value)]);
        assert(added.skip(1).skip(1) =~= seq![("ISOSpeedRatings"@, value)]);
        assert(added.skip(1).skip(1).skip(1) =~= Seq::empty());
        reveal_with_fuel(value_of, 4);
    }
}

proof fn lemma_no_iso_value(tags: Seq<NamedValue>, name: Seq<char>)
    requires
        last_iso(tags) is None,
        is_iso_name(name),
    ensures
        value_of(tags, name) is None,
        last_value_of(tags, name) is None,
    decreases tags.len(),
{
    if tags.len() > 0 {
        let before = tags.drop_last();
        let last = seq![tags.last()];
        lemma_no_iso_value(before, name);
        assert(tags =~= before + last);
        lemma_value_of_append(before, last, name);
        assert(last.skip(1) =~= Seq::empty());
        assert(value_of(last.skip(1), name) is None);
    }
}

/// Where the sensitivity of the film is given under any of its names, all of
/// them come to have the value that was given last; every other tag keeps its
/// value.
pub proof fn law_iso_names_share_the_last_value(tags: Seq<NamedValue>, name: Seq<char>)
    ensures
        value_of(with_iso_aliases(tags), name) == (if is_iso_name(name) {
            last_iso(tags)
        } else {
            value_of(tags, name)
        }),
{
    lemma_iso_value(tags, last_iso(tags), name);
    if is_iso_name(name) && last_iso(tags) is None {
        lemma_no_iso_value(tags, name);
    }
}

/// The tags of a frame override the global ones in what is written to its image:
/// a name has the last value that the frame gives it, and the global value where
/// the frame gives none. The names of the sensitivity of the film count as one.
pub proof fn law_frame_tags_override_global_tags(
    global: Seq<NamedValue>,
    frame: FramePlanView,
    image: Seq<char>,
    name: Seq<char>,
)
    requires
        image_plan(global, Some(frame), image) is Some,
    ensures
        value_of(image_plan(global, Some(frame), image)->Some_0.tags, name) == (if is_iso_name(
            name,
        ) {
            image_iso(global, frame.tags)
        } else {
            match last_value_of(frame.tags, name) {
                Some(value) => Some(value),
                None => value_of(global, name),
            }
        }),
{
    let iso = image_iso(global, frame.tags);
    lemma_set_tags_override(global, frame.tags, name);
    lemma_iso_value(with_tags_set(global, frame.tags), iso, name);
    if is_iso_name(name) && iso is None {
        lemma_no_iso_value(global, name);
        lemma_no_iso_value(frame.tags, name);
    }
}

/// Nothing is planned for an image exactly where there are neither global tags
/// nor tags of a frame for it.
pub proof fn law_images_without_tags_are_skipped(
    global: Seq<NamedValue>,
    frame: Option<FramePlanView>,
    name: Seq<char>,
)
    ensures
        image_plan(global, frame, name) is None <==> global.len() == 0 && (frame is None
            || frame->Some_0.tags.len() == 0),
{
}

proof fn lemma_named_entries_are_tags(entries: Seq<(Yaml, Yaml)>)
    ensures
        tags_in(entries) is Some <==> tag_names(entries) is Some,
    decreases entries.len(),
{
    if entries.len() > 0 {
        lemma_named_entries_are_tags(entries.drop_last());
    }
}

proof fn lemma_checked_items_are_tags(
    findings: Findings,
    items: Seq<Yaml>,
    table: Seq<(Seq<char>, OutcomeView)>,
)
    requires
        with_items(findings, items, table) is Ok,
    ensures
        tags_in_items(items) is Ok,
    decreases items.len(),
{
    if items.len() > 0 {
        lemma_checked_items_are_tags(findings, items.drop_last(), table);
        lemma_named_entries_are_tags(mapping_of(items.last())->Some_0);
    }
}

proof fn lemma_checked_frames_are_planned(
    entries: Seq<(Yaml, Yaml)>,
    images: Seq<FilePath>,
    existing_files: Seq<Seq<char>>,
    table: Seq<(Seq<char>, OutcomeView)>,
    files: Seq<(Seq<char>, Seq<char>)>,
    targets: Seq<FilePath>,
)
    requires
        frame_outcomes(entries, images, existing_files, table) is Ok,
    ensures
        frames_error(entries, files, targets) is None,
    decreases entries.len(),
{
    if entries.len() > 0 {
        lemma_checked_frames_are_planned(
            entries.drop_last(),
            images,
            existing_files,
            table,
            files,
            targets,
        );
        let last = entries.last();
        match last.1 {
            Yaml::Mapping(tags) => lemma_named_entries_are_tags(tags),
            Yaml::Sequence(items) => lemma_checked_items_are_tags(
                no_findings(reference_warnings(last.0)),
                items,
                table,
            ),
            _ => {},
        }
    }
}

/// A metadata file in whose structure a check finds nothing wrong can be planned,
/// whatever the targets are.
pub proof fn law_checked_files_can_be_planned(
    yaml: Yaml,
    surroundings: FrameSurroundings,
    files: Seq<(Seq<char>, Seq<char>)>,
    targets: Seq<FilePath>,
)
    requires
        structure_error(yaml, surroundings) is None,
    ensures
        plan_error(yaml, files, targets) is None,
{
    let root = mapping_of(yaml)->Some_0;
    match entry_of(root, "exif"@) {
        Some(exif) => lemma_named_entries_are_tags(mapping_of(exif)->Some_0),
        None => {},
    }
    match frame_entries(root) {
        Ok(Some(frames)) => lemma_checked_frames_are_planned(
            frames,
            surroundings.images->Ok_0@,
            texts(surroundings.existing_files@),
            lookup_views(surroundings.geonames->Ok_0@),
            files,
            targets,
        ),
        _ => {},
    }
}

} // verus!
