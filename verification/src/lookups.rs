//! What has to be looked up before a metadata file can be checked: the places
//! that its frames name, and the files that they refer to.

use crate::check::{
    frame_entries, frame_outcomes, location_name, location_name_from_yaml, outcome_of, with_items,
    with_locations, with_mapping, Findings, OutcomeView,
};
use crate::path::FilePath;
use crate::text::{same, texts};
use crate::yaml::{
    as_mapping, as_text, entries_contents, items_contents, mapping_of, text_of, yaml_contents,
    yaml_mapping_get, yaml_shape, Yaml, YamlShape,
};
use serde_yaml::Value;
use vstd::prelude::*;

verus! {

// ---------------------------------------------------------------------------
// Places
// ---------------------------------------------------------------------------
/// The place that one entry names, if it is a location.
pub open spec fn entry_place(entry: (Yaml, Yaml)) -> Option<Seq<char>> {
    if text_of(entry.0) == Some("$Location"@) {
        location_name(entry.1)
    } else {
        None
    }
}

/// The places that the entries of a mapping name, in their order.
pub open spec fn mapping_places(entries: Seq<(Yaml, Yaml)>) -> Seq<Seq<char>>
    decreases entries.len(),
{
    if entries.len() == 0 {
        Seq::empty()
    } else {
        match entry_place(entries.last()) {
            Some(name) => mapping_places(entries.drop_last()).push(name),
            None => mapping_places(entries.drop_last()),
        }
    }
}

/// The places that the items of a list name, in their order.
pub open spec fn item_places(items: Seq<Yaml>) -> Seq<Seq<char>>
    decreases items.len(),
{
    if items.len() == 0 {
        Seq::empty()
    } else {
        match mapping_of(items.last()) {
            Some(entries) => item_places(items.drop_last()) + mapping_places(entries),
            None => item_places(items.drop_last()),
        }
    }
}

/// The places that a frame names.
pub open spec fn frame_places(value: Yaml) -> Seq<Seq<char>> {
    match value {
        Yaml::Mapping(entries) => mapping_places(entries),
        Yaml::Sequence(items) => item_places(items),
        _ => Seq::empty(),
    }
}

/// The places that the frames name, in their order.
pub open spec fn all_places(frames: Seq<(Yaml, Yaml)>) -> Seq<Seq<char>>
    decreases frames.len(),
{
    if frames.len() == 0 {
        Seq::empty()
    } else {
        all_places(frames.drop_last()) + frame_places(frames.last().1)
    }
}

/// The frames of a document, none where it has no proper ones.
pub open spec fn document_frames(yaml: Yaml) -> Seq<(Yaml, Yaml)> {
    match mapping_of(yaml) {
        Some(root) => match frame_entries(root) {
            Ok(Some(frames)) => frames,
            _ => Seq::empty(),
        },
        None => Seq::empty(),
    }
}

fn push_mapping_places(entries: &Vec<(Value, Value)>, names: &mut Vec<String>)
    ensures
        texts(final(names)@) == texts(old(names)@) + mapping_places(entries_contents(entries@)),
{
    let ghost before = texts(names@);
    let ghost all = entries_contents(entries@);
    let mut i: usize = 0;
    proof {
        assert(before + mapping_places(all.take(0)) =~= before);
    }
    while i < entries.len()
        invariant
            i <= entries@.len(),
            all == entries_contents(entries@),
            texts(names@) == before + mapping_places(all.take(i as int)),
        decreases entries@.len() - i,
    {
        proof {
            assert(all.take(i + 1).drop_last() =~= all.take(i as int));
            assert(all.take(i + 1).last() == all[i as int]);
        }
        let ghost names_before = texts(names@);
        let is_location = match as_text(&entries[i].0) {
            Some(key) => same(key.as_str(), "$Location"),
            None => false,
        };
        if is_location {
            let mut warnings: Vec<String> = Vec::new();
            match location_name_from_yaml(&entries[i].1, &mut warnings) {
                Some(name) => {
                    names.push(name);
                    proof {
                        assert(texts(names@) =~= names_before.push(name@));
                        assert(texts(names@) =~= before + mapping_places(all.take(i + 1)));
                    }
                },
                None => {},
            }
        }
        i += 1;
    }
    proof {
        assert(all.take(all.len() as int) =~= all);
    }
}

fn push_frame_places(value: &Value, names: &mut Vec<String>)
    ensures
        texts(final(names)@) == texts(old(names)@) + frame_places(yaml_contents(*value)),
{
    let ghost before = texts(names@);
    match yaml_shape(value) {
        YamlShape::Mapping(entries) => push_mapping_places(&entries, names),
        YamlShape::Sequence(items) => {
            let ghost all = items_contents(items@);
            let mut i: usize = 0;
            proof {
                assert(before + item_places(all.take(0)) =~= before);
            }
            while i < items.len()
                invariant
                    i <= items@.len(),
                    all == items_contents(items@),
                    texts(names@) == before + item_places(all.take(i as int)),
                decreases items@.len() - i,
            {
                proof {
                    assert(all.take(i + 1).drop_last() =~= all.take(i as int));
                    assert(all.take(i + 1).last() == all[i as int]);
                }
                if let Some(entries) = as_mapping(&items[i]) {
                    push_mapping_places(&entries, names);
                    proof {
                        assert(texts(names@) =~= before + item_places(all.take(i + 1)));
                    }
                }
                i += 1;
            }
            proof {
                assert(all.take(all.len() as int) =~= all);
            }
        },
        _ => {
            proof {
                assert(before + Seq::<Seq<char>>::empty() =~= before);
            }
        },
    }
}

/// The frames of a document, none where it has no proper ones.
fn frames_of(yaml: &Value) -> (r: Vec<(Value, Value)>)
    ensures
        entries_contents(r@) == document_frames(yaml_contents(*yaml)),
{
    let none: Vec<(Value, Value)> = Vec::new();
    proof {
        assert(entries_contents(none@) =~= Seq::empty());
    }
    match as_mapping(yaml) {
        Some(root) => match yaml_mapping_get(&root, "frames") {
            Some(frames) => match yaml_shape(&frames) {
                YamlShape::Mapping(entries) => entries,
                _ => none,
            },
            None => none,
        },
        None => none,
    }
}

/// The names of all the places that the frames of a document name.
pub fn frame_location_names(yaml: &Value) -> (r: Vec<String>)
    ensures
        texts(r@) == all_places(document_frames(yaml_contents(*yaml))),
{
    let frames = frames_of(yaml);
    let ghost all = entries_contents(frames@);
    let mut names: Vec<String> = Vec::new();
    let mut i: usize = 0;
    proof {
        assert(texts(names@) =~= Seq::empty());
    }
    while i < frames.len()
        invariant
            i <= frames@.len(),
            all == entries_contents(frames@),
            texts(names@) == all_places(all.take(i as int)),
        decreases frames@.len() - i,
    {
        proof {
            assert(all.take(i + 1).drop_last() =~= all.take(i as int));
            assert(all.take(i + 1).last() == all[i as int]);
        }
        push_frame_places(&frames[i].1, &mut names);
        i += 1;
    }
    proof {
        assert(all.take(all.len() as int) =~= all);
    }
    names
}

// ---------------------------------------------------------------------------
// Files
// ---------------------------------------------------------------------------
/// The files that the frames refer to by name, in their order.
pub open spec fn all_files(frames: Seq<(Yaml, Yaml)>) -> Seq<Seq<char>>
    decreases frames.len(),
{
    if frames.len() == 0 {
        Seq::empty()
    } else {
        match frames.last().0 {
            Yaml::Text(name) => all_files(frames.drop_last()).push(name),
            _ => all_files(frames.drop_last()),
        }
    }
}

/// The names of all the files that the frames of a document refer to.
pub fn frame_file_names(yaml: &Value) -> (r: Vec<String>)
    ensures
        texts(r@) == all_files(document_frames(yaml_contents(*yaml))),
{
    let frames = frames_of(yaml);
    let ghost all = entries_contents(frames@);
    let mut names: Vec<String> = Vec::new();
    let mut i: usize = 0;
    proof {
        assert(texts(names@) =~= Seq::empty());
    }
    while i < frames.len()
        invariant
            i <= frames@.len(),
            all == entries_contents(frames@),
            texts(names@) == all_files(all.take(i as int)),
        decreases frames@.len() - i,
    {
        let ghost before = texts(names@);
        proof {
            assert(all.take(i + 1).drop_last() =~= all.take(i as int));
            assert(all.take(i + 1).last() == all[i as int]);
        }
        if let YamlShape::Text(name) = yaml_shape(&frames[i].0) {
            names.push(name);
            proof {
                assert(texts(names@) =~= before.push(name@));
            }
        }
        i += 1;
    }
    proof {
        assert(all.take(all.len() as int) =~= all);
    }
    names
}

// ---------------------------------------------------------------------------
// Laws
// ---------------------------------------------------------------------------
/// Whether two tables say the same of each of some names.
pub open spec fn agree_on(
    names: Seq<Seq<char>>,
    a: Seq<(Seq<char>, OutcomeView)>,
    b: Seq<(Seq<char>, OutcomeView)>,
) -> bool {
    forall|i: int|
        0 <= i < names.len() ==> outcome_of(a, #[trigger] names[i]) == outcome_of(b, names[i])
}

proof fn lemma_agree_on_parts(
    first: Seq<Seq<char>>,
    second: Seq<Seq<char>>,
    a: Seq<(Seq<char>, OutcomeView)>,
    b: Seq<(Seq<char>, OutcomeView)>,
)
    requires
        agree_on(first + second, a, b),
    ensures
        agree_on(first, a, b),
        agree_on(second, a, b),
{
    assert forall|i: int| 0 <= i < first.len() implies outcome_of(a, #[trigger] first[i])
        == outcome_of(b, first[i]) by {
        assert((first + second)[i] == first[i]);
    }
    assert forall|i: int| 0 <= i < second.len() implies outcome_of(a, #[trigger] second[i])
        == outcome_of(b, second[i]) by {
        assert((first + second)[first.len() + i] == second[i]);
    }
}

proof fn lemma_locations_agree(
    findings: Findings,
    entries: Seq<(Yaml, Yaml)>,
    a: Seq<(Seq<char>, OutcomeView)>,
    b: Seq<(Seq<char>, OutcomeView)>,
)
    requires
        agree_on(mapping_places(entries), a, b),
    ensures
        with_locations(findings, entries, a) == with_locations(findings, entries, b),
    decreases entries.len(),
{
    if entries.len() > 0 {
        let before = mapping_places(entries.drop_last());
        match entry_place(entries.last()) {
            Some(name) => {
                assert(before.push(name) =~= before + seq![name]);
                lemma_agree_on_parts(before, seq![name], a, b);
                assert(seq![name][0] == name);
            },
            None => {},
        }
        lemma_locations_agree(findings, entries.drop_last(), a, b);
    }
}

proof fn lemma_items_agree(
    findings: Findings,
    items: Seq<Yaml>,
    a: Seq<(Seq<char>, OutcomeView)>,
    b: Seq<(Seq<char>, OutcomeView)>,
)
    requires
        agree_on(item_places(items), a, b),
    ensures
        with_items(findings, items, a) == with_items(findings, items, b),
    decreases items.len(),
{
    if items.len() > 0 {
        match mapping_of(items.last()) {
            Some(entries) => {
                lemma_agree_on_parts(
                    item_places(items.drop_last()),
                    mapping_places(entries),
                    a,
                    b,
                );
                lemma_items_agree(findings, items.drop_last(), a, b);
                match with_items(findings, items.drop_last(), a) {
                    Ok(before) => lemma_mapping_agrees(before, entries, a, b),
                    Err(_) => {},
                }
            },
            None => lemma_items_agree(findings, items.drop_last(), a, b),
        }
    }
}

proof fn lemma_mapping_agrees(
    findings: Findings,
    entries: Seq<(Yaml, Yaml)>,
    a: Seq<(Seq<char>, OutcomeView)>,
    b: Seq<(Seq<char>, OutcomeView)>,
)
    requires
        agree_on(mapping_places(entries), a, b),
    ensures
        with_mapping(findings, entries, a) == with_mapping(findings, entries, b),
{
    match crate::tags::tag_names(entries) {
        Some(names) => lemma_locations_agree(
            Findings { tags: findings.tags.merged(crate::tags::counts_of(names)), ..findings },
            entries,
            a,
            b,
        ),
        None => {},
    }
}

/// What a check says of the frames depends on nothing that was looked up but the
/// places that they name and the files that they refer to.
pub proof fn law_named_lookups_decide_the_check(
    frames: Seq<(Yaml, Yaml)>,
    images: Seq<FilePath>,
    files: Seq<Seq<char>>,
    other_files: Seq<Seq<char>>,
    table: Seq<(Seq<char>, OutcomeView)>,
    other_table: Seq<(Seq<char>, OutcomeView)>,
)
    requires
        agree_on(all_places(frames), table, other_table),
        forall|i: int|
            0 <= i < all_files(frames).len() ==> files.contains(#[trigger] all_files(frames)[i])
                == other_files.contains(all_files(frames)[i]),
    ensures
        frame_outcomes(frames, images, files, table) == frame_outcomes(
            frames,
            images,
            other_files,
            other_table,
        ),
    decreases frames.len(),
{
    if frames.len() > 0 {
        let before = frames.drop_last();
        let last = frames.last();
        lemma_agree_on_parts(all_places(before), frame_places(last.1), table, other_table);
        let findings = crate::check::no_findings(crate::check::reference_warnings(last.0));
        match last.1 {
            Yaml::Mapping(entries) => lemma_mapping_agrees(findings, entries, table, other_table),
            Yaml::Sequence(items) => lemma_items_agree(findings, items, table, other_table),
            _ => {},
        }
        assert forall|i: int| 0 <= i < all_files(before).len() implies files.contains(
            #[trigger] all_files(before)[i],
        ) == other_files.contains(all_files(before)[i]) by {
            assert(all_files(frames)[i] == all_files(before)[i]);
        }
        match last.0 {
            Yaml::Text(name) => {
                assert(all_files(frames)[all_files(before).len() as int] == name);
            },
            _ => {},
        }
        law_named_lookups_decide_the_check(
            before,
            images,
            files,
            other_files,
            table,
            other_table,
        );
    }
}

} // verus!
