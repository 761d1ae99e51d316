//! What holds of every strip.

use crate::exif_data::{FieldView, TagContext};
use crate::strip::{
    group_of, is_private, is_structural, is_structural_number, is_targeted, selects, strip_plan,
    with_fields, with_target, StripMode, StripPlan, StripRemovalDecision, TargetView,
};
use crate::writable::TagGroup;
use vstd::prelude::*;

verus! {

/// A tag that is named to be removed goes, whatever else the mode keeps.
pub proof fn law_named_tags_go(mode: StripMode, field: FieldView, is_tiff: bool)
    requires
        mode.names_field(field),
    ensures
        mode.removes(field, is_tiff),
{
}

/// A tag that is named to be kept stays, unless it is named to be removed too.
pub proof fn law_kept_tags_stay(mode: StripMode, field: FieldView, is_tiff: bool)
    requires
        mode.base is Keep,
        selects(mode.base->Keep_0.selected(), field),
        !mode.names_field(field),
    ensures
        !mode.removes(field, is_tiff),
{
}

/// A strip for privacy leaves every tag alone that tells nothing private and is
/// not named.
pub proof fn law_privacy_keeps_technical_tags(mode: StripMode, field: FieldView, is_tiff: bool)
    requires
        mode.base is Privacy,
        !is_private(field),
        !mode.names_field(field),
    ensures
        !mode.removes(field, is_tiff),
{
}

/// A strip for privacy removes every tag that tells a position.
pub proof fn law_privacy_removes_positions(mode: StripMode, field: FieldView, is_tiff: bool)
    requires
        mode.base is Privacy,
        field.context == TagContext::Gps,
    ensures
        mode.removes(field, is_tiff),
{
}

/// A mode that keeps tags removes every other one, but for what a TIFF image
/// needs.
pub proof fn law_keep_removes_the_rest(mode: StripMode, field: FieldView, is_tiff: bool)
    requires
        mode.base is Keep,
        !selects(mode.base->Keep_0.selected(), field),
        !(is_tiff && is_structural(field)),
    ensures
        mode.removes(field, is_tiff),
{
}

/// A mode that only names tags removes those and no other.
pub proof fn law_remove_only_removes_named(mode: StripMode, field: FieldView, is_tiff: bool)
    requires
        mode.base is Nothing,
    ensures
        mode.removes(field, is_tiff) <==> mode.names_field(field),
{
}

/// What a TIFF image needs stays unless it is named.
pub proof fn law_structure_of_tiff_stays(mode: StripMode, field: FieldView)
    requires
        is_structural(field),
        !mode.names_field(field),
    ensures
        !mode.removes(field, true),
{
}

/// A full strip removes every tag of an image that is no TIFF image.
pub proof fn law_full_strip_removes_all(mode: StripMode, field: FieldView)
    requires
        mode.is_full(),
    ensures
        mode.removes(field, false),
{
}

/// Whether a field is one that a plan targets.
pub open spec fn is_planned(mode: StripMode, field: FieldView, is_tiff: bool) -> bool {
    &&& mode.decision(field) != StripRemovalDecision::Keep
    &&& !(is_tiff && is_structural(field))
    &&& group_of(field.context) is Some
}

proof fn lemma_with_target(
    targets: Seq<TargetView>,
    target: TargetView,
    group: TagGroup,
    tag_id: u16,
)
    ensures
        is_targeted(with_target(targets, target), group, tag_id) <==> is_targeted(
            targets,
            group,
            tag_id,
        ) || (target.group == group && target.tag_id == tag_id),
{
    let after = with_target(targets, target);
    if is_targeted(targets, group, tag_id) {
        let i = choose|i: int|
            0 <= i < targets.len() && (#[trigger] targets[i]).group == group && targets[i].tag_id
                == tag_id;
        assert(after[i] == targets[i]);
    }
    if target.group == group && target.tag_id == tag_id {
        if !is_targeted(targets, group, tag_id) {
            assert(after[targets.len() as int] == target);
        }
    }
    if is_targeted(after, group, tag_id) && !is_targeted(targets, group, tag_id) {
        let i = choose|i: int|
            0 <= i < after.len() && (#[trigger] after[i]).group == group && after[i].tag_id
                == tag_id;
        if i < targets.len() {
            assert(targets[i] == after[i]);
        }
    }
}

/// Whether some field is planned for a slot.
pub open spec fn has_planned(
    mode: StripMode,
    fields: Seq<FieldView>,
    is_tiff: bool,
    group: TagGroup,
    tag_id: u16,
) -> bool {
    exists|i: int|
        0 <= i < fields.len() && is_planned(mode, #[trigger] fields[i], is_tiff) && group_of(
            fields[i].context,
        ) == Some(group) && fields[i].number == tag_id
}

proof fn lemma_fields_targeted(
    plan: StripPlan,
    mode: StripMode,
    fields: Seq<FieldView>,
    is_tiff: bool,
    group: TagGroup,
    tag_id: u16,
)
    ensures
        is_targeted(with_fields(plan, mode, fields, is_tiff).targets, group, tag_id)
            <==> is_targeted(plan.targets, group, tag_id) || has_planned(
            mode,
            fields,
            is_tiff,
            group,
            tag_id,
        ),
    decreases fields.len(),
{
    if fields.len() > 0 {
        let before = fields.drop_last();
        let last = fields.last();
        lemma_fields_targeted(plan, mode, before, is_tiff, group, tag_id);
        let prior = with_fields(plan, mode, before, is_tiff);
        if is_planned(mode, last, is_tiff) {
            let target = TargetView {
                group: group_of(last.context)->Some_0,
                tag_id: last.number,
                name: last.name,
            };
            lemma_with_target(prior.targets, target, group, tag_id);
        }
        if has_planned(mode, before, is_tiff, group, tag_id) {
            let i = choose|i: int|
                0 <= i < before.len() && is_planned(mode, #[trigger] before[i], is_tiff)
                    && group_of(before[i].context) == Some(group) && before[i].number == tag_id;
            assert(fields[i] == before[i]);
        }
        if has_planned(mode, fields, is_tiff, group, tag_id) {
            let i = choose|i: int|
                0 <= i < fields.len() && is_planned(mode, #[trigger] fields[i], is_tiff)
                    && group_of(fields[i].context) == Some(group) && fields[i].number == tag_id;
            if i < before.len() {
                assert(before[i] == fields[i]);
            } else {
                assert(fields[i] == last);
            }
        }
        if is_planned(mode, last, is_tiff) && group_of(last.context) == Some(group) && last.number
            == tag_id {
            assert(fields[fields.len() - 1] == last);
        }
    }
}

/// A selective strip targets exactly the slots of the fields that its mode
/// removes, as far as they can be written.
pub proof fn law_targets_are_the_removed_fields(
    mode: StripMode,
    fields: Seq<FieldView>,
    is_tiff: bool,
    group: TagGroup,
    tag_id: u16,
)
    requires
        !(is_tiff && mode.is_full()),
    ensures
        is_targeted(strip_plan(mode, fields, is_tiff).targets, group, tag_id) <==> has_planned(
            mode,
            fields,
            is_tiff,
            group,
            tag_id,
        ),
{
    let none = StripPlan { targets: Seq::empty(), warnings: Seq::empty(), errors: Seq::empty() };
    lemma_fields_targeted(none, mode, fields, is_tiff, group, tag_id);
}

/// No plan for a TIFF image targets a tag that the image needs.
pub proof fn law_structure_is_never_targeted(
    mode: StripMode,
    fields: Seq<FieldView>,
    tag_id: u16,
)
    requires
        is_structural_number(tag_id),
    ensures
        !is_targeted(strip_plan(mode, fields, true).targets, TagGroup::Generic, tag_id),
{
    let none = StripPlan { targets: Seq::empty(), warnings: Seq::empty(), errors: Seq::empty() };
    lemma_fields_targeted(none, mode, fields, true, TagGroup::Generic, tag_id);
    let plan = with_fields(none, mode, fields, true);
    if has_planned(mode, fields, true, TagGroup::Generic, tag_id) {
        let i = choose|i: int|
            0 <= i < fields.len() && is_planned(mode, #[trigger] fields[i], true) && group_of(
                fields[i].context,
            ) == Some(TagGroup::Generic) && fields[i].number == tag_id;
        assert(fields[i].context == TagContext::Tiff);
        assert(is_structural(fields[i]));
    }
    let exif = TargetView { group: TagGroup::Generic, tag_id: 0x8769, name: "ExifIFDPointer"@ };
    let gps = TargetView { group: TagGroup::Generic, tag_id: 0x8825, name: "GPSInfoIFDPointer"@ };
    let interop = TargetView { group: TagGroup::Exif, tag_id: 0xa005, name: "InteropIFDPointer"@ };
    let one = with_target(plan.targets, exif);
    let two = with_target(one, gps);
    lemma_with_target(plan.targets, exif, TagGroup::Generic, tag_id);
    lemma_with_target(one, gps, TagGroup::Generic, tag_id);
    lemma_with_target(two, interop, TagGroup::Generic, tag_id);
}

/// Whether no slot is targeted twice.
pub open spec fn are_distinct_targets(targets: Seq<TargetView>) -> bool {
    forall|i: int, j: int|
        0 <= i < j < targets.len() ==> (#[trigger] targets[i]).group != (
        #[trigger] targets[j]).group || targets[i].tag_id != targets[j].tag_id
}

proof fn lemma_with_target_distinct(targets: Seq<TargetView>, target: TargetView)
    requires
        are_distinct_targets(targets),
    ensures
        are_distinct_targets(with_target(targets, target)),
{
    let after = with_target(targets, target);
    if !is_targeted(targets, target.group, target.tag_id) {
        assert forall|i: int, j: int| 0 <= i < j < after.len() implies (
        #[trigger] after[i]).group != (#[trigger] after[j]).group || after[i].tag_id
            != after[j].tag_id by {
            assert(after[i] == targets[i]);
            if j < targets.len() {
                assert(after[j] == targets[j]);
            }
        }
    }
}

proof fn lemma_fields_distinct(
    plan: StripPlan,
    mode: StripMode,
    fields: Seq<FieldView>,
    is_tiff: bool,
)
    requires
        are_distinct_targets(plan.targets),
    ensures
        are_distinct_targets(with_fields(plan, mode, fields, is_tiff).targets),
    decreases fields.len(),
{
    if fields.len() > 0 {
        lemma_fields_distinct(plan, mode, fields.drop_last(), is_tiff);
        let last = fields.last();
        if group_of(last.context) is Some {
            lemma_with_target_distinct(
                with_fields(plan, mode, fields.drop_last(), is_tiff).targets,
                TargetView {
                    group: group_of(last.context)->Some_0,
                    tag_id: last.number,
                    name: last.name,
                },
            );
        }
    }
}

/// Every plan targets each slot at most once, however many fields are filed
/// there.
pub proof fn law_targets_are_distinct(mode: StripMode, fields: Seq<FieldView>, is_tiff: bool)
    ensures
        are_distinct_targets(strip_plan(mode, fields, is_tiff).targets),
{
    let none = StripPlan { targets: Seq::empty(), warnings: Seq::empty(), errors: Seq::empty() };
    lemma_fields_distinct(none, mode, fields, is_tiff);
    let plan = with_fields(none, mode, fields, is_tiff);
    let exif = TargetView { group: TagGroup::Generic, tag_id: 0x8769, name: "ExifIFDPointer"@ };
    let gps = TargetView { group: TagGroup::Generic, tag_id: 0x8825, name: "GPSInfoIFDPointer"@ };
    let interop = TargetView { group: TagGroup::Exif, tag_id: 0xa005, name: "InteropIFDPointer"@ };
    let one = with_target(plan.targets, exif);
    let two = with_target(one, gps);
    lemma_with_target_distinct(plan.targets, exif);
    lemma_with_target_distinct(one, gps);
    lemma_with_target_distinct(two, interop);
}

/// Whether some field of a TIFF image is needed and named to be removed.
pub open spec fn names_structure(mode: StripMode, fields: Seq<FieldView>) -> bool {
    exists|i: int|
        0 <= i < fields.len() && is_structural(#[trigger] fields[i]) && mode.names_field(fields[i])
}

proof fn lemma_fields_errors(plan: StripPlan, mode: StripMode, fields: Seq<FieldView>)
    ensures
        with_fields(plan, mode, fields, true).errors.len() > 0 <==> plan.errors.len() > 0
            || names_structure(mode, fields),
    decreases fields.len(),
{
    if fields.len() > 0 {
        let before = fields.drop_last();
        lemma_fields_errors(plan, mode, before);
        if names_structure(mode, before) {
            let i = choose|i: int|
                0 <= i < before.len() && is_structural(#[trigger] before[i]) && mode.names_field(
                    before[i],
                );
            assert(fields[i] == before[i]);
        }
        if names_structure(mode, fields) {
            let i = choose|i: int|
                0 <= i < fields.len() && is_structural(#[trigger] fields[i]) && mode.names_field(
                    fields[i],
                );
            if i < before.len() {
                assert(before[i] == fields[i]);
            }
        }
        if is_structural(fields.last()) && mode.names_field(fields.last()) {
            assert(fields[fields.len() - 1] == fields.last());
        }
    }
}

/// A plan for a TIFF image has errors exactly where a tag that the image needs
/// is named to be removed.
pub proof fn law_named_structure_is_an_error(mode: StripMode, fields: Seq<FieldView>)
    ensures
        strip_plan(mode, fields, true).errors.len() > 0 <==> names_structure(mode, fields),
{
    let none = StripPlan { targets: Seq::empty(), warnings: Seq::empty(), errors: Seq::empty() };
    lemma_fields_errors(none, mode, fields);
}

} // verus!
