//! What holds of the tags that a strip is told to keep or to remove.

use crate::exif_data::{FieldView, TagContext};
use crate::strip::{
    field_names, is_mode_of, names_in, normal_name, options_error, selected_names, selects,
    tag_aliases, StripMode,
};
use crate::text::{hex4, split_on, trim};
use crate::text_laws::law_split_parts_concatenate;
use vstd::prelude::*;

verus! {

// ---------------------------------------------------------------------------
// TIFF images
// ---------------------------------------------------------------------------
/// The tags that say how a TIFF image is laid out and shown stay in it whatever the
/// mode, unless tags are named to be removed.
pub proof fn law_layout_of_tiff_stays(mode: StripMode, field: FieldView)
    requires
        mode.remove is None,
        field.context == TagContext::Tiff,
        field.number == 0x0100 || field.number == 0x0101 || field.number == 0x0102 || field.number == 0x0103 || field.number == 0x0106 || field.number == 0x0111 || field.number == 0x0112 || field.number == 0x0115 || field.number == 0x0116 || field.number == 0x0117 || field.number == 0x011a || field.number == 0x011b || field.number == 0x011c || field.number == 0x0128 || field.number == 0x013d || field.number == 0x0140 || field.number == 0x0142 || field.number == 0x0143 || field.number == 0x0144 || field.number == 0x0145 || field.number == 0x0152 || field.number == 0x0153 || field.number == 0x8773 || field.name == "ImageWidth"@ || field.name == "ImageLength"@ || field.name == "ImageHeight"@ || field.name == "BitsPerSample"@ || field.name == "Compression"@ || field.name == "PhotometricInterpretation"@ || field.name == "StripOffsets"@ || field.name == "Orientation"@ || field.name == "SamplesPerPixel"@ || field.name == "RowsPerStrip"@ || field.name == "StripByteCounts"@ || field.name == "XResolution"@ || field.name == "YResolution"@ || field.name == "PlanarConfiguration"@ || field.name == "ResolutionUnit"@ || field.name == "ColorMap"@,
    ensures
        !mode.removes(field, true),
{
}

/// A full strip removes everything else from a TIFF image.
pub proof fn law_rest_of_tiff_goes(mode: StripMode, field: FieldView)
    requires
        mode.base is All,
        field.context != TagContext::Tiff || !(field.number == 0x0100 || field.number == 0x0101 || field.number == 0x0102 || field.number == 0x0103 || field.number == 0x0106 || field.number == 0x0111 || field.number == 0x0112 || field.number == 0x0115 || field.number == 0x0116 || field.number == 0x0117 || field.number == 0x011a || field.number == 0x011b || field.number == 0x011c || field.number == 0x0128 || field.number == 0x013d || field.number == 0x0140 || field.number == 0x0142 || field.number == 0x0143 || field.number == 0x0144 || field.number == 0x0145 || field.number == 0x0152 || field.number == 0x0153 || field.number == 0x8773 || field.name == "ImageWidth"@ || field.name == "ImageLength"@ || field.name == "ImageHeight"@ || field.name == "BitsPerSample"@ || field.name == "Compression"@ || field.name == "PhotometricInterpretation"@ || field.name == "StripOffsets"@ || field.name == "Orientation"@ || field.name == "SamplesPerPixel"@ || field.name == "RowsPerStrip"@ || field.name == "StripByteCounts"@ || field.name == "XResolution"@ || field.name == "YResolution"@ || field.name == "PlanarConfiguration"@ || field.name == "ResolutionUnit"@ || field.name == "ColorMap"@),
    ensures
        mode.removes(field, true),
{
}

/// An image that is no TIFF image loses every tag in a full strip, those on the
/// layout too.
pub proof fn law_other_images_lose_everything(mode: StripMode, field: FieldView)
    requires
        mode.base is All,
    ensures
        mode.removes(field, false),
{
}

// ---------------------------------------------------------------------------
// Names
// ---------------------------------------------------------------------------
/// Whether a name, without case and separators, is one of those that stand for
/// several tags or for another tag.
pub open spec fn stands_for_others(name: Seq<char>) -> bool {
    let normal = normal_name(name);
    ||| normal == "photographer"@
    ||| normal == "iso"@
    ||| normal == "isospeed"@
    ||| normal == "isospeedratings"@
    ||| normal == "photographicsensitivity"@
    ||| normal == "createdate"@
    ||| normal == "datetimedigitized"@
    ||| normal == "modifydate"@
    ||| normal == "datetime"@
    ||| normal == "predictor"@
    ||| normal == "icc"@
    ||| normal == "iccprofile"@
    ||| normal == "intercolorprofile"@
}

proof fn lemma_special_names_differ()
    ensures
        "photographer"@.len() == 12,
        "iso"@.len() == 3 && "iso"@[1] == 's',
        "isospeed"@.len() == 8 && "isospeed"@[0] == 'i',
        "isospeedratings"@.len() == 15,
        "photographicsensitivity"@.len() == 23,
        "createdate"@.len() == 10 && "createdate"@[0] == 'c',
        "datetimedigitized"@.len() == 17 && "datetimedigitized"@[0] == 'd',
        "modifydate"@.len() == 10 && "modifydate"@[0] == 'm',
        "datetime"@.len() == 8 && "datetime"@[0] == 'd',
        "predictor"@.len() == 9,
        "icc"@.len() == 3 && "icc"@[1] == 'c',
        "iccprofile"@.len() == 10 && "iccprofile"@[0] == 'i',
        "intercolorprofile"@.len() == 17 && "intercolorprofile"@[0] == 'i',
        "artist"@.len() == 6,
{
    reveal_strlit("photographer");
    reveal_strlit("iso");
    reveal_strlit("isospeed");
    reveal_strlit("isospeedratings");
    reveal_strlit("photographicsensitivity");
    reveal_strlit("createdate");
    reveal_strlit("datetimedigitized");
    reveal_strlit("modifydate");
    reveal_strlit("datetime");
    reveal_strlit("predictor");
    reveal_strlit("icc");
    reveal_strlit("iccprofile");
    reveal_strlit("intercolorprofile");
    reveal_strlit("artist");
}

/// A name selects the field of that name, whatever its case and separators.
pub proof fn law_names_select_their_fields(name: Seq<char>, field: FieldView)
    requires
        normal_name(name) == normal_name(field.name),
        normal_name(name) != "photographer"@,
        normal_name(name) != "icc"@,
        normal_name(name) != "intercolorprofile"@,
    ensures
        selects(tag_aliases(name), field),
{
    lemma_special_names_differ();
    let names = tag_aliases(name);
    let own = normal_name(field.name);
    assert(field_names(field)[0] == own);
    if own == "iso"@ || own == "createdate"@ || own == "modifydate"@ || own == "predictor"@ || own
        == "iccprofile"@ {
        assert(names[0] == own);
    } else if own == "isospeed"@ || own == "datetimedigitized"@ || own == "datetime"@ {
        assert(names[1] == own);
    } else if own == "isospeedratings"@ {
        assert(names[2] == own);
    } else if own == "photographicsensitivity"@ {
        assert(names[3] == own);
    } else {
        assert(names[0] == own);
    }
    assert(names.contains(own));
}

/// The photographer selects the artist.
pub proof fn law_photographers_are_artists(name: Seq<char>, field: FieldView)
    requires
        normal_name(name) == "photographer"@,
    ensures
        normal_name(field.name) == "artist"@ ==> selects(tag_aliases(name), field),
{
    assert(tag_aliases(name)[0] == "artist"@);
    assert(tag_aliases(name).contains("artist"@));
    assert(field_names(field)[0] == normal_name(field.name));
}

/// The speed of the film is selected by each of the names that it is known under,
/// whatever its field is called.
pub proof fn law_film_speed_goes_by_all_its_names(name: Seq<char>, field: FieldView)
    requires
        field.context == TagContext::Exif,
        field.number == 0x8827,
        normal_name(name) == "iso"@ || normal_name(name) == "isospeed"@ || normal_name(name)
            == "isospeedratings"@ || normal_name(name) == "photographicsensitivity"@,
    ensures
        selects(tag_aliases(name), field),
{
    lemma_special_names_differ();
    lemma_iso_is_special();
    let names = tag_aliases(name);
    assert(names[0] == "iso"@);
    assert(names.contains("iso"@));
    assert(tag_aliases("ISO"@)[0] == "iso"@);
    assert(field_names(field)[2] == "iso"@);
}

proof fn lemma_iso_is_special()
    ensures
        normal_name("ISO"@) == "iso"@,
{
    reveal_strlit("ISO");
    reveal_strlit("iso");
    reveal_with_fuel(normal_name, 4);
    assert(normal_name("ISO"@) =~= "iso"@);
}

/// The names of one tag select the same fields.
pub proof fn law_names_of_one_tag_select_the_same(one: Seq<char>, other: Seq<char>)
    requires
        normal_name(one) == normal_name(other) || {
            let a = normal_name(one);
            let b = normal_name(other);
            ||| (a == "iso"@ || a == "isospeed"@ || a == "isospeedratings"@ || a
                == "photographicsensitivity"@) && (b == "iso"@ || b == "isospeed"@ || b
                == "isospeedratings"@ || b == "photographicsensitivity"@)
            ||| (a == "createdate"@ || a == "datetimedigitized"@) && (b == "createdate"@ || b
                == "datetimedigitized"@)
            ||| (a == "modifydate"@ || a == "datetime"@) && (b == "modifydate"@ || b
                == "datetime"@)
            ||| (a == "icc"@ || a == "iccprofile"@ || a == "intercolorprofile"@) && (b == "icc"@
                || b == "iccprofile"@ || b == "intercolorprofile"@)
        },
    ensures
        tag_aliases(one) == tag_aliases(other),
{
    lemma_special_names_differ();
}

/// A name that stands for no other tag selects no field but those of that name or of
/// that number. The speed of the film is the one field with names of its own.
pub proof fn law_names_select_nothing_else(name: Seq<char>, field: FieldView)
    requires
        !stands_for_others(name),
        normal_name(name) != normal_name(field.name),
        normal_name(name) != normal_name("0x"@ + hex4(field.number)),
    ensures
        !selects(tag_aliases(name), field),
{
    lemma_special_names_differ();
    lemma_iso_is_special();
    let names = tag_aliases(name);
    assert(names =~= seq![normal_name(name)]);
    assert forall|i: int| 0 <= i < field_names(field).len() implies !names.contains(
        #[trigger] field_names(field)[i],
    ) by {
        let found = field_names(field)[i];
        if names.contains(found) {
            let k = choose|k: int| 0 <= k < names.len() && names[k] == found;
            assert(found == normal_name(name));
            if i >= 2 {
                assert(found == tag_aliases("ISO"@)[i - 2]);
                assert(i == 2 || i == 3 || i == 4 || i == 5);
            }
        }
    }
}

proof fn lemma_number_name(field: FieldView)
    ensures
        normal_name("0x"@ + hex4(field.number)).len() > 0,
        normal_name("0x"@ + hex4(field.number))[0] == '0',
{
    reveal_strlit("0x");
    let name = "0x"@ + hex4(field.number);
    lemma_first_char(name);
}

proof fn lemma_first_char(name: Seq<char>)
    requires
        name.len() > 0,
        name[0] == '0',
    ensures
        normal_name(name).len() > 0,
        normal_name(name)[0] == '0',
    decreases name.len(),
{
    if name.len() > 1 {
        lemma_first_char(name.drop_last());
    } else {
        reveal_with_fuel(normal_name, 2);
        assert(name.drop_last() =~= Seq::empty());
        assert(name.last() == '0');
    }
}

/// A field is selected by its number, written with four hexadecimal digits.
pub proof fn law_numbers_select_their_fields(name: Seq<char>, field: FieldView)
    requires
        normal_name(name) == normal_name("0x"@ + hex4(field.number)),
    ensures
        selects(tag_aliases(name), field),
{
    lemma_number_name(field);
    lemma_special_names_start_otherwise();
    let names = tag_aliases(name);
    assert(names[0] == normal_name(name));
    assert(names.contains(normal_name(name)));
    assert(field_names(field)[1] == normal_name(name));
}

proof fn lemma_special_names_start_otherwise()
    ensures
        "photographer"@[0] != '0',
        "iso"@[0] != '0',
        "isospeed"@[0] != '0',
        "isospeedratings"@[0] != '0',
        "photographicsensitivity"@[0] != '0',
        "createdate"@[0] != '0',
        "datetimedigitized"@[0] != '0',
        "modifydate"@[0] != '0',
        "datetime"@[0] != '0',
        "predictor"@[0] != '0',
        "icc"@[0] != '0',
        "iccprofile"@[0] != '0',
        "intercolorprofile"@[0] != '0',
{
    reveal_strlit("photographer");
    reveal_strlit("iso");
    reveal_strlit("isospeed");
    reveal_strlit("isospeedratings");
    reveal_strlit("photographicsensitivity");
    reveal_strlit("createdate");
    reveal_strlit("datetimedigitized");
    reveal_strlit("modifydate");
    reveal_strlit("datetime");
    reveal_strlit("predictor");
    reveal_strlit("icc");
    reveal_strlit("iccprofile");
    reveal_strlit("intercolorprofile");
}

// ---------------------------------------------------------------------------
// Lists of names
// ---------------------------------------------------------------------------
proof fn lemma_names_in_concatenate(a: Seq<Seq<char>>, b: Seq<Seq<char>>)
    ensures
        names_in(a + b) == names_in(a) + names_in(b),
    decreases b.len(),
{
    if b.len() == 0 {
        assert(a + b =~= a);
        assert(names_in(a) + names_in(b) =~= names_in(a));
    } else {
        assert((a + b).drop_last() =~= a + b.drop_last());
        assert((a + b).last() == b.last());
        lemma_names_in_concatenate(a, b.drop_last());
        if trim(b.last()).len() > 0 {
            let more = tag_aliases(trim(b.last()));
            assert(names_in(a) + names_in(b.drop_last()) + more =~= names_in(a) + (names_in(
                b.drop_last(),
            ) + more));
        }
    }
}

/// What a list with a comma selects is what its two parts select.
pub proof fn law_commas_separate_names(one: Seq<char>, other: Seq<char>)
    ensures
        selected_names(seq![one + seq![','] + other]) == selected_names(seq![one])
            + selected_names(seq![other]),
{
    reveal_with_fuel(selected_names, 2);
    let both = one + seq![','] + other;
    law_split_parts_concatenate(one, other, ',');
    lemma_names_in_concatenate(split_on(one, ','), split_on(other, ','));
    assert(seq![both].drop_last() =~= Seq::<Seq<char>>::empty());
    assert(seq![one].drop_last() =~= Seq::<Seq<char>>::empty());
    assert(seq![other].drop_last() =~= Seq::<Seq<char>>::empty());
    let none = Seq::<Seq<char>>::empty();
    assert(none + names_in(split_on(both, ',')) =~= names_in(split_on(both, ',')));
    assert(none + names_in(split_on(one, ',')) =~= names_in(split_on(one, ',')));
    assert(none + names_in(split_on(other, ',')) =~= names_in(split_on(other, ',')));
}

proof fn lemma_unsplit(text: Seq<char>, c: char)
    requires
        !text.contains(c),
    ensures
        split_on(text, c) == seq![text],
    decreases text.len(),
{
    if text.len() > 0 {
        let before = text.drop_last();
        assert(text[text.len() - 1] == text.last());
        assert forall|i: int| 0 <= i < before.len() implies before[i] != c by {
            assert(text[i] == before[i]);
        }
        lemma_unsplit(before, c);
        assert(before.push(text.last()) =~= text);
        assert(split_on(text, c) =~= seq![text]);
    } else {
        assert(text =~= Seq::empty());
    }
}

/// A text without commas selects what its name selects, without the blanks around
/// it; a blank one selects nothing.
pub proof fn law_single_names_are_selected(text: Seq<char>)
    requires
        !text.contains(','),
    ensures
        selected_names(seq![text]) == (if trim(text).len() == 0 {
            Seq::empty()
        } else {
            tag_aliases(trim(text))
        }),
{
    reveal_with_fuel(selected_names, 2);
    reveal_with_fuel(names_in, 2);
    lemma_unsplit(text, ',');
    assert(seq![text].drop_last() =~= Seq::<Seq<char>>::empty());
    let none = Seq::<Seq<char>>::empty();
    assert(none + tag_aliases(trim(text)) =~= tag_aliases(trim(text)));
    assert(selected_names(seq![text]) =~= names_in(seq![text]));
}

/// Options that are given more than once add up.
pub proof fn law_options_add_up(values: Seq<Seq<char>>, value: Seq<char>)
    ensures
        selected_names(values.push(value)) == selected_names(values) + selected_names(seq![value]),
{
    reveal_with_fuel(selected_names, 2);
    assert(values.push(value).drop_last() =~= values);
    assert(seq![value].drop_last() =~= Seq::<Seq<char>>::empty());
    let names = names_in(split_on(value, ','));
    assert(Seq::<Seq<char>>::empty() + names =~= names);
}

// ---------------------------------------------------------------------------
// Options
// ---------------------------------------------------------------------------
/// The options that cannot be given together are refused, and so are lists that
/// select nothing; all others are taken.
pub proof fn law_conflicting_options_are_refused(
    strip: bool,
    keep: Seq<Seq<char>>,
    remove: Seq<Seq<char>>,
    privacy: bool,
)
    ensures
        strip && keep.len() > 0 ==> options_error(strip, keep, remove, privacy) is Some,
        strip && remove.len() > 0 ==> options_error(strip, keep, remove, privacy) is Some,
        strip && privacy ==> options_error(strip, keep, remove, privacy) is Some,
        keep.len() > 0 && privacy ==> options_error(strip, keep, remove, privacy) is Some,
        options_error(true, Seq::empty(), Seq::empty(), false) is None,
        options_error(false, Seq::empty(), Seq::empty(), privacy) is None,
        selected_names(remove).len() > 0 ==> options_error(false, Seq::empty(), remove, privacy) is None,
        selected_names(keep).len() > 0 && selected_names(remove).len() > 0 ==> options_error(
            false,
            keep,
            remove,
            false,
        ) is None,
        selected_names(keep).len() > 0 ==> options_error(false, keep, Seq::empty(), false) is None,
{
}

/// What is named to be removed goes, and what is named to be kept stays unless it is
/// named to be removed too; of the rest, everything goes where tags are kept, what is
/// private goes where privacy is asked for, and nothing goes otherwise.
pub proof fn law_options_decide_what_goes(
    mode: StripMode,
    keep: Seq<Seq<char>>,
    remove: Seq<Seq<char>>,
    privacy: bool,
    field: FieldView,
)
    requires
        options_error(false, keep, remove, privacy) is None,
        keep.len() > 0 || remove.len() > 0 || privacy,
        is_mode_of(mode, false, keep, remove, privacy),
    ensures
        remove.len() > 0 && selects(selected_names(remove), field) ==> mode.removes(field, false),
        keep.len() > 0 && !(remove.len() > 0 && selects(selected_names(remove), field)) ==> (
        mode.removes(field, false) <==> !selects(selected_names(keep), field)),
        keep.len() == 0 && !privacy ==> (mode.removes(field, false) <==> selects(
            selected_names(remove),
            field,
        )),
        privacy && field.context == TagContext::Gps ==> mode.removes(field, false),
{
}

} // verus!
