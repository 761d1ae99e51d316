//! What holds of every key in the editor.

use crate::convert::is_blank;
use crate::editor::{
    edited, field_rows, held_tags, picked, row_place, row_text, selected_again, session_reacts,
    written_message, EditorInputView, EditorOutcome, EditorRowView, EditorView, InteractiveSession,
    SessionReaction,
};
use crate::exif_data::FieldView;
use crate::interactive::{Key, KeyInput, Reaction};
use crate::read_output::unquoted;
use crate::rows::known_value;
use crate::text::{decimal, texts, trim};
use crate::write_run::WriteFileResult;
use crate::yaml::yaml_document;
use vstd::prelude::*;

verus! {

// ---------------------------------------------------------------------------
// Keys
// ---------------------------------------------------------------------------
/// While a value is typed, characters are added behind it, the key to delete takes
/// back the last one, and the tag stays the same; nothing is written.
pub proof fn law_values_are_typed(editor: EditorView, name: Seq<char>, text: Seq<char>, c: char)
    requires
        editor.input == EditorInputView::Typing(name, text),
    ensures
        edited(editor, Key::Char(c)).0.input == EditorInputView::Typing(name, text.push(c)),
        edited(editor, Key::Char(c)).1 is Nothing,
        edited(edited(editor, Key::Char(c)).0, Key::Backspace).0 == editor,
        text.len() == 0 ==> edited(editor, Key::Backspace).0 == editor,
        edited(editor, Key::Backspace).1 is Nothing,
        edited(editor, Key::Up) == (editor, EditorOutcome::Nothing),
        edited(editor, Key::Down) == (editor, EditorOutcome::Nothing),
{
    assert(text.push(c).drop_last() =~= text);
}

/// While a name is typed, characters are added behind it, and the key to delete takes
/// back the last one. A name without blanks around it is then given a value; one of
/// blanks only is not.
pub proof fn law_names_are_typed(editor: EditorView, text: Seq<char>, c: char)
    requires
        editor.input == EditorInputView::Naming(text),
    ensures
        edited(editor, Key::Char(c)).0.input == EditorInputView::Naming(text.push(c)),
        edited(edited(editor, Key::Char(c)).0, Key::Backspace).0 == editor,
        trim(text).len() > 0 ==> edited(editor, Key::Enter).0.input is Typing && edited(
            editor,
            Key::Enter,
        ).0.input->Typing_0 == trim(text),
        trim(text).len() == 0 ==> edited(editor, Key::Enter).0 == editor,
        edited(editor, Key::Esc).0.input is Browsing,
        edited(editor, Key::Char(c)).1 is Nothing,
        edited(editor, Key::Enter).1 is Nothing,
{
    assert(text.push(c).drop_last() =~= text);
}

/// A tag is written when its value is confirmed, with the name and the value that were
/// typed, and by no other key. A value that cannot be read is not written, and neither
/// is a blank one.
pub proof fn law_confirmed_values_are_written(editor: EditorView, key: Key)
    ensures
        edited(editor, key).1 is Write <==> key is Enter && editor.input is Typing && yaml_document(
            editor.input->Typing_1,
        ) is Ok && !is_blank(yaml_document(editor.input->Typing_1)->Ok_0),
        edited(editor, key).1 is Write ==> edited(editor, key).1->Write_0 == (
            editor.input->Typing_0,
            yaml_document(editor.input->Typing_1)->Ok_0,
        ) && edited(editor, key).1->Write_1 == held_tags(editor.rows),
        key is Enter && editor.input is Typing && yaml_document(editor.input->Typing_1) is Err
            ==> edited(editor, key).0.input == editor.input && edited(editor, key).0.message
            == "invalid value: "@ + yaml_document(editor.input->Typing_1)->Err_0,
        key is Enter && editor.input is Typing && yaml_document(editor.input->Typing_1) is Ok
            ==> edited(editor, key).0.input is Browsing,
{
}

/// Escape leads back to the rows, and from there out of the editor, without writing.
pub proof fn law_escape_leads_back(editor: EditorView)
    ensures
        !(editor.input is Browsing) ==> edited(editor, Key::Esc).0.input is Browsing && edited(
            editor,
            Key::Esc,
        ).1 is Nothing,
        editor.input is Browsing ==> edited(editor, Key::Esc) == (editor, EditorOutcome::Close),
        edited(editor, Key::Esc).0.rows == editor.rows,
{
}

/// Among the rows the selection moves by one and stays within them; the selected row
/// is edited from the text it has.
pub proof fn law_rows_are_selected(editor: EditorView)
    requires
        editor.input is Browsing,
        editor.selected < editor.rows.len(),
    ensures
        editor.selected > 0 ==> edited(editor, Key::Up).0.selected == editor.selected - 1,
        editor.selected == 0 ==> edited(editor, Key::Up).0.selected == 0,
        editor.selected + 1 < editor.rows.len() ==> edited(editor, Key::Down).0.selected
            == editor.selected + 1,
        editor.selected + 1 == editor.rows.len() ==> edited(editor, Key::Down).0.selected
            == editor.selected,
        edited(editor, Key::Enter).0.input == EditorInputView::Typing(
            editor.rows[editor.selected as int].name,
            editor.rows[editor.selected as int].text,
        ),
        edited(editor, Key::Right).0 == edited(editor, Key::Enter).0,
        edited(editor, Key::Char('a')).0.input == EditorInputView::Picking(0),
{
}

/// Among the tags to add, the one behind the last standard tag is a custom one, of
/// which the name is asked for.
pub proof fn law_tags_are_picked(editor: EditorView, place: nat)
    ensures
        place < 31 ==> picked(editor, place, Key::Down) == EditorInputView::Picking(place + 1),
        place == 31 ==> picked(editor, place, Key::Down) == EditorInputView::Picking(31),
        place > 0 ==> picked(editor, place, Key::Up) == EditorInputView::Picking(
            (place - 1) as nat,
        ),
        picked(editor, 0, Key::Up) == EditorInputView::Picking(0),
        place < 31 ==> picked(editor, place, Key::Enter) is Typing,
        place == 31 ==> picked(editor, place, Key::Enter) is Naming,
        picked(editor, place, Key::Esc) is Browsing,
{
    crate::editor::law_picker_lists_writable_tags(0);
    assert(crate::editor::all_standard_tags().len() == 31);
}

// ---------------------------------------------------------------------------
// Rows
// ---------------------------------------------------------------------------
proof fn lemma_row_place(rows: Seq<EditorRowView>, name: Seq<char>)
    ensures
        row_place(rows, name) <= rows.len(),
        row_place(rows, name) < rows.len() ==> rows[row_place(rows, name) as int].name == name,
        forall|k: int|
            0 <= k < row_place(rows, name) && k < rows.len() ==> (#[trigger] rows[k]).name != name,
    decreases rows.len(),
{
    if rows.len() > 0 && rows[0].name != name {
        let rest = rows.skip(1);
        lemma_row_place(rest, name);
        assert forall|k: int|
            0 <= k < row_place(rows, name) && k < rows.len() implies (#[trigger] rows[k]).name
            != name by {
            if k > 0 {
                assert(rows[k] == rest[k - 1]);
            }
        }
    }
}

/// A tag that the image has is edited from the value it has, any other from nothing.
pub proof fn law_values_are_edited_from_what_is_there(
    rows: Seq<EditorRowView>,
    name: Seq<char>,
    i: int,
)
    ensures
        0 <= i < rows.len() && rows[i].name == name && (forall|k: int|
            0 <= k < i ==> (#[trigger] rows[k]).name != name) ==> row_text(rows, name)
            == rows[i].text,
        (forall|k: int| 0 <= k < rows.len() ==> (#[trigger] rows[k]).name != name) ==> row_text(
            rows,
            name,
        ).len() == 0,
{
    lemma_row_place(rows, name);
    reveal_strlit("");
    let place = row_place(rows, name) as int;
    if 0 <= i < rows.len() && rows[i].name == name && (forall|k: int|
        0 <= k < i ==> (#[trigger] rows[k]).name != name) {
        if place < i {
            assert(rows[place].name != name);
        } else if i < place {
            assert(rows[i].name != name);
        }
    }
}

/// After a write the row of the same tag is selected, where there is one.
pub proof fn law_selected_tag_stays_selected(editor: EditorView, rows: Seq<EditorRowView>, i: int)
    requires
        editor.selected < editor.rows.len(),
        0 <= i < rows.len(),
        rows[i].name == editor.rows[editor.selected as int].name,
    ensures
        selected_again(editor, rows) < rows.len(),
        rows[selected_again(editor, rows) as int].name
            == editor.rows[editor.selected as int].name,
{
    let name = editor.rows[editor.selected as int].name;
    lemma_row_place(rows, name);
    if row_place(rows, name) >= rows.len() {
        assert(rows[i].name != name);
    }
}

/// The tags of the image itself that can be written have a row, with their name and
/// their value without quotes.
pub proof fn law_writable_fields_have_rows(fields: Seq<FieldView>, field: FieldView)
    requires
        field.ifd == 0,
        unquoted(known_value(field)) is None,
    ensures
        field.context is Tiff && field.number == 0x010f ==> field_rows(fields.push(field))
            == field_rows(fields).push(
            (EditorRowView { name: "Make"@, text: known_value(field), custom: None }),
        ),
        field.context is Tiff && field.number == 0x013b ==> field_rows(fields.push(field))
            == field_rows(fields).push(
            (EditorRowView { name: "Artist"@, text: known_value(field), custom: None }),
        ),
        field.context is Other ==> field_rows(fields.push(field)) == field_rows(fields),
{
    assert(fields.push(field).drop_last() =~= fields);
    assert(fields.push(field).last() == field);
    let all = crate::editor::all_standard_tags();
    reveal_with_fuel(crate::editor::name_at, 5);
    assert(all[0].0 == "Artist"@);
    assert(all.skip(1)[0] == all[1]);
    assert(all.skip(1).skip(1)[0] == all[2]);
    assert(all.skip(1).skip(1).skip(1)[0] == all[3]);
}

/// Tags of a thumbnail have no row.
pub proof fn law_thumbnails_are_not_edited(fields: Seq<FieldView>, field: FieldView)
    requires
        field.ifd != 0,
    ensures
        field_rows(fields.push(field)) == field_rows(fields),
{
    assert(fields.push(field).drop_last() =~= fields);
}

/// What is said of a write: its errors where there are any, else how many tags were
/// written, or would be.
pub proof fn law_writes_are_reported(result: WriteFileResult, error: Seq<char>)
    ensures
        texts(result.errors@) == seq![error] ==> written_message(result, false) == error
            && written_message(result, true) == error,
        result.errors@.len() == 0 ==> written_message(result, false) == "wrote "@ + decimal(
            result.written as nat,
        ) + " tags"@,
        result.errors@.len() == 0 ==> written_message(result, true) == "would write "@ + decimal(
            result.written as nat,
        ) + " tags"@,
{
    assert(texts(result.errors@).len() == result.errors@.len());
}

// ---------------------------------------------------------------------------
// Sessions
// ---------------------------------------------------------------------------
/// Nothing is written from the browser: only from an editor, by the key that confirms
/// a value, and to the image of that editor.
pub proof fn law_only_editors_write(
    before: InteractiveSession,
    after: InteractiveSession,
    input: KeyInput,
    r: SessionReaction,
)
    requires
        session_reacts(before, after, input, r),
        r is Write,
    ensures
        before.editor is Some,
        input.is_press && input.key is Enter,
        before.editor->Some_0@.input is Typing,
        r->Write_0@ == before.editor->Some_0@.image,
        r->Write_1@.0 == before.editor->Some_0@.input->Typing_0,
{
}

/// Images are edited only where the session writes; where it reads, opening one shows
/// it. The key that changes between both does nothing else.
pub proof fn law_images_are_edited_where_the_session_writes(
    before: InteractiveSession,
    after: InteractiveSession,
    input: KeyInput,
    r: SessionReaction,
)
    requires
        session_reacts(before, after, input, r),
    ensures
        r is Edit ==> before.mode is Write && input.is_press && (input.key is Right || input.key
            is Enter) && before.app.entries@[before.app.selected as int].kind is File,
        before.mode is Write && before.editor is None && input.is_press && input.key is Enter
            && before.app.focus is List && before.app.selected < before.app.entries@.len()
            && before.app.entries@[before.app.selected as int].kind is File ==> r is Edit && r->Edit_0@
            == before.app.entries@[before.app.selected as int].path@,
        input.is_press && input.key == Key::Char('w') && before.editor is None ==> after.app
            == before.app && after.mode != before.mode,
        input.is_press && input.key == Key::Char('c') && input.with_control_only ==> r
            == SessionReaction::Browse(Reaction::Quit),
        before.editor is Some && input.is_press && input.key == Key::Char('q')
            && !input.with_control_only ==> r == SessionReaction::Browse(Reaction::Nothing),
{
}

} // verus!
