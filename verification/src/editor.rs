//! Writing in the interactive browser: its mode, and the editor of the tags of an
//! image.

use crate::convert::{is_blank, is_blank_yaml_value};
use crate::exif_data::{field_views, ExifData, ExifField, FieldView};
use crate::interactive::{
    failure_preview, reacts, read_preview, ContentView, InteractiveApp, InteractiveEntryKind,
    InteractiveFocus, Key, KeyInput, Reaction,
};
use crate::path::{FilePath, PathView};
use crate::payload::{
    custom_tag_value_label, custom_tags_from_exif, custom_views, tags_of_fields, value_label,
    CustomTag, CustomView,
};
use crate::plan::{NamedValue, WriteTag};
use crate::read_output::unquoted;
use crate::rows::{format_known_field_value, known_value};
use crate::strip::{group_of, writable_group_from_context};
use crate::text::{
    decimal, decimal_text, join, join_texts, same, text_strip_prefix, text_strip_suffix, text_trim,
    text_without_last, texts, trim, without_last,
};
use crate::writable::{
    slot_of, tag_name, ByteTag, RatioTag, ShortTag, Slot, TagGroup, TextTag, UnsignedRatio,
    WritableView,
};
use crate::write_run::WriteFileResult;
use crate::yaml::{parse_document, yaml_contents, yaml_document, Yaml};
use serde_yaml::Value;
use vstd::prelude::*;

verus! {

// ---------------------------------------------------------------------------
// Standard tags
// ---------------------------------------------------------------------------
/// A tag that can be written under a name of its own.
#[derive(Debug, Clone, Copy)]
pub struct StandardTag {
    pub name: &'static str,
    pub group: TagGroup,
    pub number: u16,
}

/// What a standard tag says: its name, and where it is filed.
pub type StandardView = (Seq<char>, Slot);

pub open spec fn standard_views(tags: Seq<StandardTag>) -> Seq<StandardView> {
    tags.map_values(|tag: StandardTag| (tag.name@, (tag.group, tag.number)))
}

pub open spec fn generic_tags() -> Seq<StandardView> {
    seq![
        ("Artist"@, (TagGroup::Generic, 0x013b)),
        ("Copyright"@, (TagGroup::Generic, 0x8298)),
        ("ImageDescription"@, (TagGroup::Generic, 0x010e)),
        ("Make"@, (TagGroup::Generic, 0x010f)),
        ("Model"@, (TagGroup::Generic, 0x0110)),
        ("ModifyDate"@, (TagGroup::Generic, 0x0132)),
        ("Orientation"@, (TagGroup::Generic, 0x0112)),
        ("Software"@, (TagGroup::Generic, 0x0131)),
    ]
}

pub open spec fn exposure_tags() -> Seq<StandardView> {
    seq![
        ("CreateDate"@, (TagGroup::Exif, 0x9004)),
        ("DateTimeOriginal"@, (TagGroup::Exif, 0x9003)),
        ("ExposureProgram"@, (TagGroup::Exif, 0x8822)),
        ("ExposureTime"@, (TagGroup::Exif, 0x829a)),
        ("FNumber"@, (TagGroup::Exif, 0x829d)),
        ("FileSource"@, (TagGroup::Exif, 0xa300)),
        ("Flash"@, (TagGroup::Exif, 0x9209)),
        ("FocalLength"@, (TagGroup::Exif, 0x920a)),
        ("ISO"@, (TagGroup::Exif, 0x8827)),
        ("ISOSpeed"@, (TagGroup::Exif, 0x8833)),
        ("LensMake"@, (TagGroup::Exif, 0xa433)),
        ("LensModel"@, (TagGroup::Exif, 0xa434)),
        ("LightSource"@, (TagGroup::Exif, 0x9208)),
        ("MaxApertureValue"@, (TagGroup::Exif, 0x9205)),
        ("MeteringMode"@, (TagGroup::Exif, 0x9207)),
        ("WhiteBalance"@, (TagGroup::Exif, 0xa403)),
    ]
}

pub open spec fn position_tags() -> Seq<StandardView> {
    seq![
        ("GPSAltitude"@, (TagGroup::Gps, 0x0006)),
        ("GPSAltitudeRef"@, (TagGroup::Gps, 0x0005)),
        ("GPSLatitude"@, (TagGroup::Gps, 0x0002)),
        ("GPSLatitudeRef"@, (TagGroup::Gps, 0x0001)),
        ("GPSLongitude"@, (TagGroup::Gps, 0x0004)),
        ("GPSLongitudeRef"@, (TagGroup::Gps, 0x0003)),
        ("GPSMapDatum"@, (TagGroup::Gps, 0x0012)),
    ]
}

/// The standard tags that can be added to an image.
pub open spec fn all_standard_tags() -> Seq<StandardView> {
    generic_tags() + exposure_tags() + position_tags()
}

fn push_standard(
    tags: &mut Vec<StandardTag>,
    name: &'static str,
    group: TagGroup,
    number: u16,
)
    ensures
        standard_views(final(tags)@) == standard_views(old(tags)@).push((name@, (group, number))),
{
    let ghost before = standard_views(tags@);
    tags.push(StandardTag { name, group, number });
    proof {
        assert(standard_views(tags@) =~= before.push((name@, (group, number))));
    }
}

fn push_generic_tags(tags: &mut Vec<StandardTag>)
    ensures
        standard_views(final(tags)@) == standard_views(old(tags)@) + generic_tags(),
{
    let ghost before = standard_views(tags@);
    push_standard(tags, "Artist", TagGroup::Generic, 0x013b);
    push_standard(tags, "Copyright", TagGroup::Generic, 0x8298);
    push_standard(tags, "ImageDescription", TagGroup::Generic, 0x010e);
    push_standard(tags, "Make", TagGroup::Generic, 0x010f);
    push_standard(tags, "Model", TagGroup::Generic, 0x0110);
    push_standard(tags, "ModifyDate", TagGroup::Generic, 0x0132);
    push_standard(tags, "Orientation", TagGroup::Generic, 0x0112);
    push_standard(tags, "Software", TagGroup::Generic, 0x0131);
    proof {
        assert(standard_views(tags@) =~= before + generic_tags());
    }
}

fn push_exposure_tags(tags: &mut Vec<StandardTag>)
    ensures
        standard_views(final(tags)@) == standard_views(old(tags)@) + exposure_tags(),
{
    let ghost before = standard_views(tags@);
    push_standard(tags, "CreateDate", TagGroup::Exif, 0x9004);
    push_standard(tags, "DateTimeOriginal", TagGroup::Exif, 0x9003);
    push_standard(tags, "ExposureProgram", TagGroup::Exif, 0x8822);
    push_standard(tags, "ExposureTime", TagGroup::Exif, 0x829a);
    push_standard(tags, "FNumber", TagGroup::Exif, 0x829d);
    push_standard(tags, "FileSource", TagGroup::Exif, 0xa300);
    push_standard(tags, "Flash", TagGroup::Exif, 0x9209);
    push_standard(tags, "FocalLength", TagGroup::Exif, 0x920a);
    push_standard(tags, "ISO", TagGroup::Exif, 0x8827);
    push_standard(tags, "ISOSpeed", TagGroup::Exif, 0x8833);
    push_standard(tags, "LensMake", TagGroup::Exif, 0xa433);
    push_standard(tags, "LensModel", TagGroup::Exif, 0xa434);
    push_standard(tags, "LightSource", TagGroup::Exif, 0x9208);
    push_standard(tags, "MaxApertureValue", TagGroup::Exif, 0x9205);
    push_standard(tags, "MeteringMode", TagGroup::Exif, 0x9207);
    push_standard(tags, "WhiteBalance", TagGroup::Exif, 0xa403);
    proof {
        assert(standard_views(tags@) =~= before + exposure_tags());
    }
}

fn push_position_tags(tags: &mut Vec<StandardTag>)
    ensures
        standard_views(final(tags)@) == standard_views(old(tags)@) + position_tags(),
{
    let ghost before = standard_views(tags@);
    push_standard(tags, "GPSAltitude", TagGroup::Gps, 0x0006);
    push_standard(tags, "GPSAltitudeRef", TagGroup::Gps, 0x0005);
    push_standard(tags, "GPSLatitude", TagGroup::Gps, 0x0002);
    push_standard(tags, "GPSLatitudeRef", TagGroup::Gps, 0x0001);
    push_standard(tags, "GPSLongitude", TagGroup::Gps, 0x0004);
    push_standard(tags, "GPSLongitudeRef", TagGroup::Gps, 0x0003);
    push_standard(tags, "GPSMapDatum", TagGroup::Gps, 0x0012);
    proof {
        assert(standard_views(tags@) =~= before + position_tags());
    }
}

/// The standard tags that can be added to an image.
pub fn standard_tags() -> (r: Vec<StandardTag>)
    ensures
        standard_views(r@) == all_standard_tags(),
{
    let mut tags: Vec<StandardTag> = Vec::new();
    push_generic_tags(&mut tags);
    push_exposure_tags(&mut tags);
    push_position_tags(&mut tags);
    proof {
        assert(standard_views(tags@) =~= all_standard_tags());
    }
    tags
}

/// The name of the standard tag that is filed in a slot.
pub open spec fn name_at(tags: Seq<StandardView>, slot: Slot) -> Option<Seq<char>>
    decreases tags.len(),
{
    if tags.len() == 0 {
        None
    } else if tags[0].1 == slot {
        Some(tags[0].0)
    } else {
        name_at(tags.skip(1), slot)
    }
}

fn find_name(tags: &Vec<StandardTag>, group: TagGroup, number: u16) -> (r: Option<&'static str>)
    ensures
        match r {
            Some(name) => name_at(standard_views(tags@), (group, number)) == Some(name@),
            None => name_at(standard_views(tags@), (group, number)) is None,
        },
{
    let ghost all = standard_views(tags@);
    let mut i: usize = 0;
    proof {
        assert(all.skip(0) =~= all);
    }
    while i < tags.len()
        invariant
            i <= tags@.len(),
            all == standard_views(tags@),
            name_at(all, (group, number)) == name_at(all.skip(i as int), (group, number)),
        decreases tags@.len() - i,
    {
        proof {
            assert(all.skip(i as int).skip(1) =~= all.skip(i + 1));
            assert(all.skip(i as int)[0] == all[i as int]);
        }
        if tags[i].group == group && tags[i].number == number {
            return Some(tags[i].name);
        }
        i += 1;
    }
    None
}

// ---------------------------------------------------------------------------
// Rows
// ---------------------------------------------------------------------------
/// A tag of the image: its name, its value as it is typed, and the value itself
/// where it is a custom tag.
#[derive(Debug)]
pub struct EditorRow {
    pub name: String,
    pub text: String,
    pub custom: Option<Value>,
}

/// What a row says.
pub struct EditorRowView {
    pub name: Seq<char>,
    pub text: Seq<char>,
    pub custom: Option<Yaml>,
}

impl View for EditorRow {
    type V = EditorRowView;

    open spec fn view(&self) -> EditorRowView {
        EditorRowView {
            name: self.name@,
            text: self.text@,
            custom: match self.custom {
                Some(value) => Some(yaml_contents(value)),
                None => None,
            },
        }
    }
}

pub open spec fn editor_rows(rows: Seq<EditorRow>) -> Seq<EditorRowView> {
    rows.map_values(|row: EditorRow| row@)
}

/// A value as it is typed: without the quotes around it.
pub open spec fn typed_value(value: Seq<char>) -> Seq<char> {
    match unquoted(value) {
        Some(bare) => bare,
        None => value,
    }
}

fn typed_text(value: &str) -> (r: String)
    ensures
        r@ == typed_value(value@),
{
    match text_strip_prefix(value, "\"") {
        Some(rest) => match text_strip_suffix(rest, "\"") {
            Some(bare) => bare.to_owned(),
            None => value.to_owned(),
        },
        None => value.to_owned(),
    }
}

/// The name under which a field of the image itself can be written.
pub open spec fn writable_name(field: FieldView) -> Option<Seq<char>> {
    match group_of(field.context) {
        Some(group) => if field.ifd == 0 {
            name_at(all_standard_tags(), (group, field.number))
        } else {
            None
        },
        None => None,
    }
}

/// The rows of the fields that can be written, in their order.
pub open spec fn field_rows(fields: Seq<FieldView>) -> Seq<EditorRowView>
    decreases fields.len(),
{
    if fields.len() == 0 {
        Seq::empty()
    } else {
        let before = field_rows(fields.drop_last());
        match writable_name(fields.last()) {
            Some(name) => before.push(
                EditorRowView {
                    name,
                    text: typed_value(known_value(fields.last())),
                    custom: None,
                },
            ),
            None => before,
        }
    }
}

/// The rows of custom tags, in their order.
pub open spec fn custom_rows(tags: Seq<CustomView>) -> Seq<EditorRowView> {
    tags.map_values(
        |tag: CustomView|
            EditorRowView { name: tag.0, text: value_label(tag.1), custom: Some(tag.1) },
    )
}

/// The rows of an image: those of its fields, and behind them those of its custom
/// tags.
pub open spec fn image_rows(fields: Seq<FieldView>) -> Seq<EditorRowView> {
    field_rows(fields) + custom_rows(tags_of_fields(fields))
}

fn rows_of_image(fields: &Vec<ExifField>) -> (r: Vec<EditorRow>)
    ensures
        editor_rows(r@) == image_rows(field_views(fields@)),
{
    let standard = standard_tags();
    let ghost all = field_views(fields@);
    let mut rows: Vec<EditorRow> = Vec::new();
    let mut i: usize = 0;
    proof {
        assert(editor_rows(rows@) =~= Seq::empty());
    }
    while i < fields.len()
        invariant
            i <= fields@.len(),
            all == field_views(fields@),
            standard_views(standard@) == all_standard_tags(),
            editor_rows(rows@) == field_rows(all.take(i as int)),
        decreases fields@.len() - i,
    {
        let ghost before = editor_rows(rows@);
        proof {
            assert(all.take(i + 1).drop_last() =~= all.take(i as int));
            assert(all.take(i + 1).last() == all[i as int]);
        }
        let field = &fields[i];
        let name = match writable_group_from_context(field.context) {
            Some(group) => if field.ifd == 0 {
                find_name(&standard, group, field.number)
            } else {
                None
            },
            None => None,
        };
        if let Some(name) = name {
            let text = typed_text(format_known_field_value(field).as_str());
            let row = EditorRow { name: name.to_owned(), text, custom: None };
            let ghost view = row@;
            rows.push(row);
            proof {
                assert(editor_rows(rows@) =~= before.push(view));
            }
        }
        i += 1;
    }
    let ghost own = editor_rows(rows@);
    let custom = custom_tags_from_exif(fields);
    let ghost tags = custom_views(custom@);
    let ghost input = custom@;
    proof {
        assert(all.take(all.len() as int) =~= all);
        assert(own + custom_rows(tags.take(0)) =~= own);
    }
    for tag in it: custom
        invariant
            it.seq() == input,
            tags == custom_views(input),
            editor_rows(rows@) == own + custom_rows(tags.take(it.index())),
    {
        let ghost before = editor_rows(rows@);
        let ghost k = it.index();
        let text = custom_tag_value_label(&tag.value);
        let row = EditorRow { name: tag.name, text, custom: Some(tag.value) };
        let ghost view = row@;
        rows.push(row);
        proof {
            assert(editor_rows(rows@) =~= before.push(view));
            assert(custom_rows(tags.take(k + 1)) =~= custom_rows(tags.take(k)).push(view));
            assert(editor_rows(rows@) =~= own + custom_rows(tags.take(k + 1)));
        }
    }
    proof {
        assert(tags.take(tags.len() as int) =~= tags);
    }
    rows
}

/// The place of the row with a name; behind all rows where there is none.
pub open spec fn row_place(rows: Seq<EditorRowView>, name: Seq<char>) -> nat
    decreases rows.len(),
{
    if rows.len() == 0 || rows[0].name == name {
        0
    } else {
        1 + row_place(rows.skip(1), name)
    }
}

fn find_row(rows: &Vec<EditorRow>, name: &str) -> (r: usize)
    ensures
        r == row_place(editor_rows(rows@), name@),
        r <= rows@.len(),
{
    let ghost all = editor_rows(rows@);
    let mut i: usize = 0;
    proof {
        assert(all.skip(0) =~= all);
    }
    while i < rows.len()
        invariant
            i <= rows@.len(),
            all == editor_rows(rows@),
            row_place(all, name@) == i + row_place(all.skip(i as int), name@),
        decreases rows@.len() - i,
    {
        proof {
            assert(all.skip(i as int).skip(1) =~= all.skip(i + 1));
            assert(all.skip(i as int)[0] == all[i as int]);
        }
        if same(rows[i].name.as_str(), name) {
            return i;
        }
        i += 1;
    }
    i
}

/// The text of the row with a name; nothing where there is none.
pub open spec fn row_text(rows: Seq<EditorRowView>, name: Seq<char>) -> Seq<char> {
    let place = row_place(rows, name);
    if place < rows.len() {
        rows[place as int].text
    } else {
        ""@
    }
}

fn text_of_row(rows: &Vec<EditorRow>, name: &str) -> (r: String)
    ensures
        r@ == row_text(editor_rows(rows@), name@),
{
    let place: usize = find_row(rows, name);
    if place < rows.len() {
        proof {
            assert(editor_rows(rows@)[place as int] == rows@[place as int]@);
        }
        rows[place].text.clone()
    } else {
        "".to_owned()
    }
}

/// The custom tags of the rows, in their order.
pub open spec fn held_tags(rows: Seq<EditorRowView>) -> Seq<CustomView>
    decreases rows.len(),
{
    if rows.len() == 0 {
        Seq::empty()
    } else {
        let before = held_tags(rows.drop_last());
        match rows.last().custom {
            Some(value) => before.push((rows.last().name, value)),
            None => before,
        }
    }
}

fn copy_held_tags(rows: &Vec<EditorRow>) -> (r: Vec<CustomTag>)
    ensures
        custom_views(r@) == held_tags(editor_rows(rows@)),
{
    let ghost all = editor_rows(rows@);
    let mut tags: Vec<CustomTag> = Vec::new();
    let mut i: usize = 0;
    proof {
        assert(custom_views(tags@) =~= Seq::empty());
    }
    while i < rows.len()
        invariant
            i <= rows@.len(),
            all == editor_rows(rows@),
            custom_views(tags@) == held_tags(all.take(i as int)),
        decreases rows@.len() - i,
    {
        let ghost before = custom_views(tags@);
        proof {
            assert(all.take(i + 1).drop_last() =~= all.take(i as int));
            assert(all.take(i + 1).last() == all[i as int]);
        }
        if let Some(value) = &rows[i].custom {
            let tag = CustomTag { name: rows[i].name.clone(), value: value.clone() };
            let ghost view = tag@;
            tags.push(tag);
            proof {
                assert(custom_views(tags@) =~= before.push(view));
            }
        }
        i += 1;
    }
    proof {
        assert(all.take(all.len() as int) =~= all);
    }
    tags
}

// ---------------------------------------------------------------------------
// The editor
// ---------------------------------------------------------------------------
/// What the editor is asking for.
#[derive(Debug)]
pub enum EditorInput {
    /// A row to edit.
    Browsing,
    /// A tag to add: the place of a standard tag, or behind them a custom tag.
    Picking(usize),
    /// The name of a custom tag.
    Naming(String),
    /// The value of the tag with a name.
    Typing(String, String),
}

pub enum EditorInputView {
    Browsing,
    Picking(nat),
    Naming(Seq<char>),
    Typing(Seq<char>, Seq<char>),
}

impl View for EditorInput {
    type V = EditorInputView;

    open spec fn view(&self) -> EditorInputView {
        match self {
            EditorInput::Browsing => EditorInputView::Browsing,
            EditorInput::Picking(place) => EditorInputView::Picking(*place as nat),
            EditorInput::Naming(text) => EditorInputView::Naming(text@),
            EditorInput::Typing(name, text) => EditorInputView::Typing(name@, text@),
        }
    }
}

/// The editor of the tags of an image.
#[derive(Debug)]
pub struct TagEditor {
    pub image: FilePath,
    pub rows: Vec<EditorRow>,
    pub selected: usize,
    pub input: EditorInput,
    pub message: String,
}

/// What an editor shows.
pub struct EditorView {
    pub image: PathView,
    pub rows: Seq<EditorRowView>,
    pub selected: nat,
    pub input: EditorInputView,
    pub message: Seq<char>,
}

impl View for TagEditor {
    type V = EditorView;

    open spec fn view(&self) -> EditorView {
        EditorView {
            image: self.image@,
            rows: editor_rows(self.rows@),
            selected: self.selected as nat,
            input: self.input@,
            message: self.message@,
        }
    }
}

/// What a key in the editor leads to.
#[derive(Debug)]
pub enum EditorReaction {
    /// Nothing.
    Nothing,
    /// The editor is closed.
    Close,
    /// A tag is written to the image, in view of the custom tags that it holds.
    Write(WriteTag, Vec<CustomTag>),
}

pub enum EditorOutcome {
    Nothing,
    Close,
    Write(NamedValue, Seq<CustomView>),
}

impl View for EditorReaction {
    type V = EditorOutcome;

    open spec fn view(&self) -> EditorOutcome {
        match self {
            EditorReaction::Nothing => EditorOutcome::Nothing,
            EditorReaction::Close => EditorOutcome::Close,
            EditorReaction::Write(tag, held) => EditorOutcome::Write(tag@, custom_views(held@)),
        }
    }
}

/// What the value that was typed for a tag leads to. One that is no YAML is not
/// taken, a blank one changes nothing, and any other is written at once. The rows
/// stay as they are until the image is read again.
pub open spec fn confirmed(
    editor: EditorView,
    name: Seq<char>,
    value: Result<Yaml, Seq<char>>,
) -> (EditorView, EditorOutcome) {
    match value {
        Err(error) => (
            EditorView { message: "invalid value: "@ + error, ..editor },
            EditorOutcome::Nothing,
        ),
        Ok(value) => (
            EditorView { input: EditorInputView::Browsing, ..editor },
            if is_blank(value) {
                EditorOutcome::Nothing
            } else {
                EditorOutcome::Write((name, value), held_tags(editor.rows))
            },
        ),
    }
}

/// What a key leads to while a row is to be chosen.
pub open spec fn browsed(editor: EditorView, key: Key) -> (EditorView, EditorOutcome) {
    match key {
        Key::Up => (
            EditorView {
                selected: if editor.selected > 0 {
                    (editor.selected - 1) as nat
                } else {
                    editor.selected
                },
                ..editor
            },
            EditorOutcome::Nothing,
        ),
        Key::Down => (
            EditorView {
                selected: if editor.selected + 1 < editor.rows.len() {
                    editor.selected + 1
                } else {
                    editor.selected
                },
                ..editor
            },
            EditorOutcome::Nothing,
        ),
        Key::Right | Key::Enter => (
            EditorView {
                input: if editor.selected < editor.rows.len() {
                    EditorInputView::Typing(
                        editor.rows[editor.selected as int].name,
                        editor.rows[editor.selected as int].text,
                    )
                } else {
                    editor.input
                },
                ..editor
            },
            EditorOutcome::Nothing,
        ),
        Key::Char(c) => (
            EditorView {
                input: if c == 'a' {
                    EditorInputView::Picking(0)
                } else {
                    editor.input
                },
                ..editor
            },
            EditorOutcome::Nothing,
        ),
        Key::Left | Key::Esc => (editor, EditorOutcome::Close),
        _ => (editor, EditorOutcome::Nothing),
    }
}

/// What the editor asks for after a key while a tag to add is to be chosen.
pub open spec fn picked(editor: EditorView, place: nat, key: Key) -> EditorInputView {
    let standard = all_standard_tags();
    match key {
        Key::Up => EditorInputView::Picking(
            if place > 0 {
                (place - 1) as nat
            } else {
                place
            },
        ),
        Key::Down => EditorInputView::Picking(
            if place < standard.len() {
                place + 1
            } else {
                place
            },
        ),
        Key::Right | Key::Enter => if place < standard.len() {
            EditorInputView::Typing(
                standard[place as int].0,
                row_text(editor.rows, standard[place as int].0),
            )
        } else {
            EditorInputView::Naming(""@)
        },
        Key::Left | Key::Esc => EditorInputView::Browsing,
        _ => EditorInputView::Picking(place),
    }
}

/// What the editor asks for after a key while a name is typed.
pub open spec fn named(editor: EditorView, text: Seq<char>, key: Key) -> EditorInputView {
    match key {
        Key::Char(c) => EditorInputView::Naming(text.push(c)),
        Key::Backspace => EditorInputView::Naming(without_last(text)),
        Key::Enter => if trim(text).len() > 0 {
            EditorInputView::Typing(trim(text), row_text(editor.rows, trim(text)))
        } else {
            EditorInputView::Naming(text)
        },
        Key::Esc => EditorInputView::Browsing,
        _ => EditorInputView::Naming(text),
    }
}

/// What a key in the editor leads to.
pub open spec fn edited(editor: EditorView, key: Key) -> (EditorView, EditorOutcome) {
    match editor.input {
        EditorInputView::Browsing => browsed(editor, key),
        EditorInputView::Picking(place) => (
            EditorView { input: picked(editor, place, key), ..editor },
            EditorOutcome::Nothing,
        ),
        EditorInputView::Naming(text) => (
            EditorView { input: named(editor, text, key), ..editor },
            EditorOutcome::Nothing,
        ),
        EditorInputView::Typing(name, text) => match key {
            Key::Char(c) => (
                EditorView { input: EditorInputView::Typing(name, text.push(c)), ..editor },
                EditorOutcome::Nothing,
            ),
            Key::Backspace => (
                EditorView { input: EditorInputView::Typing(name, without_last(text)), ..editor },
                EditorOutcome::Nothing,
            ),
            Key::Enter => confirmed(editor, name, yaml_document(text)),
            Key::Esc => (
                EditorView { input: EditorInputView::Browsing, ..editor },
                EditorOutcome::Nothing,
            ),
            _ => (editor, EditorOutcome::Nothing),
        },
    }
}

/// What is said of a write that was tried.
pub open spec fn written_message(result: WriteFileResult, dry_run: bool) -> Seq<char> {
    if result.errors@.len() > 0 {
        join(texts(result.errors@), "; "@)
    } else {
        (if dry_run {
            "would write "@
        } else {
            "wrote "@
        }) + decimal(result.written as nat) + " tags"@
    }
}

/// The place of the row that was selected among other rows; the first where it is
/// not among them.
pub open spec fn selected_again(editor: EditorView, rows: Seq<EditorRowView>) -> nat {
    if editor.selected < editor.rows.len() {
        let place = row_place(rows, editor.rows[editor.selected as int].name);
        if place < rows.len() {
            place
        } else {
            0
        }
    } else {
        0
    }
}

/// The editor after a write that was tried, with the tags that the image has then.
pub open spec fn refreshed(
    editor: EditorView,
    result: WriteFileResult,
    dry_run: bool,
    fields: Seq<FieldView>,
) -> EditorView {
    EditorView {
        rows: image_rows(fields),
        selected: selected_again(editor, image_rows(fields)),
        message: written_message(result, dry_run),
        ..editor
    }
}

pub open spec fn value_result(parsed: Result<Value, String>) -> Result<Yaml, Seq<char>> {
    match parsed {
        Ok(value) => Ok(yaml_contents(value)),
        Err(error) => Err(error@),
    }
}

impl TagEditor {
    /// An editor of the tags of an image.
    pub fn new(image: FilePath, fields: &Vec<ExifField>) -> (r: TagEditor)
        ensures
            r@ == (EditorView {
                image: image@,
                rows: image_rows(field_views(fields@)),
                selected: 0,
                input: EditorInputView::Browsing,
                message: ""@,
            }),
    {
        let message = "".to_owned();
        TagEditor {
            image,
            rows: rows_of_image(fields),
            selected: 0,
            input: EditorInput::Browsing,
            message,
        }
    }

    /// Takes the value that was typed for a tag, or says why it is none.
    pub fn confirm(&mut self, name: String, parsed: Result<Value, String>) -> (r: EditorReaction)
        ensures
            (final(self)@, r@) == confirmed(old(self)@, name@, value_result(parsed)),
    {
        let value = match parsed {
            Ok(value) => value,
            Err(error) => {
                let mut message = "invalid value: ".to_owned();
                message.push_str(error.as_str());
                self.message = message;
                return EditorReaction::Nothing;
            },
        };
        self.input = EditorInput::Browsing;
        if is_blank_yaml_value(&value) {
            return EditorReaction::Nothing;
        }
        EditorReaction::Write(WriteTag { name, value }, copy_held_tags(&self.rows))
    }

    fn browse(&mut self, key: Key) -> (r: EditorReaction)
        requires
            old(self).input is Browsing,
        ensures
            (final(self)@, r@) == browsed(old(self)@, key),
    {
        match key {
            Key::Up => {
                if self.selected > 0 {
                    self.selected -= 1;
                }
            },
            Key::Down => {
                let n: usize = self.rows.len();
                if n > 0 && self.selected < n - 1 {
                    self.selected += 1;
                }
            },
            Key::Right | Key::Enter => {
                if self.selected < self.rows.len() {
                    proof {
                        assert(editor_rows(self.rows@)[self.selected as int]
                            == self.rows@[self.selected as int]@);
                    }
                    let row = &self.rows[self.selected];
                    self.input = EditorInput::Typing(row.name.clone(), row.text.clone());
                }
            },
            Key::Char(c) => {
                if c == 'a' {
                    self.input = EditorInput::Picking(0);
                }
            },
            Key::Left | Key::Esc => {
                return EditorReaction::Close;
            },
            _ => {},
        }
        EditorReaction::Nothing
    }

    fn pick(&self, place: usize, key: Key) -> (r: EditorInput)
        ensures
            r@ == picked(self@, place as nat, key),
    {
        let standard = standard_tags();
        proof {
            assert(standard_views(standard@).len() == standard@.len());
        }
        match key {
            Key::Up => EditorInput::Picking(
                if place > 0 {
                    place - 1
                } else {
                    place
                },
            ),
            Key::Down => EditorInput::Picking(
                if place < standard.len() {
                    place + 1
                } else {
                    place
                },
            ),
            Key::Right | Key::Enter => if place < standard.len() {
                proof {
                    assert(standard_views(standard@)[place as int].0 == standard@[place as int].name@);
                }
                let name = standard[place].name;
                EditorInput::Typing(name.to_owned(), text_of_row(&self.rows, name))
            } else {
                EditorInput::Naming("".to_owned())
            },
            Key::Left | Key::Esc => EditorInput::Browsing,
            _ => EditorInput::Picking(place),
        }
    }

    fn name_tag(&self, text: &str, key: Key) -> (r: EditorInput)
        ensures
            r@ == named(self@, text@, key),
    {
        match key {
            Key::Char(c) => {
                let mut text = text.to_owned();
                text.push(c);
                EditorInput::Naming(text)
            },
            Key::Backspace => EditorInput::Naming(text_without_last(text)),
            Key::Enter => {
                let name = text_trim(text);
                if name.is_empty() {
                    EditorInput::Naming(text.to_owned())
                } else {
                    EditorInput::Typing(name.to_owned(), text_of_row(&self.rows, name))
                }
            },
            Key::Esc => EditorInput::Browsing,
            _ => EditorInput::Naming(text.to_owned()),
        }
    }

    fn type_value(&mut self, name: String, text: String, key: Key) -> (r: EditorReaction)
        requires
            old(self)@.input == EditorInputView::Typing(name@, text@),
        ensures
            (final(self)@, r@) == edited(old(self)@, key),
    {
        match key {
            Key::Char(c) => {
                let mut text = text;
                text.push(c);
                self.input = EditorInput::Typing(name, text);
                EditorReaction::Nothing
            },
            Key::Backspace => {
                self.input = EditorInput::Typing(name, text_without_last(text.as_str()));
                EditorReaction::Nothing
            },
            Key::Enter => {
                let parsed = parse_document(text.as_str());
                self.confirm(name, parsed)
            },
            Key::Esc => {
                self.input = EditorInput::Browsing;
                EditorReaction::Nothing
            },
            _ => EditorReaction::Nothing,
        }
    }

    /// Handles a key.
    pub fn handle_key(&mut self, key: Key) -> (r: EditorReaction)
        ensures
            (final(self)@, r@) == edited(old(self)@, key),
    {
        match &self.input {
            EditorInput::Browsing => self.browse(key),
            EditorInput::Picking(place) => {
                let input = self.pick(*place, key);
                self.input = input;
                EditorReaction::Nothing
            },
            EditorInput::Naming(text) => {
                let input = self.name_tag(text.as_str(), key);
                self.input = input;
                EditorReaction::Nothing
            },
            EditorInput::Typing(name, text) => {
                let name = name.clone();
                let text = text.clone();
                self.type_value(name, text, key)
            },
        }
    }

    /// Says what became of a write, and shows the tags that the image has after it.
    pub fn finish_write(&mut self, result: &WriteFileResult, dry_run: bool, fields: &Vec<ExifField>)
        ensures
            final(self)@ == refreshed(old(self)@, *result, dry_run, field_views(fields@)),
    {
        self.message = if result.errors.len() > 0 {
            join_texts(&result.errors, "; ")
        } else {
            let mut message = (if dry_run {
                "would write "
            } else {
                "wrote "
            }).to_owned();
            message.push_str(decimal_text(result.written).as_str());
            message.push_str(" tags");
            message
        };
        let rows = rows_of_image(fields);
        let mut selected: usize = 0;
        if self.selected < self.rows.len() {
            proof {
                assert(editor_rows(self.rows@)[self.selected as int]
                    == self.rows@[self.selected as int]@);
            }
            let place: usize = find_row(&rows, self.rows[self.selected].name.as_str());
            if place < rows.len() {
                selected = place;
            }
        }
        self.selected = selected;
        self.rows = rows;
    }
}

// ---------------------------------------------------------------------------
// The session
// ---------------------------------------------------------------------------
/// What the browser does with images.
#[derive(Debug, Clone, Copy, PartialEq, Eq, Structural)]
pub enum InteractiveMode {
    Read,
    Write,
}

/// The browser with its mode, and the editor while one is open.
#[derive(Debug)]
pub struct InteractiveSession {
    pub app: InteractiveApp,
    pub mode: InteractiveMode,
    pub editor: Option<TagEditor>,
}

/// What a key in the session leads to.
#[derive(Debug)]
pub enum SessionReaction {
    /// What the browser makes of it.
    Browse(Reaction),
    /// The tags of an image are to be edited.
    Edit(FilePath),
    /// A tag is written to an image, in view of the custom tags that it holds.
    Write(FilePath, WriteTag, Vec<CustomTag>),
}

/// Whether the image that is selected is to be edited on a key.
pub open spec fn asks_to_edit(session: InteractiveSession, key: Key) -> bool {
    &&& session.mode == InteractiveMode::Write
    &&& session.app.focus == InteractiveFocus::List
    &&& key == Key::Right || key == Key::Enter
    &&& session.app.selected < session.app.entries@.len()
    &&& session.app.entries@[session.app.selected as int].kind == InteractiveEntryKind::File
}

/// The other mode.
pub open spec fn other_mode(mode: InteractiveMode) -> InteractiveMode {
    match mode {
        InteractiveMode::Read => InteractiveMode::Write,
        InteractiveMode::Write => InteractiveMode::Read,
    }
}

/// What a key leads to: the editor takes them all while it is open, but for the
/// one that quits; otherwise one changes the mode, those that open an image edit
/// it in write mode, and the rest is up to the browser.
pub open spec fn session_reacts(
    before: InteractiveSession,
    after: InteractiveSession,
    input: KeyInput,
    r: SessionReaction,
) -> bool {
    if !input.is_press {
        after == before && r == SessionReaction::Browse(Reaction::Nothing)
    } else if input.key == Key::Char('c') && input.with_control_only {
        after == before && r == SessionReaction::Browse(Reaction::Quit)
    } else if before.editor is Some {
        let editor = before.editor->Some_0;
        let (view, outcome) = edited(editor@, input.key);
        &&& after.app == before.app
        &&& after.mode == before.mode
        &&& match outcome {
            EditorOutcome::Nothing => {
                &&& r == SessionReaction::Browse(Reaction::Nothing)
                &&& after.editor is Some
                &&& after.editor->Some_0@ == view
            },
            EditorOutcome::Close => {
                &&& r == SessionReaction::Browse(Reaction::Nothing)
                &&& after.editor is None
            },
            EditorOutcome::Write(tag, held) => {
                &&& r matches SessionReaction::Write(image, written, custom)
                &&& image@ == editor.image@
                &&& written@ == tag
                &&& custom_views(custom@) == held
                &&& after.editor is Some
                &&& after.editor->Some_0@ == view
            },
        }
    } else if input.key == Key::Char('w') {
        &&& after == (InteractiveSession { mode: other_mode(before.mode), ..before })
        &&& r == SessionReaction::Browse(Reaction::Nothing)
    } else if asks_to_edit(before, input.key) {
        &&& after == before
        &&& r matches SessionReaction::Edit(image)
        &&& image@ == before.app.entries@[before.app.selected as int].path@
    } else {
        &&& after.mode == before.mode
        &&& after.editor is None
        &&& r matches SessionReaction::Browse(reaction)
        &&& reacts(before.app, after.app, input, reaction)
    }
}

impl InteractiveSession {
    /// A session that reads.
    pub fn new(app: InteractiveApp) -> (r: InteractiveSession)
        ensures
            r.app == app,
            r.mode == InteractiveMode::Read,
            r.editor is None,
    {
        InteractiveSession { app, mode: InteractiveMode::Read, editor: None }
    }

    fn opens_editor(&self, key: Key) -> (r: bool)
        ensures
            r == asks_to_edit(*self, key),
    {
        let opens = match key {
            Key::Right | Key::Enter => true,
            _ => false,
        };
        opens && self.mode == InteractiveMode::Write && self.app.focus == InteractiveFocus::List
            && self.app.selected < self.app.entries.len()
            && self.app.entries[self.app.selected].kind == InteractiveEntryKind::File
    }

    /// Handles a key.
    pub fn handle_event(&mut self, input: KeyInput) -> (r: SessionReaction)
        requires
            old(self).app.wf(),
        ensures
            final(self).app.wf(),
            session_reacts(*old(self), *final(self), input, r),
    {
        if !input.is_press {
            return SessionReaction::Browse(Reaction::Nothing);
        }
        let typed: Option<char> = match input.key {
            Key::Char(c) => Some(c),
            _ => None,
        };
        if let Some(c) = typed {
            if c == 'c' && input.with_control_only {
                return SessionReaction::Browse(Reaction::Quit);
            }
        }
        if let Some(editor) = self.editor.take() {
            let mut editor = editor;
            let reaction = editor.handle_key(input.key);
            return match reaction {
                EditorReaction::Nothing => {
                    self.editor = Some(editor);
                    SessionReaction::Browse(Reaction::Nothing)
                },
                EditorReaction::Close => SessionReaction::Browse(Reaction::Nothing),
                EditorReaction::Write(tag, held) => {
                    let image = editor.image.duplicate();
                    self.editor = Some(editor);
                    SessionReaction::Write(image, tag, held)
                },
            };
        }
        if let Some(c) = typed {
            if c == 'w' {
                self.mode = match self.mode {
                    InteractiveMode::Read => InteractiveMode::Write,
                    InteractiveMode::Write => InteractiveMode::Read,
                };
                return SessionReaction::Browse(Reaction::Nothing);
            }
        }
        if self.opens_editor(input.key) {
            return SessionReaction::Edit(self.app.entries[self.app.selected].path.duplicate());
        }
        SessionReaction::Browse(self.app.handle_event(input))
    }

    /// Opens the editor on an image, or shows why the image cannot be read.
    pub fn open_editor(&mut self, image: FilePath, reading: &Result<ExifData, String>)
        ensures
            final(self).mode == old(self).mode,
            match *reading {
                Ok(exif) => {
                    &&& final(self).app == old(self).app
                    &&& final(self).editor is Some
                    &&& final(self).editor->Some_0@ == (EditorView {
                        image: image@,
                        rows: image_rows(field_views(exif.fields@)),
                        selected: 0,
                        input: EditorInputView::Browsing,
                        message: ""@,
                    })
                },
                Err(error) => {
                    &&& final(self).editor == old(self).editor
                    &&& final(self).app.preview@ == ContentView::Plain(
                        failure_preview(""@, image, error@),
                    )
                    &&& final(self).app == (InteractiveApp {
                        preview: final(self).app.preview,
                        ..old(self).app
                    })
                },
            },
    {
        match reading {
            Ok(exif) => {
                self.editor = Some(TagEditor::new(image, &exif.fields));
            },
            Err(error) => {
                self.app.preview = read_preview(&image, &Err(error.clone()));
            },
        }
    }

    /// Takes what became of a write and what the image reads after it. An image that
    /// cannot be read any more is not edited any more.
    pub fn finish_write(
        &mut self,
        result: &WriteFileResult,
        dry_run: bool,
        reading: &Result<ExifData, String>,
    )
        ensures
            final(self).mode == old(self).mode,
            match old(self).editor {
                None => *final(self) == *old(self),
                Some(editor) => match *reading {
                    Ok(exif) => {
                        &&& final(self).app == old(self).app
                        &&& final(self).editor is Some
                        &&& final(self).editor->Some_0@ == refreshed(
                            editor@,
                            *result,
                            dry_run,
                            field_views(exif.fields@),
                        )
                    },
                    Err(error) => {
                        &&& final(self).editor is None
                        &&& final(self).app.preview@ == ContentView::Plain(
                            failure_preview(""@, editor.image, error@),
                        )
                        &&& final(self).app == (InteractiveApp {
                            preview: final(self).app.preview,
                            ..old(self).app
                        })
                    },
                },
            },
    {
        if let Some(editor) = self.editor.take() {
            let mut editor = editor;
            match reading {
                Ok(exif) => {
                    editor.finish_write(result, dry_run, &exif.fields);
                    self.editor = Some(editor);
                },
                Err(error) => {
                    self.app.preview = read_preview(&editor.image, &Err(error.clone()));
                },
            }
        }
    }

    /// The title of the preview.
    pub fn preview_title(&self) -> (r: &'static str)
        ensures
            r@ == (if self.app.selected >= self.app.entries@.len() {
                "Read"@
            } else if self.app.entries@[self.app.selected as int].kind
                != InteractiveEntryKind::File {
                "Directory"@
            } else if self.mode == InteractiveMode::Write {
                "Write"@
            } else {
                "Read"@
            }),
    {
        if self.mode == InteractiveMode::Write && self.app.selected < self.app.entries.len()
            && self.app.entries[self.app.selected].kind == InteractiveEntryKind::File {
            "Write"
        } else {
            self.app.selected_preview_title()
        }
    }
}

// ---------------------------------------------------------------------------
// Laws
// ---------------------------------------------------------------------------
/// Changing the mode twice changes nothing.
pub proof fn law_mode_toggles(mode: InteractiveMode)
    ensures
        other_mode(mode) != mode,
        other_mode(other_mode(mode)) == mode,
{
}

/// The tags that can be picked are those that can be written, each where it is
/// filed.
pub proof fn law_picker_lists_writable_tags(k: int)
    requires
        0 <= k < all_standard_tags().len(),
    ensures
        exists|tag: WritableView|
            #[trigger] tag_name(tag) == Some(all_standard_tags()[k].0) && slot_of(tag)
                == all_standard_tags()[k].1,
{
    let (name, slot) = all_standard_tags()[k];
    if k < 8 {
        let tag = if k == 0 {
            WritableView::Text(TextTag::Artist, ""@)
        } else if k == 1 {
            WritableView::Text(TextTag::Copyright, ""@)
        } else if k == 2 {
            WritableView::Text(TextTag::ImageDescription, ""@)
        } else if k == 3 {
            WritableView::Text(TextTag::Make, ""@)
        } else if k == 4 {
            WritableView::Text(TextTag::Model, ""@)
        } else if k == 5 {
            WritableView::Text(TextTag::ModifyDate, ""@)
        } else if k == 6 {
            WritableView::Short(ShortTag::Orientation, 0)
        } else {
            WritableView::Text(TextTag::Software, ""@)
        };
        assert(tag_name(tag) == Some(name) && slot_of(tag) == slot);
    } else if k < 24 {
        let none = Seq::<UnsignedRatio>::empty();
        let tag = if k == 8 {
            WritableView::Text(TextTag::CreateDate, ""@)
        } else if k == 9 {
            WritableView::Text(TextTag::DateTimeOriginal, ""@)
        } else if k == 10 {
            WritableView::Short(ShortTag::ExposureProgram, 0)
        } else if k == 11 {
            WritableView::Ratios(RatioTag::ExposureTime, none)
        } else if k == 12 {
            WritableView::Ratios(RatioTag::FNumber, none)
        } else if k == 13 {
            WritableView::Bytes(ByteTag::FileSource, Seq::empty())
        } else if k == 14 {
            WritableView::Short(ShortTag::Flash, 0)
        } else if k == 15 {
            WritableView::Ratios(RatioTag::FocalLength, none)
        } else if k == 16 {
            WritableView::Short(ShortTag::Iso, 0)
        } else if k == 17 {
            WritableView::IsoSpeed(0)
        } else if k == 18 {
            WritableView::Text(TextTag::LensMake, ""@)
        } else if k == 19 {
            WritableView::Text(TextTag::LensModel, ""@)
        } else if k == 20 {
            WritableView::Short(ShortTag::LightSource, 0)
        } else if k == 21 {
            WritableView::Ratios(RatioTag::MaxApertureValue, none)
        } else if k == 22 {
            WritableView::Short(ShortTag::MeteringMode, 0)
        } else {
            WritableView::Short(ShortTag::WhiteBalance, 0)
        };
        assert(tag_name(tag) == Some(name) && slot_of(tag) == slot);
    } else {
        let none = Seq::<UnsignedRatio>::empty();
        let tag = if k == 24 {
            WritableView::Ratios(RatioTag::GpsAltitude, none)
        } else if k == 25 {
            WritableView::Bytes(ByteTag::GpsAltitudeRef, Seq::empty())
        } else if k == 26 {
            WritableView::Ratios(RatioTag::GpsLatitude, none)
        } else if k == 27 {
            WritableView::Text(TextTag::GpsLatitudeRef, ""@)
        } else if k == 28 {
            WritableView::Ratios(RatioTag::GpsLongitude, none)
        } else if k == 29 {
            WritableView::Text(TextTag::GpsLongitudeRef, ""@)
        } else {
            WritableView::Text(TextTag::GpsMapDatum, ""@)
        };
        assert(tag_name(tag) == Some(name) && slot_of(tag) == slot);
    }
}

/// Every tag that can be written under a name of its own can be picked.
pub proof fn law_writable_tags_can_be_picked(tag: WritableView)
    requires
        tag_name(tag) is Some,
    ensures
        all_standard_tags().contains((tag_name(tag)->Some_0, slot_of(tag))),
{
    let all = all_standard_tags();
    let k: int = match tag {
        WritableView::Text(kind, _) => match kind {
            TextTag::Artist => 0,
            TextTag::Copyright => 1,
            TextTag::CreateDate => 8,
            TextTag::DateTimeOriginal => 9,
            TextTag::GpsLatitudeRef => 27,
            TextTag::GpsLongitudeRef => 29,
            TextTag::GpsMapDatum => 30,
            TextTag::ImageDescription => 2,
            TextTag::LensMake => 18,
            TextTag::LensModel => 19,
            TextTag::Make => 3,
            TextTag::Model => 4,
            TextTag::ModifyDate => 5,
            TextTag::Software => 7,
        },
        WritableView::Bytes(kind, _) => match kind {
            ByteTag::FileSource => 13,
            _ => 25,
        },
        WritableView::Short(kind, _) => match kind {
            ShortTag::ExposureProgram => 10,
            ShortTag::Flash => 14,
            ShortTag::Iso => 16,
            ShortTag::LightSource => 20,
            ShortTag::MeteringMode => 22,
            ShortTag::Orientation => 6,
            ShortTag::WhiteBalance => 23,
        },
        WritableView::IsoSpeed(_) => 17,
        WritableView::Ratios(kind, _) => match kind {
            RatioTag::ExposureTime => 11,
            RatioTag::FNumber => 12,
            RatioTag::FocalLength => 15,
            RatioTag::GpsAltitude => 24,
            RatioTag::GpsLatitude => 26,
            RatioTag::GpsLongitude => 28,
            RatioTag::MaxApertureValue => 21,
        },
    };
    assert(all[k] == (tag_name(tag)->Some_0, slot_of(tag)));
}

/// No key changes the rows: they are the tags of the image as it was last read.
pub proof fn law_keys_change_no_row(editor: EditorView, key: Key)
    ensures
        edited(editor, key).0.rows == editor.rows,
        edited(editor, key).0.image == editor.image,
{
}

proof fn lemma_field_rows_hold_nothing(fields: Seq<FieldView>)
    ensures
        held_tags(field_rows(fields)) == Seq::<CustomView>::empty(),
    decreases fields.len(),
{
    if fields.len() > 0 {
        let before = field_rows(fields.drop_last());
        lemma_field_rows_hold_nothing(fields.drop_last());
        if writable_name(fields.last()) is Some {
            assert(field_rows(fields).drop_last() =~= before);
        }
    }
}

proof fn lemma_custom_rows_are_held(rows: Seq<EditorRowView>, tags: Seq<CustomView>)
    ensures
        held_tags(rows + custom_rows(tags)) == held_tags(rows) + tags,
    decreases tags.len(),
{
    let all = rows + custom_rows(tags);
    if tags.len() == 0 {
        assert(all =~= rows);
        assert(held_tags(rows) + tags =~= held_tags(rows));
    } else {
        let before = tags.drop_last();
        lemma_custom_rows_are_held(rows, before);
        assert(all.drop_last() =~= rows + custom_rows(before));
        assert(all.last() == custom_rows(tags).last());
        assert((held_tags(rows) + before).push(tags.last()) =~= held_tags(rows) + tags);
    }
}

/// An edit is written in view of the custom tags that the image really holds.
pub proof fn law_edits_see_the_custom_tags(fields: Seq<FieldView>)
    ensures
        held_tags(image_rows(fields)) == tags_of_fields(fields),
{
    lemma_field_rows_hold_nothing(fields);
    lemma_custom_rows_are_held(field_rows(fields), tags_of_fields(fields));
    assert(Seq::<CustomView>::empty() + tags_of_fields(fields) =~= tags_of_fields(fields));
}

} // verus!
