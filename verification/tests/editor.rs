use std::path::PathBuf;

use exifmeta::editor::{
    standard_tags, EditorInput, EditorReaction, InteractiveMode, InteractiveSession,
    SessionReaction, TagEditor,
};
use exifmeta::exif_data::{exif_data, ExifData};
use exifmeta::interactive::{
    interactive_entries, FolderItem, InteractiveApp, InteractiveFocus, Key, KeyInput, Reaction,
};
use exifmeta::path::FilePath;
use exifmeta::payload::{encode_custom_tags, CustomTag};
use exifmeta::plan::WriteTag;
use exifmeta::spinner::SpinnerPreset;
use exifmeta::write_run::WriteFileResult;
use serde_yaml::Value as YamlValue;

fn path(text: &str) -> FilePath {
    FilePath::from_path(PathBuf::from(text))
}

fn press(key: Key) -> KeyInput {
    KeyInput { key, with_control_only: false, is_press: true }
}

fn type_text(editor: &mut TagEditor, text: &str) {
    for char in text.chars() {
        assert!(matches!(editor.handle_key(Key::Char(char)), EditorReaction::Nothing));
    }
}

/// Attributes with a maker and two custom tags.
fn image_data() -> ExifData {
    let payload = encode_custom_tags(&vec![
        CustomTag { name: "FilmRoll".to_string(), value: YamlValue::Number(35.into()) },
        CustomTag {
            name: "FilmName".to_string(),
            value: YamlValue::String("Double-X".to_string()),
        },
    ])
    .expect("custom tags should encode");
    let mut data = vec![0x4d, 0x4d, 0x00, 0x2a, 0x00, 0x00, 0x00, 0x08];
    data.extend_from_slice(&[0, 2]);
    data.extend_from_slice(&[0x01, 0x0f, 0, 2, 0, 0, 0, 2, b'Z', 0, 0, 0]);
    data.extend_from_slice(&[0x87, 0x69, 0, 4, 0, 0, 0, 1, 0, 0, 0, 100]);
    data.extend_from_slice(&[0, 0, 0, 0]);
    data.resize(100, 0);
    data.extend_from_slice(&[0, 1, 0x92, 0x86, 0, 7]);
    data.extend_from_slice(&(payload.len() as u32).to_be_bytes());
    data.extend_from_slice(&[0, 0, 0, 200, 0, 0, 0, 0]);
    data.resize(200, 0);
    data.extend_from_slice(&payload);
    let exif = exif::Reader::new().read_raw(data).expect("test EXIF should parse");
    exif_data(&exif)
}

fn editor() -> TagEditor {
    TagEditor::new(path("roll/one.jpg"), &image_data().fields)
}

fn written(reaction: EditorReaction) -> (WriteTag, Vec<CustomTag>) {
    match reaction {
        EditorReaction::Write(tag, held) => (tag, held),
        _ => panic!("the edit should be written"),
    }
}

fn names(tags: &[CustomTag]) -> Vec<&str> {
    tags.iter().map(|tag| tag.name.as_str()).collect()
}

fn row_names(editor: &TagEditor) -> Vec<&str> {
    editor.rows.iter().map(|row| row.name.as_str()).collect()
}

/// Adds a custom tag, and gives what is written.
fn add_by_name(editor: &mut TagEditor, name: &str, value: &str) -> (WriteTag, Vec<CustomTag>) {
    editor.handle_key(Key::Char('a'));
    for _ in 0..standard_tags().len() {
        editor.handle_key(Key::Down);
    }
    editor.handle_key(Key::Enter);
    type_text(editor, name);
    editor.handle_key(Key::Enter);
    type_text(editor, value);
    written(editor.handle_key(Key::Enter))
}

#[test]
fn editors_list_writable_and_custom_tags() {
    let editor = editor();
    let rows = editor
        .rows
        .iter()
        .map(|row| (row.name.as_str(), row.text.as_str(), row.custom.is_some()))
        .collect::<Vec<_>>();
    assert_eq!(
        rows,
        [("Make", "Z", false), ("FilmRoll", "35", true), ("FilmName", "Double-X", true)]
    );
}

#[test]
fn confirmed_edits_are_written_in_view_of_the_custom_tags() {
    let mut editor = editor();
    editor.handle_key(Key::Enter);
    assert!(matches!(&editor.input, EditorInput::Typing(name, text) if name == "Make" && text == "Z"));
    editor.handle_key(Key::Backspace);
    type_text(&mut editor, "Nikon");
    let (tag, held) = written(editor.handle_key(Key::Enter));

    assert_eq!(tag.name, "Make");
    assert_eq!(tag.value.as_str(), Some("Nikon"));
    assert_eq!(names(&held), ["FilmRoll", "FilmName"]);
    assert_eq!(held[0].value.as_i64(), Some(35));

    editor.handle_key(Key::Down);
    editor.handle_key(Key::Right);
    editor.handle_key(Key::Backspace);
    type_text(&mut editor, "6");
    let (tag, held) = written(editor.handle_key(Key::Enter));

    assert_eq!(tag.name, "FilmRoll");
    assert_eq!(tag.value.as_i64(), Some(36));
    assert_eq!(names(&held), ["FilmRoll", "FilmName"]);
}

#[test]
fn keys_leave_the_rows_to_the_next_reading() {
    let mut editor = editor();
    for name in ["Photographer", "ISOSpeedRatings", "$Location", "Lab"] {
        let (tag, held) = add_by_name(&mut editor, name, "400");
        assert_eq!(tag.name, name);
        assert_eq!(names(&held), ["FilmRoll", "FilmName"]);
        assert_eq!(row_names(&editor), ["Make", "FilmRoll", "FilmName"]);
    }
}

#[test]
fn tags_are_added_from_the_picker_or_by_name() {
    let mut editor = editor();
    editor.handle_key(Key::Char('a'));
    editor.handle_key(Key::Enter);
    assert!(matches!(&editor.input, EditorInput::Typing(name, _) if name == "Artist"));
    type_text(&mut editor, "Harry");
    let (tag, _) = written(editor.handle_key(Key::Enter));
    assert_eq!(tag.name, "Artist");

    editor.handle_key(Key::Char('a'));
    for _ in 0..standard_tags().len() + 5 {
        editor.handle_key(Key::Down);
    }
    editor.handle_key(Key::Enter);
    assert!(matches!(&editor.input, EditorInput::Naming(_)));
    editor.handle_key(Key::Enter);
    assert!(matches!(&editor.input, EditorInput::Naming(_)));
    type_text(&mut editor, " Lab ");
    editor.handle_key(Key::Enter);
    assert!(matches!(&editor.input, EditorInput::Typing(name, _) if name == "Lab"));
    type_text(&mut editor, "home");
    let (tag, held) = written(editor.handle_key(Key::Enter));
    assert_eq!(tag.name, "Lab");
    assert_eq!(names(&held), ["FilmRoll", "FilmName"]);
}

#[test]
fn blank_invalid_and_cancelled_edits_write_nothing() {
    let mut editor = editor();
    editor.handle_key(Key::Enter);
    editor.handle_key(Key::Backspace);
    assert!(matches!(editor.handle_key(Key::Enter), EditorReaction::Nothing));
    assert!(matches!(&editor.input, EditorInput::Browsing));
    assert_eq!(editor.rows[0].text, "Z");

    editor.handle_key(Key::Enter);
    type_text(&mut editor, "[");
    assert!(matches!(
        editor.confirm("Make".to_string(), Err("broken".to_string())),
        EditorReaction::Nothing
    ));
    assert_eq!(editor.message, "invalid value: broken");
    assert!(matches!(&editor.input, EditorInput::Typing(_, _)));
    editor.handle_key(Key::Esc);
    assert!(matches!(&editor.input, EditorInput::Browsing));
    assert!(matches!(editor.handle_key(Key::Esc), EditorReaction::Close));
}

#[test]
fn writes_are_reported() {
    let mut editor = editor();
    let fields = image_data().fields;
    let result = WriteFileResult { written: 2, ..WriteFileResult::default() };
    editor.finish_write(&result, false, &fields);
    assert_eq!(editor.message, "wrote 2 tags");
    editor.finish_write(&result, true, &fields);
    assert_eq!(editor.message, "would write 2 tags");
    let failed = WriteFileResult {
        errors: vec!["one".to_string(), "two".to_string()],
        ..WriteFileResult::default()
    };
    editor.finish_write(&failed, false, &fields);
    assert_eq!(editor.message, "one; two");
}

#[test]
fn rows_follow_the_image_after_a_write() {
    let mut editor = editor();
    editor.handle_key(Key::Down);
    editor.handle_key(Key::Down);
    let result = WriteFileResult { written: 1, ..WriteFileResult::default() };

    let mut fields = image_data().fields;
    fields.remove(0);
    editor.finish_write(&result, false, &fields);
    assert_eq!(row_names(&editor), ["FilmRoll", "FilmName"]);
    assert_eq!(editor.selected, 1);

    editor.finish_write(&result, false, &Vec::new());
    assert!(editor.rows.is_empty());
    assert_eq!(editor.selected, 0);

    editor.finish_write(&result, false, &image_data().fields);
    assert_eq!(row_names(&editor), ["Make", "FilmRoll", "FilmName"]);
    assert_eq!(editor.selected, 0);
}

fn session() -> InteractiveSession {
    let items = vec![FolderItem {
        path: path("/photos/roll/image.jpg"),
        is_directory: false,
        is_file: true,
        signature: None,
    }];
    let entries = interactive_entries(Some(path("/photos")), items);
    let (app, _) = InteractiveApp::new(path("/photos/roll"), entries, SpinnerPreset::Dots);
    let mut session = InteractiveSession::new(app);
    session.handle_event(press(Key::Down));
    session
}

#[test]
fn sessions_read_until_write_mode_is_chosen() {
    let mut session = session();
    assert_eq!(session.mode, InteractiveMode::Read);
    assert_eq!(session.preview_title(), "Read");
    session.handle_event(press(Key::Char('w')));
    assert_eq!(session.mode, InteractiveMode::Write);
    assert_eq!(session.preview_title(), "Write");
    session.handle_event(press(Key::Char('w')));
    assert_eq!(session.mode, InteractiveMode::Read);

    let reaction = session.handle_event(press(Key::Enter));
    assert!(matches!(reaction, SessionReaction::Browse(Reaction::Nothing)));
    assert_eq!(session.app.focus, InteractiveFocus::Preview);
}

#[test]
fn images_are_edited_in_write_mode() {
    let mut session = session();
    session.handle_event(press(Key::Char('w')));
    match session.handle_event(press(Key::Right)) {
        SessionReaction::Edit(image) => {
            assert_eq!(image.text, "/photos/roll/image.jpg");
            session.open_editor(image, &Ok(image_data()));
        }
        _ => panic!("the image should be edited"),
    }
    assert!(session.editor.is_some());

    // The editor takes the keys that the browser would.
    session.handle_event(press(Key::Enter));
    session.handle_event(press(Key::Char('w')));
    session.handle_event(press(Key::Char('q')));
    assert_eq!(session.mode, InteractiveMode::Write);
    match session.handle_event(press(Key::Enter)) {
        SessionReaction::Write(image, tag, held) => {
            assert_eq!(image.text, "/photos/roll/image.jpg");
            assert_eq!(tag.value.as_str(), Some("Zwq"));
            assert_eq!(names(&held), ["FilmRoll", "FilmName"]);
        }
        _ => panic!("the edit should be written"),
    }
    let result = WriteFileResult { written: 1, ..WriteFileResult::default() };
    session.finish_write(&result, false, &Ok(image_data()));
    assert_eq!(session.editor.as_ref().map(|editor| editor.message.as_str()), Some("wrote 1 tags"));
    session.handle_event(press(Key::Left));
    assert!(session.editor.is_none());

    let quit = KeyInput { key: Key::Char('c'), with_control_only: true, is_press: true };
    assert!(matches!(
        session.handle_event(quit),
        SessionReaction::Browse(Reaction::Quit)
    ));
}

#[test]
fn unreadable_images_are_not_edited() {
    let mut session = session();
    session.open_editor(path("image.jpg"), &Err("failed to open".to_string()));
    assert!(session.editor.is_none());
    assert_eq!(
        session.app.preview.as_plain(),
        Some("Failed to read image.jpg\n\nfailed to open")
    );
}

#[test]
fn images_that_become_unreadable_are_no_longer_edited() {
    let mut session = session();
    let result = WriteFileResult::default();
    let before = session.app.preview.as_plain().map(str::to_owned);
    session.finish_write(&result, false, &Err("failed to open".to_string()));
    assert_eq!(session.app.preview.as_plain().map(str::to_owned), before);

    session.open_editor(path("image.jpg"), &Ok(image_data()));
    session.finish_write(&result, false, &Err("failed to open".to_string()));
    assert!(session.editor.is_none());
    assert_eq!(
        session.app.preview.as_plain(),
        Some("Failed to read image.jpg\n\nfailed to open")
    );
}
