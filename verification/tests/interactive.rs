use std::path::PathBuf;

use exifmeta::ansi::{
    ansi_to_preview_lines, PreviewColor, PreviewLine, PreviewStyle, PreviewWeight,
};
use exifmeta::interactive::{
    display_path, interactive_entries, interactive_entry_style, read_preview,
    render_directory_preview, rendered_line_count, FolderItem, InteractiveApp,
    InteractiveDirectorySelection, InteractiveEntry, InteractiveEntryKind, InteractiveFocus,
    InteractivePreviewContent, InteractivePreviewResult, Key, KeyInput, PreviewRequest, Reaction,
};
use exifmeta::path::FilePath;
use exifmeta::spinner::{spinner_presets, SpinnerPreset};

const PLAIN: PreviewStyle = PreviewStyle { color: None, weight: PreviewWeight::Unset };

fn path(text: &str) -> FilePath {
    FilePath::from_path(PathBuf::from(text))
}

fn folder(text: &str) -> FolderItem {
    FolderItem { path: path(text), is_directory: true, is_file: false, signature: None }
}

fn file(text: &str, signature: &[u8]) -> FolderItem {
    FolderItem {
        path: path(text),
        is_directory: false,
        is_file: true,
        signature: Some(signature.to_vec()),
    }
}

fn jpg(text: &str) -> FolderItem {
    file(text, &[0xff, 0xd8, 0xff, 0xd9])
}

fn app_with(items: Vec<FolderItem>) -> (InteractiveApp, Option<PreviewRequest>) {
    let entries = interactive_entries(Some(path("/photos")), items);
    InteractiveApp::new(path("/photos/roll"), entries, SpinnerPreset::Dots)
}

fn press(key: Key) -> KeyInput {
    KeyInput { key, with_control_only: false, is_press: true }
}

fn select(app: &mut InteractiveApp, label: &str) {
    app.selected = app
        .entries
        .iter()
        .position(|entry| entry.label == label)
        .expect("entry should exist");
}

fn preview_result_for_selected(app: &InteractiveApp, preview: &str) -> InteractivePreviewResult {
    let entry = app.entries.get(app.selected).expect("selected entry should exist");
    InteractivePreviewResult {
        request_id: app.preview_request_id,
        kind: entry.kind,
        path: entry.path.duplicate(),
        preview: InteractivePreviewContent::plain(preview),
    }
}

fn line_text(line: &PreviewLine) -> String {
    line.spans.iter().map(|span| span.text.as_str()).collect::<String>()
}

fn numbered_lines(count: usize) -> InteractivePreviewContent {
    let lines = (0..count).map(|index| format!("line {index}")).collect::<Vec<_>>().join("\n");
    InteractivePreviewContent::plain(&lines)
}

#[test]
fn interactive_entries_include_folders_and_supported_files_only() {
    let entries = interactive_entries(
        Some(path("/photos")),
        vec![
            file("/photos/roll/a.txt", b"not an image"),
            jpg("/photos/roll/b.jpg"),
            file("/photos/roll/c.tif", &[0x49, 0x49, 0x2a, 0x00]),
            folder("/photos/roll/nested"),
        ],
    );
    let labels = entries.iter().map(|entry| entry.label.as_str()).collect::<Vec<_>>();

    assert_eq!(labels, ["../", "nested/", "b.jpg", "c.tif"]);
    assert_eq!(entries[0].kind, InteractiveEntryKind::Parent);
    assert_eq!(entries[1].kind, InteractiveEntryKind::Directory);
    assert_eq!(entries[2].kind, InteractiveEntryKind::File);
}

#[test]
fn interactive_app_navigates_into_child_and_back_to_parent() {
    let (mut app, _) = app_with(vec![folder("/photos/roll/nested")]);
    select(&mut app, "nested/");
    let reaction = app.focus_preview_if_file_or_open_selected();
    match reaction {
        Reaction::Open(directory, selection) => {
            assert_eq!(directory, PathBuf::from("/photos/roll/nested"));
            assert_eq!(selection, InteractiveDirectorySelection::First);
        }
        _ => panic!("a folder opens"),
    }

    let nested = interactive_entries(
        Some(path("/photos/roll")),
        vec![jpg("/photos/roll/nested/image.jpg")],
    );
    app.open_directory_at(
        path("/photos/roll/nested"),
        nested,
        InteractiveDirectorySelection::First,
    );
    assert_eq!(app.current_dir.raw, PathBuf::from("/photos/roll/nested"));
    assert_eq!(app.selected, 0);
    assert!(app.entries.iter().any(|entry| entry.label == "image.jpg"));

    match app.open_parent() {
        Reaction::Open(directory, selection) => {
            assert_eq!(directory, PathBuf::from("/photos/roll"));
            assert_eq!(selection, InteractiveDirectorySelection::ReselectChild);
        }
        _ => panic!("a nested folder has a parent"),
    }
    let outer = interactive_entries(
        Some(path("/photos")),
        vec![folder("/photos/roll/a"), folder("/photos/roll/nested")],
    );
    app.open_directory_at(
        path("/photos/roll"),
        outer,
        InteractiveDirectorySelection::ReselectChild,
    );
    assert_eq!(app.current_dir.raw, PathBuf::from("/photos/roll"));
    assert_eq!(app.entries[app.selected].label, "nested/");
}

#[test]
fn interactive_app_selection_updates_preview() {
    let (mut app, _) = app_with(vec![jpg("/photos/roll/image.jpg")]);
    select(&mut app, "image.jpg");
    app.preview = InteractivePreviewContent::plain("previous preview");
    app.request_preview_for_selection();

    assert!(app.preview_loading);
    assert!(!app.preview_loading_visible);
    assert_eq!(app.preview.as_plain(), Some("previous preview"));

    let result = preview_result_for_selected(&app, "<No EXIF metadata found>");
    app.apply_preview_result(result);

    assert!(!app.preview_loading);
    assert!(!app.preview_loading_visible);
    assert!(app
        .preview
        .as_plain()
        .is_some_and(|preview| preview.contains("<No EXIF metadata found>")));
}

#[test]
fn interactive_read_preview_reports_missing_file_errors() {
    let preview = read_preview(
        &path("/tmp/interactive-missing.jpg"),
        &Err("failed to open /tmp/interactive-missing.jpg: No such file".to_string()),
    );
    let preview = preview.as_plain().expect("missing image preview should be plain text");

    assert!(preview.contains("Failed to read"));
    assert!(preview.contains("failed to open"));
}

#[test]
fn interactive_read_preview_preserves_read_colours() {
    let preview = read_preview(
        &path("image.jpg"),
        &Ok("<No EXIF metadata found>\n\u{1b}[33myellow\u{1b}[0m".to_string()),
    );
    let lines = preview.as_lines().expect("read preview should render styled lines");

    assert_eq!(line_text(&lines[0]), "<No EXIF metadata found>");
    assert_eq!(lines[1].spans[0].style.color, Some(PreviewColor::Yellow));
}

#[test]
fn ansi_preview_lines_preserve_read_styles() {
    let lines = ansi_to_preview_lines(
        "\u{1b}[94mblue\u{1b}[0m plain\n\u{1b}[96mcyan\u{1b}[0m \u{1b}[33myellow\u{1b}[0m",
    );

    assert_eq!(line_text(&lines[0]), "blue plain");
    assert_eq!(lines[0].spans[0].style.color, Some(PreviewColor::LightBlue));
    assert_eq!(lines[0].spans[1].style, PLAIN);
    assert_eq!(lines[1].spans[0].style.color, Some(PreviewColor::LightCyan));
    assert_eq!(lines[1].spans[1].style, PLAIN);
    assert_eq!(lines[1].spans[2].style.color, Some(PreviewColor::Yellow));
}

#[test]
fn preview_lines_are_never_missing() {
    assert_eq!(ansi_to_preview_lines("").len(), 1);
    assert_eq!(ansi_to_preview_lines("\n\n").len(), 3);
}

#[test]
fn preview_styles_follow_combined_codes() {
    let lines = ansi_to_preview_lines("\u{1b}[1;96mbold cyan\u{1b}[22;39mplain");
    assert_eq!(
        lines[0].spans[0].style,
        PreviewStyle { color: Some(PreviewColor::LightCyan), weight: PreviewWeight::Bold }
    );
    assert_eq!(
        lines[0].spans[1].style,
        PreviewStyle { color: None, weight: PreviewWeight::NotBold }
    );
}

#[test]
fn interactive_app_preserves_valid_selection_after_directory_refresh() {
    let (mut app, _) =
        app_with(vec![folder("/photos/roll/nested"), jpg("/photos/roll/z.jpg")]);
    select(&mut app, "z.jpg");
    app.open_directory_at(
        path("/photos/roll/nested"),
        interactive_entries(Some(path("/photos/roll")), Vec::new()),
        InteractiveDirectorySelection::First,
    );

    assert_eq!(app.selected, 0);
}

#[test]
fn interactive_key_press_moves_selection_once() {
    let (mut app, _) = app_with(vec![jpg("/photos/roll/a.jpg"), jpg("/photos/roll/b.jpg")]);
    let start = app.selected;

    app.handle_event(press(Key::Down));

    assert_eq!(app.selected, start + 1);

    app.handle_event(press(Key::Up));

    assert_eq!(app.selected, start);
}

#[test]
fn interactive_key_release_does_not_move_selection() {
    let (mut app, _) = app_with(vec![jpg("/photos/roll/a.jpg"), jpg("/photos/roll/b.jpg")]);
    let start = app.selected;

    app.handle_event(KeyInput { key: Key::Down, with_control_only: false, is_press: false });

    assert_eq!(app.selected, start);
}

#[test]
fn interactive_key_repeat_does_not_move_selection() {
    let (mut app, _) = app_with(vec![jpg("/photos/roll/a.jpg"), jpg("/photos/roll/b.jpg")]);
    let start = app.selected;

    // A key that repeats is no key press.
    app.handle_event(KeyInput { key: Key::Down, with_control_only: false, is_press: false });

    assert_eq!(app.selected, start);
}

#[test]
fn interactive_quit_keys_quit() {
    let (mut app, _) = app_with(vec![jpg("/photos/roll/a.jpg")]);
    assert!(matches!(app.handle_event(press(Key::Char('q'))), Reaction::Quit));
    assert!(matches!(app.handle_event(press(Key::Esc)), Reaction::Quit));
    assert!(matches!(
        app.handle_event(KeyInput { key: Key::Char('c'), with_control_only: true, is_press: true }),
        Reaction::Quit
    ));
    assert!(matches!(app.handle_event(press(Key::Char('c'))), Reaction::Nothing));
}

#[test]
fn interactive_navigation_keys_still_open_child_and_parent_on_press() {
    let (mut app, _) = app_with(vec![folder("/photos/roll/nested")]);
    select(&mut app, "nested/");

    match app.handle_event(press(Key::Right)) {
        Reaction::Open(directory, _) => {
            assert_eq!(directory, PathBuf::from("/photos/roll/nested"));
        }
        _ => panic!("right press should open child"),
    }
    app.open_directory_at(
        path("/photos/roll/nested"),
        interactive_entries(Some(path("/photos/roll")), Vec::new()),
        InteractiveDirectorySelection::First,
    );

    match app.handle_event(press(Key::Left)) {
        Reaction::Open(directory, _) => assert_eq!(directory, PathBuf::from("/photos/roll")),
        _ => panic!("left press should open parent"),
    }
}

#[test]
fn interactive_right_on_file_focuses_preview_without_changing_directory() {
    let (mut app, _) = app_with(vec![jpg("/photos/roll/image.jpg")]);
    select(&mut app, "image.jpg");
    app.request_preview_for_selection();

    let reaction = app.handle_event(press(Key::Right));

    assert!(matches!(reaction, Reaction::Nothing));
    assert_eq!(app.current_dir.raw, PathBuf::from("/photos/roll"));
    assert_eq!(app.focus, InteractiveFocus::Preview);
}

#[test]
fn interactive_preview_focus_scrolls_instead_of_moving_selection() {
    let (mut app, _) = app_with(vec![jpg("/photos/roll/image.jpg")]);
    app.focus = InteractiveFocus::Preview;
    app.preview = numbered_lines(20);
    app.set_preview_viewport(80, 5);
    let selected = app.selected;

    app.handle_event(press(Key::Down));

    assert_eq!(app.selected, selected);
    assert_eq!(app.preview_scroll, 1);
}

#[test]
fn interactive_left_returns_preview_focus_to_list() {
    let (mut app, _) = app_with(vec![jpg("/photos/roll/image.jpg")]);
    app.focus = InteractiveFocus::Preview;

    app.handle_event(press(Key::Left));

    assert_eq!(app.focus, InteractiveFocus::List);
}

#[test]
fn interactive_selection_change_resets_preview_focus_and_scroll() {
    let (mut app, _) = app_with(vec![jpg("/photos/roll/a.jpg"), jpg("/photos/roll/b.jpg")]);
    app.focus = InteractiveFocus::Preview;
    app.preview_scroll = 4;

    app.select_next();

    assert_eq!(app.focus, InteractiveFocus::List);
    assert_eq!(app.preview_scroll, 0);
}

#[test]
fn interactive_preview_scroll_clamps_to_viewport() {
    let (mut app, _) = app_with(vec![jpg("/photos/roll/image.jpg")]);
    app.focus = InteractiveFocus::Preview;
    app.preview = numbered_lines(12);
    app.set_preview_viewport(80, 5);

    app.handle_event(press(Key::PageDown));
    app.handle_event(press(Key::PageDown));
    assert_eq!(app.preview_scroll, 7);

    app.handle_event(press(Key::End));
    assert_eq!(app.preview_scroll, 7);

    app.handle_event(press(Key::PageUp));
    app.handle_event(press(Key::PageUp));
    assert_eq!(app.preview_scroll, 0);
}

#[test]
fn rendered_lines_are_counted_with_wrapping() {
    assert_eq!(rendered_line_count("", 10), 1);
    assert_eq!(rendered_line_count("abcdefghij", 10), 1);
    assert_eq!(rendered_line_count("abcdefghijk", 10), 2);
    assert_eq!(rendered_line_count("a\n\nb", 10), 3);
}

#[test]
fn interactive_display_path_removes_windows_verbatim_prefixes() {
    assert_eq!(display_path(&path(r"\\?\C:\Users\photos")), r"C:\Users\photos");
    assert_eq!(
        display_path(&path(r"\\?\UNC\server\share\photos")),
        r"\\server\share\photos"
    );
}

#[test]
fn interactive_matching_preview_result_updates_panel() {
    let (mut app, _) = app_with(vec![jpg("/photos/roll/image.jpg")]);
    select(&mut app, "image.jpg");
    app.request_preview_for_selection();

    let result = preview_result_for_selected(&app, "ready preview");
    app.apply_preview_result(result);

    assert!(!app.preview_loading);
    assert!(!app.preview_loading_visible);
    assert_eq!(app.preview.as_plain(), Some("ready preview"));
}

#[test]
fn interactive_stale_preview_result_is_discarded() {
    let (mut app, _) = app_with(vec![jpg("/photos/roll/a.jpg"), jpg("/photos/roll/b.jpg")]);
    select(&mut app, "a.jpg");
    app.request_preview_for_selection();
    let stale = preview_result_for_selected(&app, "stale preview");

    select(&mut app, "b.jpg");
    app.preview = InteractivePreviewContent::plain("previous preview");
    app.request_preview_for_selection();

    app.apply_preview_result(stale);

    assert!(app.preview_loading);
    assert!(!app.preview_loading_visible);
    assert_eq!(app.preview, InteractivePreviewContent::plain("previous preview"));
}

#[test]
fn interactive_directory_preview_renders_browsable_entries_only() {
    let directory = path("/photos/roll");
    let entries = interactive_entries(
        Some(path("/photos")),
        vec![
            jpg("/photos/roll/image.jpg"),
            folder("/photos/roll/nested"),
            file("/photos/roll/notes.txt", b"not browsable"),
        ],
    );

    let preview = render_directory_preview(&directory, &Ok(entries));
    let lines = preview.as_lines().expect("directory preview should render styled lines");

    assert!(line_text(&lines[0]).is_empty());
    assert_eq!(line_text(&lines[1]), "nested/");
    assert_eq!(
        lines[1].spans[0].style,
        interactive_entry_style(InteractiveEntryKind::Directory)
    );
    assert_eq!(line_text(&lines[2]), "image.jpg");
    assert_eq!(
        lines[2].spans[0].style,
        interactive_entry_style(InteractiveEntryKind::File)
    );
    let rendered = lines.iter().map(line_text).collect::<Vec<_>>().join("\n");
    assert!(!rendered.contains(&display_path(&directory)));
    assert!(!rendered.contains("Contents:"));
    assert!(!rendered.contains("../"));
    assert!(!rendered.contains("Folder"));
    assert!(!rendered.contains("Parent directory"));
    assert!(!rendered.contains("notes.txt"));
}

#[test]
fn interactive_empty_directory_preview_renders_empty_message_only() {
    let entries: Vec<InteractiveEntry> = interactive_entries(Some(path("/photos")), Vec::new());

    let preview = render_directory_preview(&path("/photos/roll"), &Ok(entries));
    let lines = preview.as_lines().expect("directory preview should render styled lines");

    assert_eq!(lines.len(), 2);
    assert!(line_text(&lines[0]).is_empty());
    assert_eq!(line_text(&lines[1]), "<No directories or photos in this directory>");
}

#[test]
fn interactive_preview_title_tracks_selected_entry_kind() {
    let (mut app, _) =
        app_with(vec![folder("/photos/roll/nested"), jpg("/photos/roll/image.jpg")]);
    select(&mut app, "../");
    assert_eq!(app.selected_preview_title(), "Directory");

    select(&mut app, "nested/");
    assert_eq!(app.selected_preview_title(), "Directory");

    select(&mut app, "image.jpg");
    assert_eq!(app.selected_preview_title(), "Read");
}

#[test]
fn interactive_preview_loading_appears_after_delay() {
    let (mut app, _) = app_with(vec![jpg("/photos/roll/image.jpg")]);
    select(&mut app, "image.jpg");
    app.preview = InteractivePreviewContent::plain("previous preview");
    app.request_preview_for_selection();

    app.tick_preview_spinner(false, "*");
    assert!(!app.preview_loading_visible);
    assert_eq!(app.preview.as_plain(), Some("previous preview"));

    app.tick_preview_spinner(true, "*");

    assert!(app.preview_loading_visible);
    let preview = app.preview.as_plain().expect("loading preview should be plain text");
    assert!(preview.contains("Reading EXIF preview"));
    assert!(preview.starts_with('*'));
    assert!(!preview.contains("image.jpg"));
    assert!(!preview.contains("/photos/roll"));
    assert!(!preview.contains("\n\n"));
}

#[test]
fn spinner_presets_match_allowed_names() {
    let names = spinner_presets()
        .iter()
        .copied()
        .map(SpinnerPreset::name)
        .collect::<Vec<_>>();
    assert_eq!(
        names,
        [
            "dots", "pulse", "fillsweep", "diagswipe", "cascade", "columns", "sand", "waverows",
            "scan",
        ]
    );
}
