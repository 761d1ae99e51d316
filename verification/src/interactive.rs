//! Browsing folders and reading images: the state of the browser, and how it
//! changes.

use crate::ansi::{
    ansi_to_preview_lines, line_views, plain_style, preview_lines, PreviewColor, PreviewLine,
    PreviewSpan, PreviewStyle, PreviewWeight, SpanView,
};
use crate::file_kind::{is_supported, is_supported_image_file};
use crate::order::{
    is_text_before, lemma_text_before_asymmetric, lemma_text_before_splits, stable_sort,
    stable_sorted, text_before, Ranking,
};
use crate::path::{file_name, name_of, paths_equal, FilePath};
use crate::spinner::SpinnerPreset;
use crate::text::{lower_text, replace, split_on, text_lower, text_replace, text_split, texts};
use std::path::PathBuf;
use vstd::prelude::*;
use vstd::string::*;

verus! {

// ---------------------------------------------------------------------------
// Entries
// ---------------------------------------------------------------------------
#[derive(Debug, Clone, Copy, PartialEq, Eq, Structural)]
pub enum InteractiveEntryKind {
    Parent,
    Directory,
    File,
}

/// A line of the list of a folder.
#[derive(Debug)]
pub struct InteractiveEntry {
    pub kind: InteractiveEntryKind,
    pub label: String,
    pub path: FilePath,
}

/// Something that was found in a folder.
#[derive(Debug)]
pub struct FolderItem {
    pub path: FilePath,
    pub is_directory: bool,
    pub is_file: bool,
    /// The first bytes of a file, where it could be read.
    pub signature: Option<Vec<u8>>,
}

/// What an entry says.
pub struct EntryView {
    pub kind: InteractiveEntryKind,
    pub label: Seq<char>,
    pub path: FilePath,
}

impl View for InteractiveEntry {
    type V = EntryView;

    open spec fn view(&self) -> EntryView {
        EntryView { kind: self.kind, label: self.label@, path: self.path }
    }
}

pub open spec fn entry_views(entries: Seq<InteractiveEntry>) -> Seq<EntryView> {
    entries.map_values(|entry: InteractiveEntry| entry@)
}

/// Entries by label, whatever the case of the letters.
pub struct ByLabel {}

impl Ranking<InteractiveEntry> for ByLabel {
    open spec fn before(a: &InteractiveEntry, b: &InteractiveEntry) -> bool {
        text_before(lower_text(a.label@), lower_text(b.label@))
    }

    fn is_before(a: &InteractiveEntry, b: &InteractiveEntry) -> (r: bool) {
        is_text_before(
            text_lower(a.label.as_str()).as_str(),
            text_lower(b.label.as_str()).as_str(),
        )
    }

    proof fn lemma_asymmetric(a: &InteractiveEntry, b: &InteractiveEntry) {
        lemma_text_before_asymmetric(lower_text(a.label@), lower_text(b.label@));
    }

    proof fn lemma_splits(a: &InteractiveEntry, middle: &InteractiveEntry, b: &InteractiveEntry) {
        lemma_text_before_splits(
            lower_text(a.label@),
            lower_text(middle.label@),
            lower_text(b.label@),
        );
    }
}

/// The folders among what was found.
pub open spec fn folder_entries(items: Seq<FolderItem>) -> Seq<EntryView>
    decreases items.len(),
{
    if items.len() == 0 {
        Seq::empty()
    } else {
        let before = folder_entries(items.drop_last());
        let item = items.last();
        if item.is_directory {
            before.push(
                EntryView {
                    kind: InteractiveEntryKind::Directory,
                    label: name_of(item.path) + "/"@,
                    path: item.path,
                },
            )
        } else {
            before
        }
    }
}

/// The supported images among what was found.
pub open spec fn image_entries(items: Seq<FolderItem>) -> Seq<EntryView>
    decreases items.len(),
{
    if items.len() == 0 {
        Seq::empty()
    } else {
        let before = image_entries(items.drop_last());
        let item = items.last();
        if !item.is_directory && item.is_file && is_supported(item.path, item.signature) {
            before.push(
                EntryView {
                    kind: InteractiveEntryKind::File,
                    label: name_of(item.path),
                    path: item.path,
                },
            )
        } else {
            before
        }
    }
}

/// Whether entries are the sorted form of what `views` say.
pub open spec fn is_sorted_form(entries: Seq<InteractiveEntry>, views: Seq<EntryView>) -> bool {
    exists|unsorted: Seq<InteractiveEntry>|
        #![trigger entry_views(unsorted)]
        entry_views(unsorted) == views && entries == stable_sorted::<InteractiveEntry, ByLabel>(
            unsorted,
        )
}

/// Whether entries are those of a folder: the folder above it, if there is one,
/// then the folders in it, then its images, each by label.
pub open spec fn are_entries_of(
    entries: Seq<InteractiveEntry>,
    parent: Option<FilePath>,
    items: Seq<FolderItem>,
) -> bool {
    exists|folders: Seq<InteractiveEntry>, images: Seq<InteractiveEntry>|
        #![trigger is_sorted_form(folders, folder_entries(items)), is_sorted_form(images, image_entries(items))]
        {
            &&& is_sorted_form(folders, folder_entries(items))
            &&& is_sorted_form(images, image_entries(items))
            &&& entry_views(entries) == (match parent {
                Some(path) => seq![
                    EntryView { kind: InteractiveEntryKind::Parent, label: "../"@, path },
                ],
                None => Seq::empty(),
            }) + entry_views(folders) + entry_views(images)
        }
}

/// The entries of a folder.
pub fn interactive_entries(parent: Option<FilePath>, items: Vec<FolderItem>) -> (r: Vec<
    InteractiveEntry,
>)
    ensures
        are_entries_of(r@, parent, items@),
{
    let ghost input = items@;
    let mut folders: Vec<InteractiveEntry> = Vec::new();
    let mut images: Vec<InteractiveEntry> = Vec::new();
    proof {
        assert(entry_views(folders@) =~= Seq::empty());
        assert(entry_views(images@) =~= Seq::empty());
    }
    for item in it: items
        invariant
            it.seq() == input,
            entry_views(folders@) == folder_entries(input.take(it.index())),
            entry_views(images@) == image_entries(input.take(it.index())),
    {
        let ghost folders_before = entry_views(folders@);
        let ghost images_before = entry_views(images@);
        proof {
            assert(input.take(it.index() + 1).drop_last() =~= input.take(it.index()));
        }
        if item.is_directory {
            let mut label = file_name(&item.path);
            label.push_str("/");
            let ghost text = label@;
            folders.push(
                InteractiveEntry {
                    kind: InteractiveEntryKind::Directory,
                    label,
                    path: item.path,
                },
            );
            proof {
                assert(entry_views(folders@) =~= folders_before.push(
                    EntryView {
                        kind: InteractiveEntryKind::Directory,
                        label: text,
                        path: item.path,
                    },
                ));
            }
        } else if item.is_file && is_supported_image_file(&item.path, &item.signature) {
            let label = file_name(&item.path);
            let ghost text = label@;
            images.push(
                InteractiveEntry { kind: InteractiveEntryKind::File, label, path: item.path },
            );
            proof {
                assert(entry_views(images@) =~= images_before.push(
                    EntryView { kind: InteractiveEntryKind::File, label: text, path: item.path },
                ));
            }
        }
    }
    let ghost unsorted_folders = folders@;
    let ghost unsorted_images = images@;
    let mut folders = stable_sort::<InteractiveEntry, ByLabel>(folders);
    let mut images = stable_sort::<InteractiveEntry, ByLabel>(images);
    let ghost sorted_folders = folders@;
    let ghost sorted_images = images@;
    let mut out: Vec<InteractiveEntry> = Vec::new();
    match parent {
        Some(path) => {
            out.push(
                InteractiveEntry {
                    kind: InteractiveEntryKind::Parent,
                    label: "../".to_owned(),
                    path,
                },
            );
        },
        None => {},
    }
    out.append(&mut folders);
    out.append(&mut images);
    proof {
        assert(input.take(input.len() as int) =~= input);
        assert(entry_views(unsorted_folders) == folder_entries(input));
        assert(entry_views(unsorted_images) == image_entries(input));
        assert(is_sorted_form(sorted_folders, folder_entries(input)));
        assert(is_sorted_form(sorted_images, image_entries(input)));
        assert(entry_views(out@) =~= (match parent {
            Some(path) => seq![
                EntryView { kind: InteractiveEntryKind::Parent, label: "../"@, path },
            ],
            None => Seq::empty(),
        }) + entry_views(sorted_folders) + entry_views(sorted_images));
    }
    out
}

// ---------------------------------------------------------------------------
// Previews
// ---------------------------------------------------------------------------
/// A path without the prefixes that Windows puts before long ones.
pub open spec fn without_verbatim_prefixes(text: Seq<char>) -> Seq<char> {
    replace(replace(text, "\\\\?\\UNC\\"@, "\\\\"@), "\\\\?\\"@, ""@)
}

/// A text without the prefixes of verbatim paths.
pub fn strip_windows_verbatim_prefixes(text: &str) -> (r: String)
    ensures
        r@ == without_verbatim_prefixes(text@),
{
    proof {
        reveal_strlit("\\\\?\\UNC\\");
        reveal_strlit("\\\\?\\");
        assert("\\\\?\\UNC\\"@.len() == 8 && "\\\\?\\"@.len() == 4);
    }
    text_replace(text_replace(text, "\\\\?\\UNC\\", "\\\\").as_str(), "\\\\?\\", "")
}

/// A path as the browser shows it.
pub fn display_path(path: &FilePath) -> (r: String)
    ensures
        r@ == without_verbatim_prefixes(path.text@),
{
    strip_windows_verbatim_prefixes(path.text.as_str())
}

/// What is shown beside the list.
#[derive(Debug, PartialEq, Eq)]
pub enum InteractivePreviewContent {
    Plain(String),
    Lines(Vec<PreviewLine>),
}

pub enum ContentView {
    Plain(Seq<char>),
    Lines(Seq<Seq<SpanView>>),
}

impl View for InteractivePreviewContent {
    type V = ContentView;

    open spec fn view(&self) -> ContentView {
        match self {
            InteractivePreviewContent::Plain(text) => ContentView::Plain(text@),
            InteractivePreviewContent::Lines(lines) => ContentView::Lines(line_views(lines@)),
        }
    }
}

/// The lines of a text, without an empty one behind the last line break.
pub open spec fn line_count(text: Seq<char>) -> nat {
    let parts = split_on(text, '\n');
    if parts.last().len() == 0 {
        (parts.len() - 1) as nat
    } else {
        parts.len()
    }
}

/// The rows that a line takes where each holds `width` characters.
pub open spec fn wrapped_rows(line: Seq<char>, width: nat) -> nat {
    if line.len() == 0 {
        1
    } else {
        ((line.len() + width - 1) / width as int) as nat
    }
}

pub open spec fn wrapped_total(lines: Seq<Seq<char>>, width: nat) -> nat
    decreases lines.len(),
{
    if lines.len() == 0 {
        0
    } else {
        wrapped_total(lines.drop_last(), width) + wrapped_rows(lines.last(), width)
    }
}

/// The rows that a text takes: at least one.
pub open spec fn text_rows(text: Seq<char>, width: nat) -> nat {
    let rows = if width == 0 {
        line_count(text)
    } else {
        wrapped_total(split_on(text, '\n'), width)
    };
    if rows == 0 {
        1
    } else {
        rows
    }
}

/// How many lines a text takes.
#[verifier::loop_isolation(false)]
pub fn rendered_line_count(text: &str, width: u16) -> (r: u128)
    ensures
        r == text_rows(text@, width as nat),
{
    let parts = text_split(text, '\n');
    let ghost all = texts(parts@);
    if width == 0 {
        let n: usize = parts.len();
        proof {
            assert(all.last() == parts@[n - 1]@);
        }
        let rows: usize = if parts[n - 1].as_str().is_empty() {
            n - 1
        } else {
            n
        };
        return if rows == 0 {
            1
        } else {
            rows as u128
        };
    }
    let w: usize = width as usize;
    let mut rows: u128 = 0;
    let mut i: usize = 0;
    while i < parts.len()
        invariant
            i <= parts.len(),
            all == texts(parts@),
            w == width,
            w > 0,
            rows == wrapped_total(all.take(i as int), width as nat),
            rows <= i * usize::MAX,
        decreases parts@.len() - i,
    {
        let length: usize = parts[i].as_str().unicode_len();
        proof {
            assert(all.take(i + 1).drop_last() =~= all.take(i as int));
            assert(all.take(i + 1).last() == parts@[i as int]@);
            assert(i * usize::MAX + usize::MAX == (i + 1) * usize::MAX) by (nonlinear_arith);
            assert((i + 1) * usize::MAX <= u128::MAX) by (nonlinear_arith)
                requires
                    i + 1 <= usize::MAX,
                    usize::MAX <= 0xffff_ffff_ffff_ffff,
            ;
        }
        let taken: usize = if length == 0 {
            1
        } else {
            (length - 1) / w + 1
        };
        proof {
            if length > 0 {
                lemma_div_ceil(length as int, w as int);
            }
        }
        rows += taken as u128;
        i += 1;
    }
    proof {
        assert(all.take(all.len() as int) =~= all);
    }
    if rows == 0 {
        1
    } else {
        rows
    }
}

proof fn lemma_div_ceil(n: int, w: int)
    requires
        n > 0,
        w > 0,
    ensures
        (n + w - 1) / w == (n - 1) / w + 1,
        (n - 1) / w + 1 <= n,
{
    assert((n - 1 + w) / w == (n - 1) / w + 1) by (nonlinear_arith)
        requires
            w > 0,
            n > 0,
    ;
    assert((n - 1) / w <= n - 1) by (nonlinear_arith)
        requires
            w > 0,
            n > 0,
    ;
}

/// The rows that a preview takes.
pub open spec fn content_rows(content: ContentView, width: nat) -> nat {
    match content {
        ContentView::Plain(text) => text_rows(text, width),
        ContentView::Lines(lines) => if lines.len() == 0 {
            1
        } else {
            lines.len()
        },
    }
}

impl InteractivePreviewContent {
    /// Content that is a text.
    pub fn plain(text: &str) -> (r: InteractivePreviewContent)
        ensures
            r@ == ContentView::Plain(text@),
    {
        InteractivePreviewContent::Plain(text.to_owned())
    }

    /// How many lines a text takes.
    pub fn rendered_line_count(&self, width: u16) -> (r: u128)
        ensures
            r == content_rows(self@, width as nat),
    {
        match self {
            InteractivePreviewContent::Plain(text) => rendered_line_count(text.as_str(), width),
            InteractivePreviewContent::Lines(lines) => {
                proof {
                    assert(line_views(lines@).len() == lines@.len());
                }
                if lines.len() == 0 {
                    1
                } else {
                    lines.len() as u128
                }
            },
        }
    }

    /// The text of content that is one.
    pub fn as_plain(&self) -> (r: Option<&str>)
        ensures
            match r {
                Some(text) => self@ == ContentView::Plain(text@),
                None => self is Lines,
            },
    {
        match self {
            InteractivePreviewContent::Plain(text) => Some(text.as_str()),
            InteractivePreviewContent::Lines(_) => None,
        }
    }

    /// The lines of content that has some.
    pub fn as_lines(&self) -> (r: Option<&Vec<PreviewLine>>)
        ensures
            match r {
                Some(lines) => self@ == ContentView::Lines(line_views(lines@)),
                None => self is Plain,
            },
    {
        match self {
            InteractivePreviewContent::Plain(_) => None,
            InteractivePreviewContent::Lines(lines) => Some(lines),
        }
    }
}

/// The style of an entry.
pub open spec fn entry_style(kind: InteractiveEntryKind) -> PreviewStyle {
    match kind {
        InteractiveEntryKind::Parent => PreviewStyle {
            color: Some(PreviewColor::Yellow),
            weight: PreviewWeight::Unset,
        },
        InteractiveEntryKind::Directory => PreviewStyle {
            color: Some(PreviewColor::Cyan),
            weight: PreviewWeight::Unset,
        },
        InteractiveEntryKind::File => plain_style(),
    }
}

/// The style of an entry.
pub fn interactive_entry_style(kind: InteractiveEntryKind) -> (r: PreviewStyle)
    ensures
        r == entry_style(kind),
{
    match kind {
        InteractiveEntryKind::Parent => PreviewStyle {
            color: Some(PreviewColor::Yellow),
            weight: PreviewWeight::Unset,
        },
        InteractiveEntryKind::Directory => PreviewStyle {
            color: Some(PreviewColor::Cyan),
            weight: PreviewWeight::Unset,
        },
        InteractiveEntryKind::File => PreviewStyle { color: None, weight: PreviewWeight::Unset },
    }
}

/// One line for each entry but the folder above.
pub open spec fn listing_lines(entries: Seq<EntryView>) -> Seq<Seq<SpanView>>
    decreases entries.len(),
{
    if entries.len() == 0 {
        Seq::empty()
    } else {
        let before = listing_lines(entries.drop_last());
        let entry = entries.last();
        if entry.kind == InteractiveEntryKind::Parent {
            before
        } else {
            before.push(seq![(entry.label, entry_style(entry.kind))])
        }
    }
}

/// The preview of a folder: a blank line, and what is in it.
pub open spec fn folder_preview(entries: Seq<EntryView>) -> Seq<Seq<SpanView>> {
    seq![Seq::empty()] + (if listing_lines(entries).len() == 0 {
        seq![seq![("<No directories or photos in this directory>"@, plain_style())]]
    } else {
        listing_lines(entries)
    })
}

/// What is shown where something could not be read.
pub open spec fn failure_preview(what: Seq<char>, path: FilePath, error: Seq<char>) -> Seq<char> {
    "Failed to read "@ + what + without_verbatim_prefixes(path.text@) + "\n\n"@ + error
}

fn one_span(text: &str, style: PreviewStyle) -> (r: PreviewLine)
    ensures
        r@ == seq![(text@, style)],
{
    let mut spans: Vec<PreviewSpan> = Vec::new();
    spans.push(PreviewSpan { text: text.to_owned(), style });
    let line = PreviewLine { spans };
    proof {
        assert(line@ =~= seq![(text@, style)]);
    }
    line
}

/// The preview of a folder, or why it cannot be read.
pub fn render_directory_preview(
    directory: &FilePath,
    entries: &Result<Vec<InteractiveEntry>, String>,
) -> (r: InteractivePreviewContent)
    ensures
        r@ == (match *entries {
            Ok(entries) => ContentView::Lines(folder_preview(entry_views(entries@))),
            Err(error) => ContentView::Plain(failure_preview("folder "@, *directory, error@)),
        }),
{
    match entries {
        Ok(entries) => {
            let ghost all = entry_views(entries@);
            let mut lines: Vec<PreviewLine> = Vec::new();
            let blank = PreviewLine { spans: Vec::new() };
            proof {
                assert(blank@ =~= Seq::empty());
            }
            lines.push(blank);
            let mut i: usize = 0;
            proof {
                assert(line_views(lines@) =~= seq![Seq::empty()] + Seq::empty());
            }
            while i < entries.len()
                invariant
                    i <= entries@.len(),
                    all == entry_views(entries@),
                    line_views(lines@) == seq![Seq::<SpanView>::empty()] + listing_lines(
                        all.take(i as int),
                    ),
                decreases entries@.len() - i,
            {
                let ghost before = line_views(lines@);
                let entry = &entries[i];
                proof {
                    assert(all.take(i + 1).drop_last() =~= all.take(i as int));
                    assert(all.take(i + 1).last() == entry@);
                }
                match entry.kind {
                    InteractiveEntryKind::Parent => {},
                    _ => {
                        let line = one_span(
                            entry.label.as_str(),
                            interactive_entry_style(entry.kind),
                        );
                        let ghost shown = line@;
                        lines.push(line);
                        proof {
                            assert(line_views(lines@) =~= before.push(shown));
                        }
                    },
                }
                i += 1;
                proof {
                    assert(line_views(lines@) =~= seq![Seq::<SpanView>::empty()] + listing_lines(
                        all.take(i as int),
                    ));
                }
            }
            proof {
                assert(all.take(all.len() as int) =~= all);
                assert(line_views(lines@).len() == lines@.len());
            }
            if lines.len() == 1 {
                lines.push(
                    one_span(
                        "<No directories or photos in this directory>",
                        PreviewStyle { color: None, weight: PreviewWeight::Unset },
                    ),
                );
                proof {
                    assert(line_views(lines@) =~= folder_preview(all));
                }
            }
            InteractivePreviewContent::Lines(lines)
        },
        Err(error) => {
            let mut text = "Failed to read ".to_owned();
            text.push_str("folder ");
            text.push_str(display_path(directory).as_str());
            text.push_str("\n\n");
            text.push_str(error.as_str());
            InteractivePreviewContent::Plain(text)
        },
    }
}

/// The preview of an image: its reading, or why it cannot be read.
pub fn read_preview(image: &FilePath, reading: &Result<String, String>) -> (r:
    InteractivePreviewContent)
    ensures
        r@ == (match *reading {
            Ok(text) => ContentView::Lines(preview_lines(without_verbatim_prefixes(text@))),
            Err(error) => ContentView::Plain(failure_preview(""@, *image, error@)),
        }),
{
    match reading {
        Ok(text) => InteractivePreviewContent::Lines(
            ansi_to_preview_lines(strip_windows_verbatim_prefixes(text.as_str()).as_str()),
        ),
        Err(error) => {
            let mut text = "Failed to read ".to_owned();
            text.push_str("");
            text.push_str(display_path(image).as_str());
            text.push_str("\n\n");
            text.push_str(error.as_str());
            InteractivePreviewContent::Plain(text)
        },
    }
}

/// What is shown while a preview is made; `frame` is the spinner as it stands.
pub open spec fn loading_text(entry: EntryView, frame: Seq<char>) -> Seq<char> {
    match entry.kind {
        InteractiveEntryKind::File => frame + " Reading EXIF preview"@,
        _ => frame + " Loading folder preview\n\n"@ + without_verbatim_prefixes(entry.path.text@),
    }
}

/// What is shown while a preview is on its way.
pub fn loading_preview(entry: &InteractiveEntry, frame: &str) -> (r: InteractivePreviewContent)
    ensures
        r@ == ContentView::Plain(loading_text(entry@, frame@)),
{
    let mut text = frame.to_owned();
    match entry.kind {
        InteractiveEntryKind::File => {
            text.push_str(" Reading EXIF preview");
        },
        _ => {
            text.push_str(" Loading folder preview\n\n");
            text.push_str(display_path(&entry.path).as_str());
        },
    }
    InteractivePreviewContent::Plain(text)
}

// ---------------------------------------------------------------------------
// The browser
// ---------------------------------------------------------------------------
#[derive(Debug, Clone, Copy, PartialEq, Eq, Structural)]
pub enum InteractiveFocus {
    List,
    Preview,
}

#[derive(Debug, Clone, Copy, PartialEq, Eq, Structural)]
pub enum InteractiveDirectorySelection {
    First,
    ReselectChild,
}

/// The keys that the browser knows.
#[derive(Debug, Clone, Copy, PartialEq, Eq, Structural)]
pub enum Key {
    Char(char),
    Esc,
    Up,
    Down,
    Left,
    Right,
    Enter,
    Backspace,
    PageUp,
    PageDown,
    Home,
    End,
    Other,
}

/// What was done to a key: whether it was pressed, and with nothing but the
/// control key.
#[derive(Debug, Clone, Copy)]
pub struct KeyInput {
    pub key: Key,
    pub with_control_only: bool,
    pub is_press: bool,
}

/// The browser: the folder and its entries, the preview of the entry that is
/// selected, and what is under way.
#[derive(Debug)]
pub struct InteractiveApp {
    pub current_dir: FilePath,
    pub entries: Vec<InteractiveEntry>,
    pub selected: usize,
    pub preview: InteractivePreviewContent,
    pub preview_scroll: u16,
    pub preview_viewport_width: u16,
    pub preview_viewport_height: u16,
    pub focus: InteractiveFocus,
    pub preview_request_id: u64,
    pub preview_loading: bool,
    pub preview_loading_visible: bool,
    pub preview_loading_deadline: bool,
    pub preview_spinner: SpinnerPreset,
}

/// A preview that is to be made.
#[derive(Debug, Clone, Copy, PartialEq, Eq, Structural)]
pub struct PreviewRequest {
    pub request_id: u64,
    pub entry: usize,
}

/// A preview that was made.
#[derive(Debug)]
pub struct InteractivePreviewResult {
    pub request_id: u64,
    pub kind: InteractiveEntryKind,
    pub path: FilePath,
    pub preview: InteractivePreviewContent,
}

/// What a key leads to beyond the state of the browser.
#[derive(Debug)]
pub enum Reaction {
    /// Nothing.
    Nothing,
    /// The browser ends.
    Quit,
    /// A preview is to be made.
    Preview(PreviewRequest),
    /// A folder is to be opened.
    Open(PathBuf, InteractiveDirectorySelection),
}

/// The farthest that a preview can be scrolled.
pub open spec fn max_scroll(content: ContentView, width: u16, height: u16) -> u16 {
    let rows = content_rows(content, width as nat);
    if rows <= height {
        0
    } else if rows - height <= u16::MAX {
        (rows - height) as u16
    } else {
        u16::MAX
    }
}

/// What a key leads to.
pub open spec fn reacts(
    before: InteractiveApp,
    after: InteractiveApp,
    input: KeyInput,
    r: Reaction,
) -> bool {
    if !input.is_press {
        after == before && r is Nothing
    } else if input.key == Key::Char('q') || (input.key == Key::Char('c')
        && input.with_control_only) {
        after == before && r is Quit
    } else if input.key == Key::Esc {
        &&& after.same_but_view(&before)
        &&& after.preview_scroll == before.preview_scroll
        &&& after.focus == InteractiveFocus::List
        &&& if before.focus == InteractiveFocus::Preview {
            r is Nothing
        } else {
            r is Quit
        }
    } else if before.focus == InteractiveFocus::Preview {
        &&& after.same_but_view(&before)
        &&& r is Nothing
        &&& after.focus == (if input.key == Key::Left {
            InteractiveFocus::List
        } else {
            InteractiveFocus::Preview
        })
        &&& after.preview_scroll == scrolled_by_key(
            before.preview_scroll,
            before.scroll_limit(),
            input.key,
        )
    } else {
        match input.key {
            Key::Up => if before.selected > 0 {
                &&& after.same_folder(&before)
                &&& after.selected == before.selected - 1
                &&& r matches Reaction::Preview(request)
                &&& after.has_requested(&before, Some(request))
            } else {
                after == before && r is Nothing
            },
            Key::Down => if before.selected + 1 < before.entries@.len() {
                &&& after.same_folder(&before)
                &&& after.selected == before.selected + 1
                &&& r matches Reaction::Preview(request)
                &&& after.has_requested(&before, Some(request))
            } else {
                after == before && r is Nothing
            },
            Key::Right | Key::Enter => opens_selected(before, after, r),
            Key::Left | Key::Backspace => after == before && r
                == parent_reaction(before),
            _ => after == before && r is Nothing,
        }
    }
}

impl InteractiveApp {
    /// An entry is selected, unless there is none.
    pub open spec fn wf(&self) -> bool {
        self.selected < self.entries@.len() || (self.selected == 0 && self.entries@.len() == 0)
    }

    /// The farthest that the preview can be scrolled.
    pub open spec fn scroll_limit(&self) -> u16 {
        max_scroll(self.preview@, self.preview_viewport_width, self.preview_viewport_height)
    }

    /// Whether the folder and its entries are those of another state.
    pub open spec fn same_folder(&self, other: &InteractiveApp) -> bool {
        self.current_dir == other.current_dir && self.entries == other.entries
            && self.preview_spinner == other.preview_spinner && self.preview_viewport_width
            == other.preview_viewport_width && self.preview_viewport_height
            == other.preview_viewport_height
    }

    /// Whether nothing but the focus and the scroll position differs.
    pub open spec fn same_but_view(&self, other: &InteractiveApp) -> bool {
        self.same_folder(other) && self.selected == other.selected && self.preview
            == other.preview && self.preview_request_id == other.preview_request_id
            && self.preview_loading == other.preview_loading && self.preview_loading_visible
            == other.preview_loading_visible && self.preview_loading_deadline
            == other.preview_loading_deadline
    }

    /// Whether the state is the one after a preview was asked for, with `selected`
    /// selected.
    pub open spec fn has_requested(&self, before: &InteractiveApp, request: Option<PreviewRequest>) -> bool {
        &&& self.preview_scroll == 0
        &&& self.focus == InteractiveFocus::List
        &&& self.preview_request_id == (if before.preview_request_id == u64::MAX {
            0
        } else {
            (before.preview_request_id + 1) as u64
        })
        &&& !self.preview_loading_visible
        &&& if self.entries@.len() == 0 {
            &&& request is None
            &&& !self.preview_loading
            &&& !self.preview_loading_deadline
            &&& self.preview@ == ContentView::Plain("No supported image files or folders found."@)
        } else {
            &&& request == Some(
                PreviewRequest { request_id: self.preview_request_id, entry: self.selected },
            )
            &&& self.preview_loading
            &&& self.preview_loading_deadline
            &&& self.preview == before.preview
        }
    }

    /// A browser of a folder, with its first entry selected.
    pub fn new(current_dir: FilePath, entries: Vec<InteractiveEntry>, spinner: SpinnerPreset) -> (r:
        (InteractiveApp, Option<PreviewRequest>))
        ensures
            r.0.wf(),
            r.0.current_dir == current_dir,
            r.0.entries == entries,
            r.0.selected == 0,
            r.0.preview_spinner == spinner,
            r.0.preview_viewport_width == 0,
            r.0.preview_viewport_height == 0,
            r.0.preview_request_id == 1,
            r.0.preview_scroll == 0,
            r.0.focus == InteractiveFocus::List,
            r.0.preview_loading == (entries@.len() > 0),
            !r.0.preview_loading_visible,
            r.0.preview_loading_deadline == (entries@.len() > 0),
            r.1 == (if entries@.len() > 0 {
                Some(PreviewRequest { request_id: 1, entry: 0 })
            } else {
                None
            }),
            r.0.preview@ == ContentView::Plain(
                if entries@.len() > 0 {
                    ""@
                } else {
                    "No supported image files or folders found."@
                },
            ),
    {
        let mut app = InteractiveApp {
            current_dir,
            entries,
            selected: 0,
            preview: InteractivePreviewContent::plain(""),
            preview_scroll: 0,
            preview_viewport_width: 0,
            preview_viewport_height: 0,
            focus: InteractiveFocus::List,
            preview_request_id: 0,
            preview_loading: false,
            preview_loading_visible: false,
            preview_loading_deadline: false,
            preview_spinner: spinner,
        };
        let request = app.request_preview_for_selection();
        (app, request)
    }

    /// Asks for the preview of the entry that is selected.
    pub fn request_preview_for_selection(&mut self) -> (r: Option<PreviewRequest>)
        requires
            old(self).wf(),
        ensures
            final(self).wf(),
            final(self).same_folder(old(self)),
            final(self).selected == old(self).selected,
            final(self).has_requested(old(self), r),
    {
        self.preview_scroll = 0;
        self.focus = InteractiveFocus::List;
        self.preview_request_id = if self.preview_request_id == u64::MAX {
            0
        } else {
            self.preview_request_id + 1
        };
        self.preview_loading_visible = false;
        if self.entries.len() == 0 {
            self.preview_loading = false;
            self.preview_loading_deadline = false;
            self.preview =
            InteractivePreviewContent::plain("No supported image files or folders found.");
            return None;
        }
        self.preview_loading = true;
        self.preview_loading_deadline = true;
        Some(PreviewRequest { request_id: self.preview_request_id, entry: self.selected })
    }

    /// What a key leads to while the list has the focus.
    pub fn handle_list_key(&mut self, key: Key) -> (r: Reaction)
        requires
            old(self).wf(),
        ensures
            final(self).wf(),
            match key {
                Key::Up => if old(self).selected > 0 {
                    &&& final(self).same_folder(old(self))
                    &&& final(self).selected == old(self).selected - 1
                    &&& r matches Reaction::Preview(request)
                    &&& final(self).has_requested(old(self), Some(request))
                } else {
                    *final(self) == *old(self) && r is Nothing
                },
                Key::Down => if old(self).selected + 1 < old(self).entries@.len() {
                    &&& final(self).same_folder(old(self))
                    &&& final(self).selected == old(self).selected + 1
                    &&& r matches Reaction::Preview(request)
                    &&& final(self).has_requested(old(self), Some(request))
                } else {
                    *final(self) == *old(self) && r is Nothing
                },
                Key::Right | Key::Enter => opens_selected(*old(self), *final(self), r),
                Key::Left | Key::Backspace => *final(self) == *old(self) && r == parent_reaction(
                    *old(self),
                ),
                _ => *final(self) == *old(self) && r is Nothing,
            },
    {
        match key {
            Key::Up => self.select_previous(),
            Key::Down => self.select_next(),
            Key::Right | Key::Enter => self.focus_preview_if_file_or_open_selected(),
            Key::Left | Key::Backspace => self.open_parent(),
            _ => Reaction::Nothing,
        }
    }

    /// Selects the entry above.
    pub fn select_previous(&mut self) -> (r: Reaction)
        requires
            old(self).wf(),
        ensures
            final(self).wf(),
            if old(self).selected > 0 {
                &&& final(self).same_folder(old(self))
                &&& final(self).selected == old(self).selected - 1
                &&& r matches Reaction::Preview(request)
                &&& final(self).has_requested(old(self), Some(request))
            } else {
                *final(self) == *old(self) && r is Nothing
            },
    {
        if self.selected > 0 {
            self.selected -= 1;
            match self.request_preview_for_selection() {
                Some(request) => Reaction::Preview(request),
                None => Reaction::Nothing,
            }
        } else {
            Reaction::Nothing
        }
    }

    /// Selects the entry below.
    pub fn select_next(&mut self) -> (r: Reaction)
        requires
            old(self).wf(),
        ensures
            final(self).wf(),
            if old(self).selected + 1 < old(self).entries@.len() {
                &&& final(self).same_folder(old(self))
                &&& final(self).selected == old(self).selected + 1
                &&& r matches Reaction::Preview(request)
                &&& final(self).has_requested(old(self), Some(request))
            } else {
                *final(self) == *old(self) && r is Nothing
            },
    {
        let n: usize = self.entries.len();
        if n > 0 && self.selected < n - 1 {
            self.selected += 1;
            match self.request_preview_for_selection() {
                Some(request) => Reaction::Preview(request),
                None => Reaction::Nothing,
            }
        } else {
            Reaction::Nothing
        }
    }

    /// The folder above, if there is one.
    pub fn open_parent(&self) -> (r: Reaction)
        ensures
            r == parent_reaction(*self),
    {
        match &self.current_dir.parent {
            Some(parent) => Reaction::Open(
                parent.raw.clone(),
                InteractiveDirectorySelection::ReselectChild,
            ),
            None => Reaction::Nothing,
        }
    }

    /// Opens the folder that is selected, or turns to the preview of the image.
    pub fn focus_preview_if_file_or_open_selected(&mut self) -> (r: Reaction)
        requires
            old(self).wf(),
        ensures
            final(self).wf(),
            opens_selected(*old(self), *final(self), r),
    {
        if self.selected >= self.entries.len() {
            return Reaction::Nothing;
        }
        match self.entries[self.selected].kind {
            InteractiveEntryKind::Parent => self.open_parent(),
            InteractiveEntryKind::Directory => Reaction::Open(
                self.entries[self.selected].path.raw.clone(),
                InteractiveDirectorySelection::First,
            ),
            InteractiveEntryKind::File => {
                self.focus = InteractiveFocus::Preview;
                Reaction::Nothing
            },
        }
    }

    /// What a key leads to while the preview has the focus: nothing but the
    /// scroll position and the focus can change.
    pub fn handle_preview_key(&mut self, key: Key)
        requires
            old(self).wf(),
        ensures
            final(self).wf(),
            final(self).same_but_view(old(self)),
            final(self).focus == (if key == Key::Left {
                InteractiveFocus::List
            } else {
                old(self).focus
            }),
            final(self).preview_scroll == scrolled_by_key(
                old(self).preview_scroll,
                old(self).scroll_limit(),
                key,
            ),
    {
        match key {
            Key::Up => self.scroll_preview_by(-1),
            Key::Down => self.scroll_preview_by(1),
            Key::PageUp => self.scroll_preview_by(-8),
            Key::PageDown => self.scroll_preview_by(8),
            Key::Home => {
                self.preview_scroll = 0;
            },
            Key::End => {
                self.preview_scroll = self.max_preview_scroll();
            },
            Key::Left => {
                self.focus = InteractiveFocus::List;
            },
            _ => {},
        }
    }

    /// The farthest that the preview can be scrolled.
    pub fn max_preview_scroll(&self) -> (r: u16)
        ensures
            r == self.scroll_limit(),
    {
        let rows: u128 = self.preview.rendered_line_count(self.preview_viewport_width);
        let height: u128 = self.preview_viewport_height as u128;
        if rows <= height {
            0
        } else if rows - height <= u16::MAX as u128 {
            (rows - height) as u16
        } else {
            u16::MAX
        }
    }

    /// Scrolls back to where the preview ends.
    pub fn clamp_preview_scroll(&mut self)
        ensures
            final(self).same_but_view(old(self)),
            final(self).focus == old(self).focus,
            final(self).preview_scroll == clamped(
                old(self).preview_scroll as int,
                old(self).scroll_limit(),
            ),
    {
        let limit: u16 = self.max_preview_scroll();
        if self.preview_scroll > limit {
            self.preview_scroll = limit;
        }
    }

    /// Scrolls the preview.
    pub fn scroll_preview_by(&mut self, lines: i16)
        ensures
            final(self).same_but_view(old(self)),
            final(self).focus == old(self).focus,
            final(self).preview_scroll == clamped(
                old(self).preview_scroll + lines,
                old(self).scroll_limit(),
            ),
    {
        if lines < 0 {
            let up: u16 = (-(lines as i32)) as u16;
            self.preview_scroll = self.preview_scroll.saturating_sub(up);
        } else {
            self.preview_scroll = self.preview_scroll.saturating_add(lines as u16);
        }
        self.clamp_preview_scroll();
    }

    /// Takes note of the size of the preview.
    pub fn set_preview_viewport(&mut self, width: u16, height: u16)
        requires
            old(self).wf(),
        ensures
            final(self).wf(),
            final(self).current_dir == old(self).current_dir,
            final(self).entries == old(self).entries,
            final(self).selected == old(self).selected,
            final(self).preview == old(self).preview,
            final(self).focus == old(self).focus,
            final(self).preview_request_id == old(self).preview_request_id,
            final(self).preview_loading == old(self).preview_loading,
            final(self).preview_loading_visible == old(self).preview_loading_visible,
            final(self).preview_loading_deadline == old(self).preview_loading_deadline,
            final(self).preview_spinner == old(self).preview_spinner,
            final(self).preview_viewport_width == width,
            final(self).preview_viewport_height == height,
            final(self).preview_scroll == clamped(
                old(self).preview_scroll as int,
                max_scroll(old(self).preview@, width, height),
            ),
    {
        self.preview_viewport_width = width;
        self.preview_viewport_height = height;
        self.clamp_preview_scroll();
    }

    /// What something done to a key leads to. Only presses count. `q` and
    /// control-c end the browser; escape leaves the preview, or ends the
    /// browser; any other key goes to what has the focus.
    pub fn handle_event(&mut self, input: KeyInput) -> (r: Reaction)
        requires
            old(self).wf(),
        ensures
            final(self).wf(),
            reacts(*old(self), *final(self), input, r),
    {
        if !input.is_press {
            return Reaction::Nothing;
        }
        match input.key {
            Key::Char(c) => {
                if c == 'q' || (c == 'c' && input.with_control_only) {
                    return Reaction::Quit;
                }
            },
            Key::Esc => {
                return match self.focus {
                    InteractiveFocus::Preview => {
                        self.focus = InteractiveFocus::List;
                        Reaction::Nothing
                    },
                    InteractiveFocus::List => Reaction::Quit,
                };
            },
            _ => {},
        }
        match self.focus {
            InteractiveFocus::List => self.handle_list_key(input.key),
            InteractiveFocus::Preview => {
                self.handle_preview_key(input.key);
                Reaction::Nothing
            },
        }
    }

    /// Takes up a folder that was opened: its first entry is selected, or the
    /// folder that was left where that is asked for and it is listed.
    pub fn open_directory_at(
        &mut self,
        directory: FilePath,
        entries: Vec<InteractiveEntry>,
        selection: InteractiveDirectorySelection,
    ) -> (r: Option<PreviewRequest>)
        ensures
            final(self).wf(),
            final(self).current_dir == directory,
            final(self).entries == entries,
            final(self).selected == (match selection {
                InteractiveDirectorySelection::First => 0,
                InteractiveDirectorySelection::ReselectChild => position_of_path(
                    entries@,
                    old(self).current_dir.identity@,
                ),
            }),
            final(self).preview_viewport_width == old(self).preview_viewport_width,
            final(self).preview_viewport_height == old(self).preview_viewport_height,
            final(self).preview_spinner == old(self).preview_spinner,
            final(self).has_requested(old(self), r),
    {
        let selected: usize = match selection {
            InteractiveDirectorySelection::First => 0,
            InteractiveDirectorySelection::ReselectChild => find_path(
                &entries,
                &self.current_dir,
            ),
        };
        self.current_dir = directory;
        self.entries = entries;
        self.selected = selected;
        self.request_preview_for_selection()
    }

    /// Whether an entry is the one that is selected.
    pub fn selected_entry_matches(&self, kind: InteractiveEntryKind, path: &FilePath) -> (r: bool)
        ensures
            r == self.is_selected(kind, *path),
    {
        self.selected < self.entries.len() && self.entries[self.selected].kind == kind
            && paths_equal(&self.entries[self.selected].path, path)
    }

    pub open spec fn is_selected(&self, kind: InteractiveEntryKind, path: FilePath) -> bool {
        self.selected < self.entries@.len() && self.entries@[self.selected as int].kind == kind
            && self.entries@[self.selected as int].path.identity@ == path.identity@
    }

    /// Shows a preview that was made, unless another was asked for since.
    pub fn apply_preview_result(&mut self, result: InteractivePreviewResult)
        requires
            old(self).wf(),
        ensures
            final(self).wf(),
            if result.request_id == old(self).preview_request_id && old(self).is_selected(
                result.kind,
                result.path,
            ) {
                &&& final(self).same_folder(old(self))
                &&& final(self).selected == old(self).selected
                &&& final(self).focus == old(self).focus
                &&& final(self).preview_request_id == old(self).preview_request_id
                &&& final(self).preview == result.preview
                &&& !final(self).preview_loading
                &&& !final(self).preview_loading_visible
                &&& !final(self).preview_loading_deadline
                &&& final(self).preview_scroll == clamped(
                    old(self).preview_scroll as int,
                    final(self).scroll_limit(),
                )
            } else {
                *final(self) == *old(self)
            },
    {
        if result.request_id != self.preview_request_id || !self.selected_entry_matches(
            result.kind,
            &result.path,
        ) {
            return ;
        }
        self.preview = result.preview;
        self.preview_loading = false;
        self.preview_loading_visible = false;
        self.preview_loading_deadline = false;
        self.clamp_preview_scroll();
    }

    /// Shows that a preview is being made, once that has taken a while. `waited`
    /// says whether it has; `frame` is the spinner as it stands.
    pub fn tick_preview_spinner(&mut self, waited: bool, frame: &str)
        requires
            old(self).wf(),
        ensures
            final(self).wf(),
            if !old(self).preview_loading || (!old(self).preview_loading_visible
                && old(self).preview_loading_deadline && !waited) {
                *final(self) == *old(self)
            } else {
                &&& final(self).same_folder(old(self))
                &&& final(self).selected == old(self).selected
                &&& final(self).focus == old(self).focus
                &&& final(self).preview_scroll == old(self).preview_scroll
                &&& final(self).preview_request_id == old(self).preview_request_id
                &&& final(self).preview_loading
                &&& final(self).preview_loading_visible
                &&& final(self).preview_loading_deadline == old(self).preview_loading_deadline
                &&& if old(self).entries@.len() > 0 {
                    final(self).preview@ == ContentView::Plain(
                        loading_text(old(self).entries@[old(self).selected as int]@, frame@),
                    )
                } else {
                    final(self).preview == old(self).preview
                }
            },
    {
        if !self.preview_loading {
            return ;
        }
        if !self.preview_loading_visible {
            if self.preview_loading_deadline && !waited {
                return ;
            }
            self.preview_loading_visible = true;
        }
        if self.selected < self.entries.len() {
            self.preview = loading_preview(&self.entries[self.selected], frame);
        }
    }

    /// The title of the preview.
    pub fn selected_preview_title(&self) -> (r: &'static str)
        ensures
            r@ == (if self.selected < self.entries@.len() && self.entries@[self.selected as int].kind
                != InteractiveEntryKind::File {
                "Directory"@
            } else {
                "Read"@
            }),
    {
        if self.selected < self.entries.len() {
            match self.entries[self.selected].kind {
                InteractiveEntryKind::File => "Read",
                _ => "Directory",
            }
        } else {
            "Read"
        }
    }
}

/// The place of the first entry with a path, or the first place.
pub open spec fn position_of_path(entries: Seq<InteractiveEntry>, identity: Seq<char>) -> int {
    if exists|i: int| 0 <= i < entries.len() && (#[trigger] entries[i]).path.identity@ == identity {
        choose|i: int|
            0 <= i < entries.len() && (#[trigger] entries[i]).path.identity@ == identity && forall|
                k: int,
            |
                0 <= k < i ==> (#[trigger] entries[k]).path.identity@ != identity
    } else {
        0
    }
}

fn find_path(entries: &Vec<InteractiveEntry>, path: &FilePath) -> (r: usize)
    ensures
        r == position_of_path(entries@, path.identity@),
        r < entries@.len() || (r == 0 && entries@.len() == 0),
{
    let mut i: usize = 0;
    while i < entries.len()
        invariant
            i <= entries@.len(),
            forall|k: int| 0 <= k < i ==> (#[trigger] entries@[k]).path.identity@ != path.identity@,
        decreases entries@.len() - i,
    {
        if paths_equal(&entries[i].path, path) {
            proof {
                let j = position_of_path(entries@, path.identity@);
                assert(entries@[i as int].path.identity@ == path.identity@);
                assert(0 <= i < entries@.len() && entries@[i as int].path.identity@
                    == path.identity@ && forall|k: int|
                    0 <= k < i ==> (#[trigger] entries@[k]).path.identity@ != path.identity@);
                if j < i {
                    assert(entries@[j].path.identity@ != path.identity@);
                }
                if j > i {
                    assert(entries@[i as int].path.identity@ != path.identity@);
                }
            }
            return i;
        }
        i += 1;
    }
    0
}

/// The folder above, if there is one.
pub open spec fn parent_reaction(app: InteractiveApp) -> Reaction {
    match app.current_dir.parent {
        Some(parent) => Reaction::Open(parent.raw, InteractiveDirectorySelection::ReselectChild),
        None => Reaction::Nothing,
    }
}

/// What comes of opening the entry that is selected.
pub open spec fn opens_selected(
    before: InteractiveApp,
    after: InteractiveApp,
    reaction: Reaction,
) -> bool {
    if before.selected >= before.entries@.len() {
        after == before && reaction is Nothing
    } else {
        let entry = before.entries@[before.selected as int];
        match entry.kind {
            InteractiveEntryKind::Parent => after == before && reaction == parent_reaction(before),
            InteractiveEntryKind::Directory => after == before && reaction == Reaction::Open(
                entry.path.raw,
                InteractiveDirectorySelection::First,
            ),
            InteractiveEntryKind::File => {
                &&& after.same_but_view(&before)
                &&& after.preview_scroll == before.preview_scroll
                &&& after.focus == InteractiveFocus::Preview
                &&& reaction is Nothing
            },
        }
    }
}

/// A scroll position within its limits.
pub open spec fn clamped(position: int, limit: u16) -> u16 {
    if position < 0 {
        0
    } else if position > limit {
        limit
    } else {
        position as u16
    }
}

/// Where a key scrolls the preview to.
pub open spec fn scrolled_by_key(position: u16, limit: u16, key: Key) -> u16 {
    match key {
        Key::Up => clamped(position - 1, limit),
        Key::Down => clamped(position + 1, limit),
        Key::PageUp => clamped(position - 8, limit),
        Key::PageDown => clamped(position + 8, limit),
        Key::Home => 0,
        Key::End => limit,
        _ => position,
    }
}

// ---------------------------------------------------------------------------
// Laws
// ---------------------------------------------------------------------------
/// No key scrolls a preview beyond its end that was not beyond it before.
pub proof fn law_scrolling_stays_within_the_preview(position: u16, limit: u16, key: Key)
    requires
        position <= limit,
    ensures
        scrolled_by_key(position, limit, key) <= limit,
{
}

/// Scrolling down and up again by a line leads back, except at the end.
pub proof fn law_up_undoes_down(position: u16, limit: u16)
    requires
        position < limit,
    ensures
        scrolled_by_key(scrolled_by_key(position, limit, Key::Down), limit, Key::Up) == position,
{
}

/// The folder that was left is selected in the folder above wherever it is
/// listed there.
pub proof fn law_left_folder_is_reselected(entries: Seq<InteractiveEntry>, identity: Seq<char>)
    requires
        exists|i: int| 0 <= i < entries.len() && (#[trigger] entries[i]).path.identity@ == identity,
    ensures
        0 <= position_of_path(entries, identity) < entries.len(),
        entries[position_of_path(entries, identity)].path.identity@ == identity,
{
    let i = choose|i: int| 0 <= i < entries.len() && (#[trigger] entries[i]).path.identity@ == identity;
    lemma_first_position(entries, identity, i);
}

proof fn lemma_first_position(entries: Seq<InteractiveEntry>, identity: Seq<char>, i: int)
    requires
        0 <= i < entries.len(),
        entries[i].path.identity@ == identity,
    ensures
        exists|j: int|
            0 <= j < entries.len() && (#[trigger] entries[j]).path.identity@ == identity && forall|
                k: int,
            |
                0 <= k < j ==> (#[trigger] entries[k]).path.identity@ != identity,
    decreases i,
{
    if exists|k: int| 0 <= k < i && (#[trigger] entries[k]).path.identity@ == identity {
        let k = choose|k: int| 0 <= k < i && (#[trigger] entries[k]).path.identity@ == identity;
        lemma_first_position(entries, identity, k);
    } else {
        assert(entries[i].path.identity@ == identity && forall|k: int|
            0 <= k < i ==> (#[trigger] entries[k]).path.identity@ != identity);
    }
}

} // verus!
