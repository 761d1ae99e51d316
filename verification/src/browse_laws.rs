//! What holds of everything that the browser shows, and of every key.

use crate::ansi::{
    codes_len, lines_of, plain_style, preview_lines, with_code, Parsing, PreviewColor, PreviewStyle,
    SpanView,
};
use crate::file_kind::is_supported;
use crate::interactive::{
    are_entries_of, content_rows, entry_views, folder_entries, folder_preview, image_entries,
    is_sorted_form, listing_lines, max_scroll, reacts, scrolled_by_key, text_rows,
    without_verbatim_prefixes, wrapped_rows, wrapped_total, ByLabel, ContentView, EntryView,
    FolderItem, InteractiveApp, InteractiveDirectorySelection, InteractiveEntry,
    InteractiveEntryKind, Key, KeyInput, Reaction,
};
use crate::order::{law_stable_sorted_is_ordered_permutation, stable_sorted, text_before, Ranking};
use crate::path::name_of;
use crate::spinner::{preset_at, preset_name};
use crate::text::{lower_text, split_on, stands_at};
use crate::text_laws::{law_absent_parts_replace_nothing, law_parts_are_replaced};
use vstd::prelude::*;

verus! {

// ---------------------------------------------------------------------------
// Entries
// ---------------------------------------------------------------------------
proof fn lemma_folder_entries(items: Seq<FolderItem>, i: int)
    requires
        0 <= i < items.len(),
        items[i].is_directory,
    ensures
        exists|k: int|
            0 <= k < folder_entries(items).len() && (#[trigger] folder_entries(items)[k]).path
                == items[i].path,
    decreases items.len(),
{
    let all = folder_entries(items);
    let before = items.drop_last();
    if i < before.len() {
        lemma_folder_entries(before, i);
        let some = folder_entries(before);
        let k = choose|k: int|
            0 <= k < some.len() && (#[trigger] some[k]).path == before[i].path;
        assert(all[k] == some[k]);
    } else {
        assert(all[all.len() - 1].path == items[i].path);
    }
}

proof fn lemma_folder_entries_are_folders(items: Seq<FolderItem>, k: int)
    requires
        0 <= k < folder_entries(items).len(),
    ensures
        folder_entries(items)[k].kind is Directory,
        exists|i: int|
            0 <= i < items.len() && (#[trigger] items[i]).is_directory && items[i].path
                == folder_entries(items)[k].path && folder_entries(items)[k].label == name_of(
                items[i].path,
            ).push('/'),
    decreases items.len(),
{
    let before = items.drop_last();
    let some = folder_entries(before);
    if k < some.len() {
        lemma_folder_entries_are_folders(before, k);
        let i = choose|i: int|
            0 <= i < before.len() && (#[trigger] before[i]).is_directory && before[i].path
                == some[k].path && some[k].label == name_of(before[i].path).push('/');
        assert(items[i] == before[i]);
    } else {
        let last = items[items.len() - 1];
        reveal_strlit("/");
        assert(name_of(last.path) + "/"@ =~= name_of(last.path).push('/'));
        assert(last.is_directory);
    }
}

proof fn lemma_image_entries(items: Seq<FolderItem>, i: int)
    requires
        0 <= i < items.len(),
        !items[i].is_directory,
        items[i].is_file,
        is_supported(items[i].path, items[i].signature),
    ensures
        exists|k: int|
            0 <= k < image_entries(items).len() && (#[trigger] image_entries(items)[k]).path
                == items[i].path,
    decreases items.len(),
{
    let all = image_entries(items);
    let before = items.drop_last();
    if i < before.len() {
        lemma_image_entries(before, i);
        let some = image_entries(before);
        let k = choose|k: int|
            0 <= k < some.len() && (#[trigger] some[k]).path == before[i].path;
        assert(all[k] == some[k]);
    } else {
        assert(all[all.len() - 1].path == items[i].path);
    }
}

proof fn lemma_image_entries_are_images(items: Seq<FolderItem>, k: int)
    requires
        0 <= k < image_entries(items).len(),
    ensures
        image_entries(items)[k].kind is File,
        exists|i: int|
            0 <= i < items.len() && (#[trigger] items[i]).is_file && !items[i].is_directory
                && is_supported(items[i].path, items[i].signature) && items[i].path
                == image_entries(items)[k].path && image_entries(items)[k].label == name_of(
                items[i].path,
            ),
    decreases items.len(),
{
    let before = items.drop_last();
    let some = image_entries(before);
    if k < some.len() {
        lemma_image_entries_are_images(before, k);
        let i = choose|i: int|
            0 <= i < before.len() && (#[trigger] before[i]).is_file && !before[i].is_directory
                && is_supported(before[i].path, before[i].signature) && before[i].path
                == some[k].path && some[k].label == name_of(before[i].path);
        assert(items[i] == before[i]);
    } else {
        assert(items[items.len() - 1].is_file);
    }
}

/// Of the contents of a folder the browser lists the folders, with a slash behind
/// their names, and the images, and nothing else.
pub proof fn law_browser_lists_folders_and_images(items: Seq<FolderItem>, i: int, k: int)
    ensures
        0 <= i < items.len() && items[i].is_directory ==> exists|k: int|
            0 <= k < folder_entries(items).len() && (#[trigger] folder_entries(items)[k]).path
                == items[i].path,
        0 <= i < items.len() && !items[i].is_directory && items[i].is_file && is_supported(
            items[i].path,
            items[i].signature,
        ) ==> exists|k: int|
            0 <= k < image_entries(items).len() && (#[trigger] image_entries(items)[k]).path
                == items[i].path,
        0 <= k < folder_entries(items).len() ==> folder_entries(items)[k].kind is Directory
            && exists|i: int|
            0 <= i < items.len() && (#[trigger] items[i]).is_directory && items[i].path
                == folder_entries(items)[k].path && folder_entries(items)[k].label == name_of(
                items[i].path,
            ).push('/'),
        0 <= k < image_entries(items).len() ==> image_entries(items)[k].kind is File && exists|
            i: int,
        |
            0 <= i < items.len() && (#[trigger] items[i]).is_file && !items[i].is_directory
                && is_supported(items[i].path, items[i].signature) && items[i].path
                == image_entries(items)[k].path && image_entries(items)[k].label == name_of(
                items[i].path,
            ),
{
    if 0 <= i < items.len() && items[i].is_directory {
        lemma_folder_entries(items, i);
    }
    if 0 <= i < items.len() && !items[i].is_directory && items[i].is_file && is_supported(
        items[i].path,
        items[i].signature,
    ) {
        lemma_image_entries(items, i);
    }
    if 0 <= k < folder_entries(items).len() {
        lemma_folder_entries_are_folders(items, k);
    }
    if 0 <= k < image_entries(items).len() {
        lemma_image_entries_are_images(items, k);
    }
}

proof fn lemma_sorted_form(entries: Seq<InteractiveEntry>, views: Seq<EntryView>)
    requires
        is_sorted_form(entries, views),
    ensures
        entries.len() == views.len(),
        forall|k: int| 0 <= k < entries.len() ==> views.contains(#[trigger] entries[k]@),
        forall|i: int, j: int|
            0 <= i < j < entries.len() ==> !text_before(
                lower_text(#[trigger] entries[j].label@),
                lower_text(#[trigger] entries[i].label@),
            ),
{
    let unsorted = choose|unsorted: Seq<InteractiveEntry>|
        #![trigger entry_views(unsorted)]
        entry_views(unsorted) == views && entries == stable_sorted::<InteractiveEntry, ByLabel>(
            unsorted,
        );
    law_stable_sorted_is_ordered_permutation::<InteractiveEntry, ByLabel>(unsorted);
    assert(entry_views(unsorted).len() == unsorted.len());
    broadcast use vstd::seq_lib::group_to_multiset_ensures;

    assert forall|k: int| 0 <= k < entries.len() implies views.contains(#[trigger] entries[k]@) by {
        assert(entries.contains(entries[k]));
        assert(entries.to_multiset().count(entries[k]) > 0);
        assert(unsorted.contains(entries[k]));
        let m = choose|m: int| 0 <= m < unsorted.len() && unsorted[m] == entries[k];
        assert(views[m] == entries[k]@);
    }
    assert forall|i: int, j: int| 0 <= i < j < entries.len() implies !text_before(
        lower_text(#[trigger] entries[j].label@),
        lower_text(#[trigger] entries[i].label@),
    ) by {
        assert(!ByLabel::before(&entries[j], &entries[i]));
    }
}

/// The way up comes first, where there is one; the folders come before the images; and
/// entries of one kind are in the order of their labels, without case.
pub proof fn law_entries_are_in_order(
    entries: Seq<InteractiveEntry>,
    parent: Option<crate::path::FilePath>,
    items: Seq<FolderItem>,
    i: int,
    j: int,
)
    requires
        are_entries_of(entries, parent, items),
        0 <= i < j < entries.len(),
    ensures
        entries[i].kind is Parent <==> parent is Some && i == 0,
        !(entries[j].kind is Parent),
        parent is Some ==> entries[0].label@ == seq!['.', '.', '/'] && entries[0].path
            == parent->Some_0,
        !(entries[i].kind is File && entries[j].kind is Directory),
        entries[i].kind == entries[j].kind ==> !text_before(
            lower_text(entries[j].label@),
            lower_text(entries[i].label@),
        ),
{
    let (folders, images) = choose|folders: Seq<InteractiveEntry>, images: Seq<InteractiveEntry>|
        #![trigger is_sorted_form(folders, folder_entries(items)), is_sorted_form(images, image_entries(items))]
        {
            &&& is_sorted_form(folders, folder_entries(items))
            &&& is_sorted_form(images, image_entries(items))
            &&& entry_views(entries) == (match parent {
                Some(path) => seq![
                    EntryView { kind: InteractiveEntryKind::Parent, label: "../"@, path },
                ],
                None => Seq::empty(),
            }) + entry_views(folders) + entry_views(images)
        };
    lemma_sorted_form(folders, folder_entries(items));
    lemma_sorted_form(images, image_entries(items));
    reveal_strlit("../");
    assert("../"@ =~= seq!['.', '.', '/']);
    let up: int = if parent is Some {
        1
    } else {
        0
    };
    let all = entry_views(entries);
    assert(all.len() == entries.len());
    assert(all[i] == entries[i]@ && all[j] == entries[j]@ && all[0] == entries[0]@);
    assert forall|k: int| 0 <= k < folders.len() implies (#[trigger] folders[k]).kind is Directory by {
        assert(folder_entries(items).contains(folders[k]@));
        let m = choose|m: int|
            0 <= m < folder_entries(items).len() && folder_entries(items)[m] == folders[k]@;
        lemma_folder_entries_are_folders(items, m);
    }
    assert forall|k: int| 0 <= k < images.len() implies (#[trigger] images[k]).kind is File by {
        assert(image_entries(items).contains(images[k]@));
        let m = choose|m: int|
            0 <= m < image_entries(items).len() && image_entries(items)[m] == images[k]@;
        lemma_image_entries_are_images(items, m);
    }
    let a: int = i - up;
    let b: int = j - up;
    let n = folders.len();
    if 0 <= a < n {
        assert(all[i] == entry_views(folders)[a]);
        assert(folders[a].kind is Directory);
    } else if a >= n {
        assert(all[i] == entry_views(images)[a - n]);
        assert(images[a - n].kind is File);
    }
    if 0 <= b < n {
        assert(all[j] == entry_views(folders)[b]);
        assert(folders[b].kind is Directory);
    } else {
        assert(all[j] == entry_views(images)[b - n]);
        assert(images[b - n].kind is File);
    }
}

proof fn lemma_listing(entries: Seq<EntryView>, i: int)
    requires
        0 <= i < entries.len(),
        !(entries[i].kind is Parent),
    ensures
        exists|k: int|
            0 <= k < listing_lines(entries).len() && (#[trigger] listing_lines(entries)[k]).len()
                == 1 && listing_lines(entries)[k][0].0 == entries[i].label,
    decreases entries.len(),
{
    let all = listing_lines(entries);
    let before = entries.drop_last();
    if i < before.len() {
        lemma_listing(before, i);
        let some = listing_lines(before);
        let k = choose|k: int|
            0 <= k < some.len() && (#[trigger] some[k]).len() == 1 && some[k][0].0
                == before[i].label;
        assert(all[k] == some[k]);
    } else {
        assert(all[all.len() - 1][0].0 == entries[i].label);
    }
}

/// The preview of a folder shows each of its entries, but the way up, below an empty
/// line.
pub proof fn law_folders_show_their_entries(entries: Seq<EntryView>, i: int)
    requires
        0 <= i < entries.len(),
        !(entries[i].kind is Parent),
    ensures
        folder_preview(entries)[0].len() == 0,
        exists|k: int|
            1 <= k < folder_preview(entries).len() && (#[trigger] folder_preview(entries)[k]).len()
                == 1 && folder_preview(entries)[k][0].0 == entries[i].label,
{
    lemma_listing(entries, i);
    let lines = listing_lines(entries);
    let k = choose|k: int|
        0 <= k < lines.len() && (#[trigger] lines[k]).len() == 1 && lines[k][0].0
            == entries[i].label;
    assert(folder_preview(entries)[k + 1] == lines[k]);
}

// ---------------------------------------------------------------------------
// Rows
// ---------------------------------------------------------------------------
/// A line takes as many rows as it needs and no more, and one where it is empty.
pub proof fn law_lines_take_the_rows_they_need(line: Seq<char>, width: nat)
    requires
        width > 0,
    ensures
        wrapped_rows(line, width) >= 1,
        wrapped_rows(line, width) * width >= line.len(),
        line.len() > 0 ==> (wrapped_rows(line, width) - 1) * width < line.len(),
        line.len() == 0 ==> wrapped_rows(line, width) == 1,
{
    if line.len() > 0 {
        let n = line.len() + width - 1;
        let q: int = n / width as int;
        vstd::arithmetic::div_mod::lemma_fundamental_div_mod(n, width as int);
        vstd::arithmetic::div_mod::lemma_mod_bound(n, width as int);
        assert(width * q == q * width) by (nonlinear_arith);
        assert((q - 1) * width == q * width - width) by (nonlinear_arith);
        assert(q >= 1) by (nonlinear_arith)
            requires
                q * width > n - width,
                n >= width,
                width > 0,
        ;
    }
}

proof fn lemma_wrapped_total(lines: Seq<Seq<char>>, width: nat)
    requires
        width > 0,
    ensures
        wrapped_total(lines, width) >= lines.len(),
    decreases lines.len(),
{
    if lines.len() > 0 {
        lemma_wrapped_total(lines.drop_last(), width);
        law_lines_take_the_rows_they_need(lines.last(), width);
    }
}

/// A text takes at least a row for each of its lines, and never less than one.
pub proof fn law_texts_take_a_row_for_each_line(text: Seq<char>, width: nat)
    ensures
        text_rows(text, width) >= 1,
        width > 0 ==> text_rows(text, width) >= split_on(text, '\n').len(),
{
    if width > 0 {
        lemma_wrapped_total(split_on(text, '\n'), width);
    }
}

/// A preview can be scrolled until its last row stands at the bottom of the window,
/// and not at all where it fits.
pub proof fn law_previews_scroll_to_their_end(content: ContentView, width: u16, height: u16)
    requires
        content_rows(content, width as nat) <= u16::MAX,
    ensures
        content_rows(content, width as nat) <= height ==> max_scroll(content, width, height) == 0,
        content_rows(content, width as nat) > height ==> max_scroll(content, width, height) + height
            == content_rows(content, width as nat),
{
}

// ---------------------------------------------------------------------------
// Keys
// ---------------------------------------------------------------------------
/// Letting a key go does nothing.
pub proof fn law_only_presses_count(
    before: InteractiveApp,
    after: InteractiveApp,
    input: KeyInput,
    reaction: Reaction,
)
    requires
        reacts(before, after, input, reaction),
        !input.is_press,
    ensures
        after == before,
        reaction is Nothing,
{
}

/// The browser ends by `q`, by `c` with the control key, and by escape in the list,
/// and by no other key.
pub proof fn law_browser_ends_by_its_keys(
    before: InteractiveApp,
    after: InteractiveApp,
    input: KeyInput,
    reaction: Reaction,
)
    requires
        reacts(before, after, input, reaction),
    ensures
        reaction is Quit <==> input.is_press && (input.key == Key::Char('q') || (input.key
            == Key::Char('c') && input.with_control_only) || (input.key is Esc && before.focus
            is List)),
{
}

/// A key moves the selection by at most one entry: down only by the key for that, up
/// only by the key for that, and never out of the list. While the preview is looked at
/// the selection stays.
pub proof fn law_selection_moves_by_one(
    before: InteractiveApp,
    after: InteractiveApp,
    input: KeyInput,
    reaction: Reaction,
)
    requires
        before.selected < before.entries@.len(),
        reacts(before, after, input, reaction),
    ensures
        after.entries == before.entries,
        after.current_dir == before.current_dir,
        after.selected < after.entries@.len(),
        after.selected == before.selected + 1 <==> input.is_press && before.focus is List
            && input.key is Down && before.selected + 1 < before.entries@.len(),
        after.selected + 1 == before.selected <==> input.is_press && before.focus is List
            && input.key is Up && before.selected > 0,
        after.selected == before.selected || after.selected == before.selected + 1
            || after.selected + 1 == before.selected,
{
}

/// A selection that moved has a preview of its own made, from the top, and what comes
/// back for an earlier one can be told apart.
pub proof fn law_new_selections_are_previewed(
    before: InteractiveApp,
    after: InteractiveApp,
    input: KeyInput,
    reaction: Reaction,
)
    requires
        before.selected < before.entries@.len(),
        reacts(before, after, input, reaction),
        after.selected != before.selected,
    ensures
        reaction is Preview,
        reaction->Preview_0.entry == after.selected,
        reaction->Preview_0.request_id == after.preview_request_id,
        after.preview_request_id != before.preview_request_id,
        after.preview_scroll == 0,
        after.preview_loading,
{
}

/// Opening an image moves to its preview, and the key to the left moves back. Opening
/// a folder enters it at its first entry; leaving one selects it in the folder above.
pub proof fn law_entries_are_opened(
    before: InteractiveApp,
    after: InteractiveApp,
    input: KeyInput,
    reaction: Reaction,
)
    requires
        before.selected < before.entries@.len(),
        reacts(before, after, input, reaction),
        input.is_press,
    ensures
        before.focus is List && (input.key is Right || input.key is Enter)
            && before.entries@[before.selected as int].kind is File ==> after.focus is Preview
            && reaction is Nothing,
        before.focus is List && (input.key is Right || input.key is Enter)
            && before.entries@[before.selected as int].kind is Directory ==> reaction
            == Reaction::Open(
            before.entries@[before.selected as int].path.raw,
            InteractiveDirectorySelection::First,
        ),
        before.focus is List && (input.key is Left || input.key is Backspace || ((input.key
            is Right || input.key is Enter) && before.entries@[before.selected as int].kind
            is Parent)) && before.current_dir.parent is Some ==> reaction == Reaction::Open(
            before.current_dir.parent->Some_0.raw,
            InteractiveDirectorySelection::ReselectChild,
        ),
        before.focus is Preview && (input.key is Left || input.key is Esc) ==> after.focus is List
            && after.selected == before.selected,
{
}

/// What each key scrolls by: a line, eight lines, all the way; never past an end.
pub proof fn law_keys_scroll_by_their_distance(position: u16, limit: u16)
    requires
        position <= limit,
    ensures
        position < limit ==> scrolled_by_key(position, limit, Key::Down) == position + 1,
        position > 0 ==> scrolled_by_key(position, limit, Key::Up) == position - 1,
        position + 8 <= limit ==> scrolled_by_key(position, limit, Key::PageDown) == position + 8,
        position + 8 > limit ==> scrolled_by_key(position, limit, Key::PageDown) == limit,
        position >= 8 ==> scrolled_by_key(position, limit, Key::PageUp) == position - 8,
        position < 8 ==> scrolled_by_key(position, limit, Key::PageUp) == 0,
        scrolled_by_key(position, limit, Key::Home) == 0,
        scrolled_by_key(position, limit, Key::End) == limit,
        scrolled_by_key(limit, limit, Key::Down) == limit,
        scrolled_by_key(0, limit, Key::Up) == 0,
        scrolled_by_key(position, limit, Key::Left) == position,
        scrolled_by_key(position, limit, Key::Enter) == position,
{
}

/// Keys scroll the preview while it is looked at, and change nothing else then.
pub proof fn law_previews_are_scrolled(
    before: InteractiveApp,
    after: InteractiveApp,
    input: KeyInput,
    reaction: Reaction,
)
    requires
        reacts(before, after, input, reaction),
        input.is_press,
        before.focus is Preview,
        input.key is Up || input.key is Down || input.key is PageUp || input.key is PageDown
            || input.key is Home || input.key is End,
    ensures
        reaction is Nothing,
        after.focus is Preview,
        after.selected == before.selected,
        after.preview == before.preview,
        after.preview_scroll == scrolled_by_key(
            before.preview_scroll,
            before.scroll_limit(),
            input.key,
        ),
{
}

// ---------------------------------------------------------------------------
// Paths
// ---------------------------------------------------------------------------
/// A path that starts with the verbatim prefix of Windows is shown without it, one of
/// a network share with two backslashes in its place, and any other as it is.
pub proof fn law_verbatim_prefixes_are_not_shown(path: Seq<char>)
    requires
        !path.contains('?'),
    ensures
        without_verbatim_prefixes(path) == path,
        without_verbatim_prefixes(seq!['\\', '\\', '?', '\\', 'C', ':'] + path) == seq!['C', ':']
            + path,
        without_verbatim_prefixes(seq!['\\', '\\', '?', '\\', 'U', 'N', 'C', '\\'] + path)
            == seq!['\\', '\\'] + path,
{
    reveal_strlit("\\\\?\\UNC\\");
    reveal_strlit("\\\\?\\");
    reveal_strlit("\\\\");
    reveal_strlit("");
    let share = "\\\\?\\UNC\\"@;
    let verbatim = "\\\\?\\"@;
    lemma_no_mark(path, share);
    lemma_no_mark(path, verbatim);
    law_absent_parts_replace_nothing(path, share, "\\\\"@);
    law_absent_parts_replace_nothing(path, verbatim, ""@);
    let drive = seq!['C', ':'] + path;
    assert(!drive.contains('?')) by {
        if drive.contains('?') {
            let i = choose|i: int| 0 <= i < drive.len() && drive[i] == '?';
            assert(path[i - 2] == '?');
        }
    }
    lemma_no_mark(drive, verbatim);
    law_absent_parts_replace_nothing(drive, verbatim, ""@);
    let long = seq!['\\', '\\', '?', '\\', 'C', ':'] + path;
    assert forall|i: int| !#[trigger] stands_at(long, share, i) by {
        if stands_at(long, share, i) {
            let cut = long.subrange(i, i + share.len());
            assert(cut[2] == long[i + 2] && cut[4] == long[i + 4]);
            if i > 0 {
                assert(long[i + 2] == '?');
                if i + 2 >= 6 {
                    assert(path[i + 2 - 6] == '?');
                }
            }
        }
    }
    law_absent_parts_replace_nothing(long, share, "\\\\"@);
    assert(long =~= Seq::<char>::empty() + verbatim + drive);
    law_parts_are_replaced(Seq::empty(), verbatim, drive, ""@);
    assert(Seq::<char>::empty() + ""@ + drive =~= drive);
    let remote = seq!['\\', '\\', '?', '\\', 'U', 'N', 'C', '\\'] + path;
    assert(remote =~= Seq::<char>::empty() + share + path);
    law_parts_are_replaced(Seq::empty(), share, path, "\\\\"@);
    let short = seq!['\\', '\\'] + path;
    assert(Seq::<char>::empty() + "\\\\"@ + path =~= short);
    assert(!short.contains('?')) by {
        if short.contains('?') {
            let i = choose|i: int| 0 <= i < short.len() && short[i] == '?';
            assert(path[i - 2] == '?');
        }
    }
    lemma_no_mark(short, verbatim);
    law_absent_parts_replace_nothing(short, verbatim, ""@);
}

proof fn lemma_no_mark(text: Seq<char>, part: Seq<char>)
    requires
        !text.contains('?'),
        part.len() > 2,
        part[2] == '?',
    ensures
        forall|i: int| !#[trigger] stands_at(text, part, i),
{
    assert forall|i: int| !#[trigger] stands_at(text, part, i) by {
        if stands_at(text, part, i) {
            assert(text.subrange(i, i + part.len())[2] == text[i + 2]);
            assert(text.contains(text[i + 2]));
        }
    }
}

// ---------------------------------------------------------------------------
// Styles
// ---------------------------------------------------------------------------
/// What each code does to a style: one resets it, two set its weight, one takes its
/// colour away, three set it; any other code is passed over.
pub proof fn law_codes_set_weight_or_colour(style: PreviewStyle, code: u32)
    ensures
        with_code(style, 0).color is None && with_code(style, 0).weight is Unset,
        with_code(style, 1).weight is Bold && with_code(style, 1).color == style.color,
        with_code(style, 22).weight is NotBold && with_code(style, 22).color == style.color,
        with_code(style, 33).color == Some(PreviewColor::Yellow) && with_code(style, 33).weight
            == style.weight,
        with_code(style, 39).color is None && with_code(style, 39).weight == style.weight,
        with_code(style, 94).color == Some(PreviewColor::LightBlue) && with_code(style, 94).weight
            == style.weight,
        with_code(style, 96).color == Some(PreviewColor::LightCyan) && with_code(style, 96).weight
            == style.weight,
        !(code == 0 || code == 1 || code == 22 || code == 33 || code == 39 || code == 94 || code
            == 96) ==> with_code(style, code) == style,
{
}

proof fn lemma_plain_text(state: Parsing, s: Seq<char>)
    requires
        !s.contains('\u{1b}'),
        !s.contains('\n'),
    ensures
        lines_of(state, s) == (Parsing { text: state.text + s, ..state }).ended().lines,
    decreases s.len(),
{
    if s.len() > 0 {
        let rest = s.skip(1);
        assert(s.contains(s[0]));
        assert(!rest.contains('\u{1b}') && !rest.contains('\n')) by {
            assert forall|i: int| 0 <= i < rest.len() implies #[trigger] rest[i] != '\u{1b}'
                && rest[i] != '\n' by {
                assert(s.contains(s[i + 1]));
            }
        }
        lemma_plain_text(Parsing { text: state.text.push(s[0]), ..state }, rest);
        assert(state.text.push(s[0]) + rest =~= state.text + s);
    } else {
        assert(state.text + s =~= state.text);
    }
}

proof fn lemma_plain_line(state: Parsing, a: Seq<char>, rest: Seq<char>)
    requires
        !a.contains('\u{1b}'),
        !a.contains('\n'),
    ensures
        lines_of(state, a + seq!['\n'] + rest) == lines_of(
            (Parsing { text: state.text + a, ..state }).ended(),
            rest,
        ),
    decreases a.len(),
{
    let s = a + seq!['\n'] + rest;
    if a.len() > 0 {
        let behind = a.skip(1);
        assert(a.contains(a[0]));
        assert(s[0] == a[0]);
        assert(!behind.contains('\u{1b}') && !behind.contains('\n')) by {
            assert forall|i: int| 0 <= i < behind.len() implies #[trigger] behind[i] != '\u{1b}'
                && behind[i] != '\n' by {
                assert(a.contains(a[i + 1]));
            }
        }
        assert(s.skip(1) =~= behind + seq!['\n'] + rest);
        lemma_plain_line(Parsing { text: state.text.push(a[0]), ..state }, behind, rest);
        assert(state.text.push(a[0]) + behind =~= state.text + a);
    } else {
        assert(s[0] == '\n');
        assert(s.skip(1) =~= rest);
        assert(state.text + a =~= state.text);
    }
}

/// A line of plain text is shown as it is, in the plain style.
pub proof fn law_plain_lines_are_shown_as_they_are(line: Seq<char>)
    requires
        !line.contains('\u{1b}'),
        !line.contains('\n'),
    ensures
        preview_lines(line).len() == 1,
        line.len() > 0 ==> preview_lines(line)[0] == seq![(line, plain_style())],
        line.len() == 0 ==> preview_lines(line)[0].len() == 0,
        plain_style().color is None && plain_style().weight is Unset,
{
    let start = Parsing {
        lines: Seq::empty(),
        spans: Seq::empty(),
        text: Seq::empty(),
        style: plain_style(),
    };
    lemma_plain_text(start, line);
    assert(Seq::<char>::empty() + line =~= line);
    let spans = Seq::<SpanView>::empty().push((line, plain_style()));
    assert(spans =~= seq![(line, plain_style())]);
}

proof fn lemma_lines_follow(state: Parsing, lines: Seq<Seq<SpanView>>, s: Seq<char>)
    ensures
        lines_of((Parsing { lines: lines + state.lines, ..state }), s) == lines + lines_of(state, s),
    decreases s.len(),
{
    let longer = Parsing { lines: lines + state.lines, ..state };
    if s.len() == 0 {
        assert(longer.ended().lines =~= lines + state.ended().lines);
    } else if crate::ansi::starts_sequence(s) {
        let style = crate::ansi::styled_by(
            state.style,
            s.skip(2).take(codes_len(s.skip(2)) as int),
        );
        let next = Parsing { style, ..state.closed() };
        lemma_lines_follow(next, lines, crate::ansi::behind_sequence(s));
        assert(Parsing { style, ..longer.closed() } == Parsing {
            lines: lines + next.lines,
            ..next
        });
    } else if s[0] == '\n' {
        lemma_lines_follow(state.ended(), lines, s.skip(1));
        assert(longer.ended().lines =~= lines + state.ended().lines);
        assert(longer.ended() == Parsing {
            lines: lines + state.ended().lines,
            ..state.ended()
        });
    } else {
        let next = Parsing { text: state.text.push(s[0]), ..state };
        lemma_lines_follow(next, lines, s.skip(1));
        assert(Parsing { text: longer.text.push(s[0]), ..longer } == Parsing {
            lines: lines + next.lines,
            ..next
        });
    }
}

/// Each line of plain text is shown on a line of its own, in its place.
pub proof fn law_lines_of_text_are_shown_in_turn(line: Seq<char>, rest: Seq<char>)
    requires
        !line.contains('\u{1b}'),
        !line.contains('\n'),
    ensures
        preview_lines(line + seq!['\n'] + rest) == preview_lines(line) + preview_lines(rest),
{
    let start = Parsing {
        lines: Seq::empty(),
        spans: Seq::empty(),
        text: Seq::empty(),
        style: plain_style(),
    };
    lemma_plain_line(start, line, rest);
    lemma_plain_text(start, line);
    let first = Parsing { text: start.text + line, ..start }.ended();
    assert(preview_lines(line) == first.lines);
    lemma_lines_follow(start, first.lines, rest);
    assert(first.lines + start.lines =~= first.lines);
    assert(first == Parsing { lines: first.lines + start.lines, ..start });
}

// ---------------------------------------------------------------------------
// Spinners
// ---------------------------------------------------------------------------
/// Spinners at different places differ, and have different names.
pub proof fn law_spinners_differ(i: int, j: int)
    requires
        0 <= i < j < 9,
    ensures
        preset_at(i) != preset_at(j),
        preset_name(preset_at(i)) != preset_name(preset_at(j)),
{
    reveal_strlit("dots");
    reveal_strlit("pulse");
    reveal_strlit("fillsweep");
    reveal_strlit("diagswipe");
    reveal_strlit("cascade");
    reveal_strlit("columns");
    reveal_strlit("sand");
    reveal_strlit("waverows");
    reveal_strlit("scan");
    let a = preset_name(preset_at(i));
    let b = preset_name(preset_at(j));
    assert(a.len() != b.len() || a[0] != b[0] || a[1] != b[1]);
}

} // verus!
