//! What holds of the files that a command works on.

use crate::file_kind::{extension_kind, is_supported, is_tiff, kind_of, signature_kind};
use crate::glob::{component_matches, is_pattern};
use crate::order::{law_stable_sorted_is_ordered_permutation, stable_sorted, text_before, Ranking};
use crate::path::{
    directory_of, extension_of, name_of, pattern_text, ByFileName, FilePath, PathView,
};
use crate::targets::{
    answers_target, extension_requested, is_target, match_subject, names_metadata, normal_extension,
    supported_paths, ImageCandidate, ListedImage, TargetQuery,
};
use crate::text::{lower, lower_text, split_on, trim, trim_start_char, white_space};
use vstd::prelude::*;
use vstd::utf8::*;

verus! {

// ---------------------------------------------------------------------------
// Kinds of files
// ---------------------------------------------------------------------------
/// What the first bytes of a file tell of it.
pub proof fn law_signatures_tell_the_kind(rest: Seq<u8>)
    ensures
        signature_kind(seq![0xffu8, 0xd8, 0xff] + rest) == Some(
            ("JPEG"@, "jpg"@, "image/jpeg"@),
        ),
        signature_kind(seq![0x89u8, 0x50, 0x4e, 0x47, 0x0d, 0x0a, 0x1a, 0x0a] + rest) == Some(
            ("PNG"@, "png"@, "image/png"@),
        ),
        signature_kind(seq![0x49u8, 0x49, 0x2a, 0x00] + rest) == Some(
            ("TIFF"@, "tif"@, "image/tiff"@),
        ),
        signature_kind(seq![0x4du8, 0x4d, 0x00, 0x2a] + rest) == Some(
            ("TIFF"@, "tif"@, "image/tiff"@),
        ),
        signature_kind(seq![0xffu8, 0x0a] + rest) == Some(("JXL"@, "jxl"@, "image/jxl"@)),
{
    let a = seq![0xffu8, 0xd8, 0xff];
    assert((a + rest).subrange(0, 3) =~= a);
    let b = seq![0x89u8, 0x50, 0x4e, 0x47, 0x0d, 0x0a, 0x1a, 0x0a];
    assert((b + rest).subrange(0, 8) =~= b);
    assert((b + rest)[0] == 0x89);
    lemma_other_start(b + rest, seq![0xffu8, 0xd8, 0xff]);
    let c = seq![0x49u8, 0x49, 0x2a, 0x00];
    assert((c + rest).subrange(0, 4) =~= c);
    assert((c + rest)[0] == 0x49);
    lemma_other_start(c + rest, seq![0xffu8, 0xd8, 0xff]);
    lemma_other_start(c + rest, b);
    let d = seq![0x4du8, 0x4d, 0x00, 0x2a];
    assert((d + rest).subrange(0, 4) =~= d);
    assert((d + rest)[0] == 0x4d);
    lemma_other_start(d + rest, seq![0xffu8, 0xd8, 0xff]);
    lemma_other_start(d + rest, b);
    let e = seq![0xffu8, 0x0a];
    let whole = e + rest;
    assert(whole.subrange(0, 2) =~= e);
    assert(whole[0] == 0xff && whole[1] == 0x0a);
    if whole.len() >= 3 && whole.subrange(0, 3) == a {
        assert(whole.subrange(0, 3)[1] == 0xd8);
    }
    lemma_other_start(whole, b);
    lemma_other_start(whole, c);
    lemma_other_start(whole, d);
    lemma_other_start(whole, seq![0x52u8, 0x49, 0x46, 0x46]);
}

proof fn lemma_other_start(bytes: Seq<u8>, prefix: Seq<u8>)
    requires
        bytes.len() > 0,
        prefix.len() > 0,
        bytes[0] != prefix[0],
    ensures
        !crate::file_kind::bytes_start_with(bytes, prefix),
{
    if crate::file_kind::bytes_start_with(bytes, prefix) {
        assert(bytes.subrange(0, prefix.len() as int)[0] == bytes[0]);
    }
}

/// A kind that is told by the first bytes of a file is the one that its usual
/// extension tells.
pub proof fn law_signatures_and_extensions_agree(bytes: Seq<u8>)
    requires
        signature_kind(bytes) is Some,
    ensures
        extension_kind(signature_kind(bytes)->Some_0.1) == signature_kind(bytes),
{
    lemma_extensions_differ();
}

proof fn lemma_extensions_differ()
    ensures
        "png"@[0] == 'p' && "png"@.len() == 3,
        "jpg"@[1] == 'p' && "jpg"@[0] == 'j' && "jpg"@.len() == 3,
        "jpeg"@[0] == 'j' && "jpeg"@.len() == 4,
        "tif"@[0] == 't' && "tif"@.len() == 3,
        "tiff"@[0] == 't' && "tiff"@.len() == 4,
        "webp"@[0] == 'w' && "webp"@.len() == 4,
        "jxl"@[0] == 'j' && "jxl"@[1] == 'x' && "jxl"@.len() == 3,
        "heif"@[0] == 'h' && "heif"@[3] == 'f' && "heif"@.len() == 4,
        "heic"@[0] == 'h' && "heic"@[3] == 'c' && "heic"@.len() == 4,
        "hif"@[0] == 'h' && "hif"@.len() == 3,
        "avif"@[0] == 'a' && "avif"@.len() == 4,
{
    reveal_strlit("jpg");
    reveal_strlit("jpeg");
    reveal_strlit("png");
    reveal_strlit("tif");
    reveal_strlit("tiff");
    reveal_strlit("webp");
    reveal_strlit("jxl");
    reveal_strlit("heif");
    reveal_strlit("heic");
    reveal_strlit("hif");
    reveal_strlit("avif");
}

/// A file is an image by its first bytes where they tell a kind, whatever its
/// extension; else by its extension, in either case. The extensions of images are
/// these and no others.
pub proof fn law_images_are_told_by_content_or_extension(
    path: FilePath,
    signature: Option<Vec<u8>>,
)
    ensures
        signature is Some && signature_kind(signature->Some_0@) is Some ==> kind_of(path, signature)
            == signature_kind(signature->Some_0@) && is_supported(path, signature),
        !(signature is Some && signature_kind(signature->Some_0@) is Some) ==> (is_supported(
            path,
            signature,
        ) <==> path.extension is Some && {
            let extension = lower_text(path.extension->Some_0@);
            ||| extension == "jpg"@
            ||| extension == "jpeg"@
            ||| extension == "png"@
            ||| extension == "tif"@
            ||| extension == "tiff"@
            ||| extension == "webp"@
            ||| extension == "jxl"@
            ||| extension == "heif"@
            ||| extension == "hif"@
            ||| extension == "heic"@
            ||| extension == "avif"@
        }),
{
}

/// A file without telling first bytes is a TIFF image if and only if its extension is
/// one of the two of TIFF.
pub proof fn law_tiff_images_are_told_by_extension(path: FilePath, signature: Option<Vec<u8>>)
    requires
        !(signature is Some && signature_kind(signature->Some_0@) is Some),
    ensures
        is_tiff(path, signature) <==> path.extension is Some && (lower_text(
            path.extension->Some_0@,
        ) == "tif"@ || lower_text(path.extension->Some_0@) == "tiff"@),
{
    lemma_extensions_differ();
    lemma_kinds_differ();
}

proof fn lemma_kinds_differ()
    ensures
        "TIFF"@.len() == 4 && "TIFF"@[0] == 'T',
        "JPEG"@[0] == 'J',
        "PNG"@[0] == 'P',
        "WEBP"@[0] == 'W',
        "JXL"@[0] == 'J',
        "HEIF"@[0] == 'H',
        "HEIC"@[0] == 'H',
        "AVIF"@[0] == 'A',
{
    reveal_strlit("TIFF");
    reveal_strlit("JPEG");
    reveal_strlit("PNG");
    reveal_strlit("WEBP");
    reveal_strlit("JXL");
    reveal_strlit("HEIF");
    reveal_strlit("HEIC");
    reveal_strlit("AVIF");
}

/// A file that starts like a TIFF image is one, whatever its extension; one that
/// starts like a JPEG or PNG image is none.
pub proof fn law_tiff_images_are_told_by_content(
    path: FilePath,
    signature: Option<Vec<u8>>,
    rest: Seq<u8>,
)
    requires
        signature is Some,
    ensures
        signature->Some_0@ == seq![0x49u8, 0x49, 0x2a, 0x00] + rest ==> is_tiff(path, signature),
        signature->Some_0@ == seq![0x4du8, 0x4d, 0x00, 0x2a] + rest ==> is_tiff(path, signature),
        signature->Some_0@ == seq![0xffu8, 0xd8, 0xff] + rest ==> !is_tiff(path, signature),
        signature->Some_0@ == seq![0x89u8, 0x50, 0x4e, 0x47, 0x0d, 0x0a, 0x1a, 0x0a] + rest
            ==> !is_tiff(path, signature),
{
    law_signatures_tell_the_kind(rest);
    lemma_kinds_differ();
}

// ---------------------------------------------------------------------------
// Extensions
// ---------------------------------------------------------------------------
/// Where no extension is asked for every image is a target; where some are, the images
/// with one of them are, and no other file is.
pub proof fn law_extensions_select_images(candidate: ImageCandidate, requested: Seq<Seq<char>>)
    ensures
        requested.len() == 0 ==> (is_target(candidate, requested) <==> is_supported(
            candidate.path,
            candidate.signature,
        )),
        is_target(candidate, requested) ==> is_supported(candidate.path, candidate.signature),
        forall|i: int|
            #![trigger requested[i]]
            0 <= i < requested.len() && candidate.path.extension is Some && normal_extension(
                requested[i],
            ) == lower_text(candidate.path.extension->Some_0@) && lower_text(
                candidate.path.extension->Some_0@,
            ).len() > 0 && is_supported(candidate.path, candidate.signature) ==> is_target(
                candidate,
                requested,
            ),
        (exists|i: int|
            0 <= i < requested.len() && normal_extension(#[trigger] requested[i]).len() > 0)
            && is_target(candidate, requested) ==> candidate.path.extension is Some && exists|
            i: int,
        |
            0 <= i < requested.len() && normal_extension(#[trigger] requested[i]) == lower_text(
                candidate.path.extension->Some_0@,
            ),
{
    assert forall|i: int|
        #![trigger requested[i]]
        0 <= i < requested.len() && candidate.path.extension is Some && normal_extension(
            requested[i],
        ) == lower_text(candidate.path.extension->Some_0@) && lower_text(
            candidate.path.extension->Some_0@,
        ).len() > 0 && is_supported(candidate.path, candidate.signature) implies is_target(
        candidate,
        requested,
    ) by {
        assert(extension_requested(requested, extension_of(candidate.path)->Some_0));
    }
    if exists|i: int|
        0 <= i < requested.len() && normal_extension(#[trigger] requested[i]).len() > 0 {
        let i = choose|i: int|
            0 <= i < requested.len() && normal_extension(#[trigger] requested[i]).len() > 0;
        assert(extension_requested(requested, normal_extension(requested[i])));
    }
}

proof fn lemma_trimmed(text: Seq<char>)
    requires
        text.len() > 0,
        !white_space(text[0]),
        !white_space(text.last()),
    ensures
        trim(text) == text,
{
}

proof fn lemma_lower_is_32_on(c: char)
    requires
        'A' as u32 <= c as u32 <= 'Z' as u32,
    ensures
        lower(c) as u32 == c as u32 + 32,
{
    char_is_scalar(c);
}

/// An extension means the same with a dot before it and without, and in either case.
pub proof fn law_extensions_lose_dots_and_case(extension: Seq<char>)
    requires
        extension.len() > 0,
        !white_space(extension[0]),
        !white_space(extension.last()),
        extension[0] != '.',
    ensures
        normal_extension(extension) == lower_text(extension),
        normal_extension(seq!['.'] + extension) == lower_text(extension),
        normal_extension(extension).len() == extension.len(),
        forall|i: int|
            0 <= i < extension.len() && 'A' as u32 <= extension[i] as u32 <= 'Z' as u32
                ==> #[trigger] normal_extension(extension)[i] as u32 == extension[i] as u32 + 32,
        forall|i: int|
            0 <= i < extension.len() && 'a' as u32 <= extension[i] as u32 <= 'z' as u32
                ==> #[trigger] normal_extension(extension)[i] == extension[i],
{
    lemma_trimmed(extension);
    let dotted = seq!['.'] + extension;
    lemma_trimmed(dotted);
    assert(trim_start_char(extension, '.') == extension);
    assert(dotted.skip(1) =~= extension);
    assert(trim_start_char(dotted, '.') == trim_start_char(extension, '.'));
    assert forall|i: int|
        0 <= i < extension.len() && 'A' as u32 <= extension[i] as u32 <= 'Z' as u32 implies
        #[trigger] normal_extension(extension)[i] as u32 == extension[i] as u32 + 32 by {
        let c = extension[i];
        assert(normal_extension(extension)[i] == lower(c));
        lemma_lower_is_32_on(c);
    }
}

/// The images of a directory are those that are supported, by name without case.
pub proof fn law_images_are_numbered_by_name(candidates: Seq<ImageCandidate>, i: int, j: int)
    requires
        0 <= i < j < stable_sorted::<FilePath, ByFileName>(supported_paths(candidates)).len(),
    ensures
        !text_before(
            lower_text(
                name_of(stable_sorted::<FilePath, ByFileName>(supported_paths(candidates))[j]),
            ),
            lower_text(
                name_of(stable_sorted::<FilePath, ByFileName>(supported_paths(candidates))[i]),
            ),
        ),
{
    let paths = supported_paths(candidates);
    law_stable_sorted_is_ordered_permutation::<FilePath, ByFileName>(paths);
    let sorted = stable_sorted::<FilePath, ByFileName>(paths);
    assert(!ByFileName::before(&sorted[j], &sorted[i]));
}

proof fn lemma_supported_paths(candidates: Seq<ImageCandidate>, path: FilePath)
    ensures
        supported_paths(candidates).contains(path) <==> exists|i: int|
            0 <= i < candidates.len() && (#[trigger] candidates[i]).path == path && is_supported(
                candidates[i].path,
                candidates[i].signature,
            ),
    decreases candidates.len(),
{
    if candidates.len() > 0 {
        let before = candidates.drop_last();
        let last = candidates.last();
        let all = supported_paths(candidates);
        let some = supported_paths(before);
        lemma_supported_paths(before, path);
        assert(candidates[candidates.len() - 1] == last);
        if all.contains(path) {
            let k = choose|k: int| 0 <= k < all.len() && all[k] == path;
            if k < some.len() {
                assert(some[k] == path);
                let i = choose|i: int|
                    0 <= i < before.len() && (#[trigger] before[i]).path == path && is_supported(
                        before[i].path,
                        before[i].signature,
                    );
                assert(candidates[i] == before[i]);
            }
        }
        if exists|i: int|
            0 <= i < candidates.len() && (#[trigger] candidates[i]).path == path && is_supported(
                candidates[i].path,
                candidates[i].signature,
            ) {
            let i = choose|i: int|
                0 <= i < candidates.len() && (#[trigger] candidates[i]).path == path
                    && is_supported(candidates[i].path, candidates[i].signature);
            if i < before.len() {
                assert(before[i] == candidates[i]);
                let k = choose|k: int| 0 <= k < some.len() && some[k] == path;
                assert(all[k] == path);
            } else {
                assert(all[some.len() as int] == path);
            }
        }
    }
}

/// A file is among the images of a directory if and only if it is a supported image.
pub proof fn law_supported_images_are_listed(candidates: Seq<ImageCandidate>, path: FilePath)
    ensures
        supported_paths(candidates).contains(path) <==> exists|i: int|
            0 <= i < candidates.len() && (#[trigger] candidates[i]).path == path && is_supported(
                candidates[i].path,
                candidates[i].signature,
            ),
{
    lemma_supported_paths(candidates, path);
}

// ---------------------------------------------------------------------------
// Patterns
// ---------------------------------------------------------------------------
/// A question mark stands for one byte, any other character but a star for itself in
/// either case.
pub proof fn law_characters_of_patterns_match_one_byte(
    pattern: Seq<u8>,
    subject: Seq<u8>,
    p: u8,
    s: u8,
)
    requires
        p != 0x2a,
    ensures
        component_matches(seq![p] + pattern, seq![s] + subject) <==> (p == 0x3f || p == s || (
        0x41 <= p <= 0x5a && s == p + 32) || (0x41 <= s <= 0x5a && p == s + 32))
            && component_matches(pattern, subject),
        !component_matches(seq![p] + pattern, Seq::empty()),
        component_matches(Seq::empty(), Seq::empty()),
        !component_matches(Seq::empty(), seq![s] + subject),
{
    assert((seq![p] + pattern).skip(1) =~= pattern);
    assert((seq![s] + subject).skip(1) =~= subject);
    assert((seq![p] + pattern)[0] == p);
    assert((seq![s] + subject)[0] == s);
}

/// A text is a pattern if and only if it holds a star or a question mark.
pub proof fn law_patterns_hold_wildcards(text: Seq<char>)
    ensures
        is_pattern(text) <==> exists|i: int|
            0 <= i < text.len() && (#[trigger] text[i] == '*' || text[i] == '?'),
{
    if is_pattern(text) {
        if text.contains('*') {
            let i = choose|i: int| 0 <= i < text.len() && text[i] == '*';
            assert(text[i] == '*');
        } else {
            let i = choose|i: int| 0 <= i < text.len() && text[i] == '?';
            assert(text[i] == '?');
        }
    }
}

/// A target with wildcards asks for the images that match it, of all directories
/// below where a part of it is a double star; any other asks for the file or directory
/// of that path, without the blanks around it.
pub proof fn law_targets_are_paths_or_patterns(query: TargetQuery, target: Seq<char>)
    requires
        answers_target(query, target),
    ensures
        query is Nothing <==> trim(target).len() == 0,
        query is Matching <==> trim(target).contains('*') || trim(target).contains('?'),
        query matches TargetQuery::Path(path) ==> path@ == trim(target),
        query matches TargetQuery::Matching { pattern, recursive } ==> {
            &&& pattern@.len() == trim(target).len()
            &&& recursive <==> split_on(pattern@, '/').contains(seq!['*', '*'])
            &&& forall|i: int|
                0 <= i < pattern@.len() ==> #[trigger] pattern@[i] == (if trim(target)[i]
                    == '\\' {
                    '/'
                } else {
                    trim(target)[i]
                })
        },
{
    reveal_strlit("**");
    assert("**"@ =~= seq!['*', '*']);
}

/// An image is matched by its path from the directory that is searched, unless the
/// pattern is an absolute path; backslashes count as slashes.
pub proof fn law_images_are_matched_from_the_directory(image: ListedImage, absolute: bool)
    ensures
        image.relative is Some && !absolute ==> match_subject(image, absolute) == pattern_text(
            image.relative->Some_0@,
        ),
        absolute ==> match_subject(image, absolute) == pattern_text(image.path.text@),
{
}

/// A path is that of metadata if and only if it is a directory, or has one of the two
/// extensions of YAML, in either case.
pub proof fn law_metadata_is_told_by_its_extension(path: PathView, is_directory: bool)
    ensures
        names_metadata(path, true),
        names_metadata(path, false) <==> path.extension is Some && (lower_text(
            path.extension->Some_0,
        ) == "yml"@ || lower_text(path.extension->Some_0) == "yaml"@),
{
}

/// A file without a directory is shown in the current one.
pub proof fn law_files_without_a_directory_are_here(path: FilePath)
    ensures
        path.parent is None ==> directory_of(path) == seq!['.'],
        path.parent is Some && path.parent->Some_0.text@.len() > 0 ==> directory_of(path)
            == path.parent->Some_0.text@,
        path.file_name is Some ==> name_of(path) == path.file_name->Some_0@,
{
    reveal_strlit(".");
    assert("."@ =~= seq!['.']);
}

} // verus!
