//! Which image files a command works on.

use crate::cli::WriteArgs;
use crate::file_kind::{is_supported, is_supported_image_file};
use crate::glob::{contains_glob, glob_matches, is_pattern, path_matches};
use crate::order::{law_stable_sorted_is_ordered_permutation, stable_sort, stable_sorted};
use crate::path::{
    extension_of, file_extension, path_to_pattern, path_view, paths_equal, pattern_text, shown_path,
    ByFileName, ByPattern, FilePath, PathView,
};
use crate::text::{
    copy_text_option, list_contains, lower_text, same, split_on, text_lower, text_option,
    text_replace_char, text_split, text_trim, text_trim_start_char, texts, trim, trim_start_char,
};
use vstd::prelude::*;
use vstd::string::*;

verus! {

/// A file that may be an image, with its first bytes where it could be read.
#[derive(Debug, Clone)]
pub struct ImageCandidate {
    pub path: FilePath,
    pub signature: Option<Vec<u8>>,
}

/// The paths of the candidates that are supported images.
pub open spec fn supported_paths(candidates: Seq<ImageCandidate>) -> Seq<FilePath>
    decreases candidates.len(),
{
    if candidates.len() == 0 {
        Seq::empty()
    } else {
        let before = supported_paths(candidates.drop_last());
        let last = candidates.last();
        if is_supported(last.path, last.signature) {
            before.push(last.path)
        } else {
            before
        }
    }
}

/// The supported images of a directory, by file name.
pub fn supported_image_files(candidates: Vec<ImageCandidate>) -> (r: Vec<FilePath>)
    ensures
        r@ == stable_sorted::<FilePath, ByFileName>(supported_paths(candidates@)),
{
    let ghost input = candidates@;
    let mut paths: Vec<FilePath> = Vec::new();
    for candidate in it: candidates
        invariant
            it.seq() == input,
            paths@ == supported_paths(input.take(it.index())),
    {
        proof {
            assert(input.take(it.index() + 1).drop_last() =~= input.take(it.index()));
        }
        if is_supported_image_file(&candidate.path, &candidate.signature) {
            paths.push(candidate.path);
        }
    }
    proof {
        assert(input.take(input.len() as int) =~= input);
    }
    stable_sort::<FilePath, ByFileName>(paths)
}

/// An extension as it was asked for, without blanks, leading dots and case.
pub open spec fn normal_extension(extension: Seq<char>) -> Seq<char> {
    lower_text(trim_start_char(trim(extension), '.'))
}

/// Whether `extension` was asked for.
pub open spec fn extension_requested(requested: Seq<Seq<char>>, extension: Seq<char>) -> bool {
    extension.len() > 0 && exists|i: int|
        0 <= i < requested.len() && normal_extension(#[trigger] requested[i]) == extension
}

/// The extensions that were asked for, each once.
pub fn normalized_extensions(extensions: &Vec<String>) -> (r: Vec<String>)
    ensures
        texts(r@).no_duplicates(),
        forall|e: Seq<char>| #[trigger]
            texts(r@).contains(e) <==> extension_requested(texts(extensions@), e),
{
    let mut out: Vec<String> = Vec::new();
    let mut i: usize = 0;
    let ghost all = texts(extensions@);
    while i < extensions.len()
        invariant
            i <= extensions@.len(),
            all == texts(extensions@),
            texts(out@).no_duplicates(),
            forall|e: Seq<char>| #[trigger]
                texts(out@).contains(e) <==> extension_requested(all.take(i as int), e),
        decreases extensions@.len() - i,
    {
        let normalized = text_lower(
            text_trim_start_char(text_trim(extensions[i].as_str()), '.'),
        );
        let ghost n = normalized@;
        let ghost prior = texts(out@);
        proof {
            assert(n == normal_extension(all[i as int]));
            assert forall|e: Seq<char>|
                extension_requested(all.take(i + 1), e) <==> (extension_requested(
                    all.take(i as int),
                    e,
                ) || (e.len() > 0 && e == n)) by {
                if extension_requested(all.take(i + 1), e) {
                    let k = choose|k: int|
                        0 <= k < i + 1 && normal_extension(#[trigger] all.take(i + 1)[k]) == e;
                    if k < i {
                        assert(all.take(i as int)[k] == all.take(i + 1)[k]);
                    }
                }
                if extension_requested(all.take(i as int), e) {
                    let k = choose|k: int|
                        0 <= k < i && normal_extension(#[trigger] all.take(i as int)[k]) == e;
                    assert(all.take(i + 1)[k] == all.take(i as int)[k]);
                }
                if e.len() > 0 && e == n {
                    assert(all.take(i + 1)[i as int] == all[i as int]);
                }
            }
        }
        if !normalized.as_str().is_empty() && !list_contains(&out, normalized.as_str()) {
            out.push(normalized);
            proof {
                assert(texts(out@) =~= prior.push(n));
                assert forall|e: Seq<char>| #[trigger]
                    texts(out@).contains(e) <==> (prior.contains(e) || e == n) by {
                    if prior.contains(e) {
                        let k = choose|k: int| 0 <= k < prior.len() && prior[k] == e;
                        assert(texts(out@)[k] == e);
                    }
                    if e == n {
                        assert(texts(out@)[prior.len() as int] == n);
                    }
                }
            }
        }
        i += 1;
    }
    proof {
        assert(all.take(all.len() as int) =~= all);
    }
    out
}

/// Whether a candidate is an image with an extension that was asked for; where
/// none was asked for, every extension will do.
pub open spec fn is_target(candidate: ImageCandidate, requested: Seq<Seq<char>>) -> bool {
    &&& is_supported(candidate.path, candidate.signature)
    &&& (forall|e: Seq<char>| !#[trigger] extension_requested(requested, e)) || (extension_of(
        candidate.path,
    ) is Some && extension_requested(requested, extension_of(candidate.path)->Some_0))
}

/// The paths of the candidates that are targets.
pub open spec fn target_paths(
    candidates: Seq<ImageCandidate>,
    requested: Seq<Seq<char>>,
) -> Seq<FilePath>
    decreases candidates.len(),
{
    if candidates.len() == 0 {
        Seq::empty()
    } else {
        let before = target_paths(candidates.drop_last(), requested);
        if is_target(candidates.last(), requested) {
            before.push(candidates.last().path)
        } else {
            before
        }
    }
}

/// `paths` without those that name the same file as the path before them.
pub open spec fn without_repeats(paths: Seq<FilePath>) -> Seq<FilePath>
    decreases paths.len(),
{
    if paths.len() == 0 {
        Seq::empty()
    } else {
        let before = without_repeats(paths.drop_last());
        if before.len() > 0 && before.last().identity@ == paths.last().identity@ {
            before
        } else {
            before.push(paths.last())
        }
    }
}

fn drop_repeats(paths: Vec<FilePath>) -> (r: Vec<FilePath>)
    ensures
        r@ == without_repeats(paths@),
{
    let ghost input = paths@;
    let mut out: Vec<FilePath> = Vec::new();
    for path in it: paths
        invariant
            it.seq() == input,
            out@ == without_repeats(input.take(it.index())),
    {
        proof {
            assert(input.take(it.index() + 1).drop_last() =~= input.take(it.index()));
        }
        let n: usize = out.len();
        if n > 0 && paths_equal(&out[n - 1], &path) {
        } else {
            out.push(path);
        }
    }
    proof {
        assert(input.take(input.len() as int) =~= input);
    }
    out
}

/// The images to work on, out of those that a pattern or a directory gave: the
/// supported ones with an allowed extension, by path, each once.
pub open spec fn targets_of(
    candidates: Seq<ImageCandidate>,
    requested: Seq<Seq<char>>,
) -> Seq<FilePath> {
    without_repeats(stable_sorted::<FilePath, ByPattern>(target_paths(candidates, requested)))
}

/// The images to work on.
pub fn resolve_write_targets(candidates: Vec<ImageCandidate>, extensions: &Vec<String>) -> (r: Vec<
    FilePath,
>)
    ensures
        r@ == targets_of(candidates@, texts(extensions@)),
{
    let allowed = normalized_extensions(extensions);
    let ghost requested = texts(extensions@);
    let ghost input = candidates@;
    let mut paths: Vec<FilePath> = Vec::new();
    for candidate in it: candidates
        invariant
            it.seq() == input,
            requested == texts(extensions@),
            forall|e: Seq<char>| #[trigger]
                texts(allowed@).contains(e) <==> extension_requested(requested, e),
            paths@ == target_paths(input.take(it.index()), requested),
    {
        proof {
            assert(input.take(it.index() + 1).drop_last() =~= input.take(it.index()));
            if allowed@.len() > 0 {
                assert(texts(allowed@).contains(texts(allowed@)[0]));
            } else {
                assert forall|e: Seq<char>| !#[trigger] extension_requested(requested, e) by {
                    assert(!texts(allowed@).contains(e));
                }
            }
        }
        let fits = if allowed.len() == 0 {
            true
        } else {
            match file_extension(&candidate.path) {
                Some(extension) => list_contains(&allowed, extension.as_str()),
                None => false,
            }
        };
        if is_supported_image_file(&candidate.path, &candidate.signature) && fits {
            paths.push(candidate.path);
        }
    }
    proof {
        assert(input.take(input.len() as int) =~= input);
    }
    drop_repeats(stable_sort::<FilePath, ByPattern>(paths))
}

proof fn lemma_target_paths(candidates: Seq<ImageCandidate>, requested: Seq<Seq<char>>)
    ensures
        forall|k: int|
            0 <= k < target_paths(candidates, requested).len() ==> exists|i: int|
                0 <= i < candidates.len() && is_target(#[trigger] candidates[i], requested)
                    && candidates[i].path == #[trigger] target_paths(candidates, requested)[k],
        forall|i: int|
            0 <= i < candidates.len() && is_target(#[trigger] candidates[i], requested)
                ==> target_paths(candidates, requested).contains(candidates[i].path),
    decreases candidates.len(),
{
    if candidates.len() > 0 {
        let before = candidates.drop_last();
        let paths = target_paths(before, requested);
        let all = target_paths(candidates, requested);
        lemma_target_paths(before, requested);
        assert forall|k: int| 0 <= k < all.len() implies exists|i: int|
            0 <= i < candidates.len() && is_target(#[trigger] candidates[i], requested)
                && candidates[i].path == #[trigger] all[k] by {
            if k < paths.len() {
                let i = choose|i: int|
                    0 <= i < before.len() && is_target(#[trigger] before[i], requested)
                        && before[i].path == paths[k];
                assert(candidates[i] == before[i]);
            } else {
                assert(candidates[candidates.len() - 1] == candidates.last());
            }
        }
        assert forall|i: int|
            0 <= i < candidates.len() && is_target(
                #[trigger] candidates[i],
                requested,
            ) implies all.contains(candidates[i].path) by {
            if i < before.len() {
                assert(before[i] == candidates[i]);
                let k = choose|k: int| 0 <= k < paths.len() && paths[k] == candidates[i].path;
                assert(all[k] == candidates[i].path);
            } else {
                assert(all[paths.len() as int] == candidates[i].path);
            }
        }
    }
}

proof fn lemma_without_repeats(paths: Seq<FilePath>)
    ensures
        paths.len() > 0 ==> without_repeats(paths).len() > 0
            && without_repeats(paths).last().identity@ == paths.last().identity@,
        forall|k: int|
            0 <= k < without_repeats(paths).len() ==> paths.contains(
                #[trigger] without_repeats(paths)[k],
            ),
        forall|i: int|
            0 <= i < paths.len() ==> names_file(
                without_repeats(paths),
                (#[trigger] paths[i]).identity@,
            ),
        forall|k: int|
            0 <= k < without_repeats(paths).len() - 1 ==> (
            #[trigger] without_repeats(paths)[k]).identity@ != without_repeats(
                paths,
            )[k + 1].identity@,
    decreases paths.len(),
{
    if paths.len() > 0 {
        let before = paths.drop_last();
        lemma_without_repeats(before);
        let kept = without_repeats(before);
        let all = without_repeats(paths);
        assert forall|k: int| 0 <= k < all.len() implies paths.contains(#[trigger] all[k]) by {
            if k < kept.len() {
                let i = choose|i: int| 0 <= i < before.len() && before[i] == kept[k];
                assert(paths[i] == all[k]);
            } else {
                assert(paths[paths.len() - 1] == all[k]);
            }
        }
        assert forall|i: int| 0 <= i < paths.len() implies names_file(
            all,
            (#[trigger] paths[i]).identity@,
        ) by {
            if i < before.len() {
                assert(before[i] == paths[i]);
                let k = choose|k: int|
                    0 <= k < kept.len() && (#[trigger] kept[k]).identity@ == paths[i].identity@;
                assert(all[k] == kept[k]);
            } else {
                assert(all[all.len() - 1].identity@ == paths[i].identity@);
            }
        }
    }
}

/// Whether one of some paths is that of a file.
pub open spec fn names_file(paths: Seq<FilePath>, identity: Seq<char>) -> bool {
    exists|k: int| 0 <= k < paths.len() && (#[trigger] paths[k]).identity@ == identity
}

/// Every target is a candidate that is a supported image with an extension that
/// was asked for.
pub proof fn law_targets_are_asked_for(
    candidates: Seq<ImageCandidate>,
    requested: Seq<Seq<char>>,
    k: int,
)
    requires
        0 <= k < targets_of(candidates, requested).len(),
    ensures
        exists|i: int|
            0 <= i < candidates.len() && is_target(#[trigger] candidates[i], requested)
                && candidates[i].path == targets_of(candidates, requested)[k],
{
    broadcast use vstd::seq_lib::group_to_multiset_ensures;

    let paths = target_paths(candidates, requested);
    let sorted = stable_sorted::<FilePath, ByPattern>(paths);
    lemma_target_paths(candidates, requested);
    law_stable_sorted_is_ordered_permutation::<FilePath, ByPattern>(paths);
    lemma_without_repeats(sorted);
    let target = targets_of(candidates, requested)[k];
    assert(sorted.contains(target));
    assert(sorted.to_multiset().contains(target));
    assert(paths.to_multiset().contains(target));
    let at = choose|at: int| 0 <= at < paths.len() && paths[at] == target;
}

/// Every candidate that is a supported image with an extension that was asked
/// for is among the targets.
pub proof fn law_what_is_asked_for_is_a_target(
    candidates: Seq<ImageCandidate>,
    requested: Seq<Seq<char>>,
    i: int,
)
    requires
        0 <= i < candidates.len(),
        is_target(candidates[i], requested),
    ensures
        names_file(targets_of(candidates, requested), candidates[i].path.identity@),
{
    broadcast use vstd::seq_lib::group_to_multiset_ensures;

    let paths = target_paths(candidates, requested);
    let sorted = stable_sorted::<FilePath, ByPattern>(paths);
    lemma_target_paths(candidates, requested);
    law_stable_sorted_is_ordered_permutation::<FilePath, ByPattern>(paths);
    lemma_without_repeats(sorted);
    let path = candidates[i].path;
    assert(paths.contains(path));
    assert(paths.to_multiset().contains(path));
    assert(sorted.to_multiset().contains(path));
    let at = choose|at: int| 0 <= at < sorted.len() && sorted[at] == path;
    assert(names_file(without_repeats(sorted), sorted[at].identity@));
}

/// No target is followed by the same file again.
pub proof fn law_neighbouring_targets_differ(
    candidates: Seq<ImageCandidate>,
    requested: Seq<Seq<char>>,
    k: int,
)
    requires
        0 <= k < targets_of(candidates, requested).len() - 1,
    ensures
        targets_of(candidates, requested)[k].identity@ != targets_of(
            candidates,
            requested,
        )[k + 1].identity@,
{
    lemma_without_repeats(
        stable_sorted::<FilePath, ByPattern>(target_paths(candidates, requested)),
    );
}

/// What an explicit target asks for.
pub enum TargetQuery {
    /// Nothing: it is blank.
    Nothing,
    /// The file or directory of that path.
    Path(String),
    /// The images of the directory, or of all below it, that match a pattern.
    Matching { pattern: String, recursive: bool },
}

/// Whether a query says what the explicit target `target` asks for.
pub open spec fn answers_target(query: TargetQuery, target: Seq<char>) -> bool {
    let wanted = trim(target);
    match query {
        TargetQuery::Nothing => wanted.len() == 0,
        TargetQuery::Path(path) => wanted.len() > 0 && !is_pattern(wanted) && path@ == wanted,
        TargetQuery::Matching { pattern, recursive } => {
            &&& is_pattern(wanted)
            &&& pattern@ == pattern_text(wanted)
            &&& recursive == split_on(pattern_text(wanted), '/').contains("**"@)
        },
    }
}

/// What a target asks for.
pub fn resolve_explicit_targets(target: &str) -> (r: TargetQuery)
    ensures
        answers_target(r, target@),
{
    let wanted = text_trim(target);
    if wanted.is_empty() {
        return TargetQuery::Nothing;
    }
    if !contains_glob(wanted) {
        return TargetQuery::Path(wanted.to_owned());
    }
    let pattern = text_replace_char(wanted, '\\', '/');
    let parts = text_split(pattern.as_str(), '/');
    let recursive = list_contains(&parts, "**");
    TargetQuery::Matching { pattern, recursive }
}

/// What a path is on disk.
#[derive(Debug, Clone, Copy, PartialEq, Eq, Structural)]
pub enum PathKind {
    File,
    Directory,
    Missing,
}

/// What an explicit path stands for.
pub enum PathTarget {
    /// All images of a directory, and of the directories in it where the flag
    /// is set.
    Directory(FilePath, bool),
    /// One file.
    File(FilePath),
    /// No file.
    Nothing,
}

/// A directory stands for its images, along with those of the directories in it
/// where that is asked for, a file for itself, any other path for nothing.
pub fn explicit_path_target(path: FilePath, kind: PathKind, recursive: bool) -> (r: PathTarget)
    ensures
        r == (match kind {
            PathKind::Directory => PathTarget::Directory(path, recursive),
            PathKind::File => PathTarget::File(path),
            PathKind::Missing => PathTarget::Nothing,
        }),
{
    match kind {
        PathKind::Directory => PathTarget::Directory(path, recursive),
        PathKind::File => PathTarget::File(path),
        PathKind::Missing => PathTarget::Nothing,
    }
}

/// An image found by listing a directory, and its path from there where it has
/// one.
#[derive(Debug, Clone)]
pub struct ListedImage {
    pub path: FilePath,
    pub relative: Option<String>,
}

/// The text that a pattern is matched against: the path from the listed
/// directory, or the whole path for an absolute pattern.
pub open spec fn match_subject(image: ListedImage, absolute: bool) -> Seq<char> {
    match image.relative {
        Some(relative) => if absolute {
            pattern_text(image.path.text@)
        } else {
            pattern_text(relative@)
        },
        None => pattern_text(image.path.text@),
    }
}

/// The paths of the images that match.
pub open spec fn matching_paths(
    images: Seq<ListedImage>,
    pattern: Seq<char>,
    absolute: bool,
) -> Seq<FilePath>
    decreases images.len(),
{
    if images.len() == 0 {
        Seq::empty()
    } else {
        let before = matching_paths(images.drop_last(), pattern, absolute);
        if path_matches(pattern, match_subject(images.last(), absolute)) {
            before.push(images.last().path)
        } else {
            before
        }
    }
}

/// The listed images that match a pattern, in their order.
pub fn matching_targets(images: Vec<ListedImage>, pattern: &str, absolute: bool) -> (r: Vec<
    FilePath,
>)
    ensures
        r@ == matching_paths(images@, pattern@, absolute),
{
    let ghost input = images@;
    let mut out: Vec<FilePath> = Vec::new();
    for image in it: images
        invariant
            it.seq() == input,
            out@ == matching_paths(input.take(it.index()), pattern@, absolute),
    {
        proof {
            assert(input.take(it.index() + 1).drop_last() =~= input.take(it.index()));
        }
        let subject = match &image.relative {
            Some(relative) => if absolute {
                path_to_pattern(&image.path)
            } else {
                text_replace_char(relative.as_str(), '\\', '/')
            },
            None => path_to_pattern(&image.path),
        };
        if glob_matches(pattern, subject.as_str()) {
            out.push(image.path);
        }
    }
    proof {
        assert(input.take(input.len() as int) =~= input);
    }
    out
}

/// Whether an argument names a metadata file or a directory to look for one
/// in, rather than images.
pub open spec fn names_metadata(path: PathView, is_directory: bool) -> bool {
    ||| is_directory
    ||| path.extension is Some && {
        let extension = lower_text(path.extension->Some_0);
        extension == "yaml"@ || extension == "yml"@
    }
}

/// Whether an argument names metadata rather than images.
pub fn looks_like_metadata_path(path: &FilePath, is_directory: bool) -> (r: bool)
    ensures
        r == names_metadata(path@, is_directory),
{
    is_directory || match &path.extension {
        Some(extension) => {
            let lowered = text_lower(extension.as_str());
            same(lowered.as_str(), "yaml") || same(lowered.as_str(), "yml")
        },
        None => false,
    }
}

/// What a write is asked to read its metadata from and to write to.
#[derive(Debug, Clone)]
pub struct WriteRequest {
    pub metadata: Option<FilePath>,
    pub targets: Option<String>,
}

impl WriteRequest {
    /// Reads the two positional arguments of a write: with both, the metadata
    /// and the targets; one alone is the metadata where it looks like it, else
    /// the targets.
    pub fn from_parts(first: Option<FilePath>, is_directory: bool, second: Option<String>) -> (r:
        WriteRequest)
        ensures
            r.metadata == (if first is Some && (second is Some || names_metadata(
                first->Some_0@,
                is_directory,
            )) {
                first
            } else {
                None
            }),
            text_option(r.targets) == (if first is Some && second is None && !names_metadata(
                first->Some_0@,
                is_directory,
            ) {
                Some(pattern_text(first->Some_0.text@))
            } else {
                text_option(second)
            }),
    {
        match first {
            Some(path) => match second {
                Some(targets) => WriteRequest { metadata: Some(path), targets: Some(targets) },
                None => if looks_like_metadata_path(&path, is_directory) {
                    WriteRequest { metadata: Some(path), targets: None }
                } else {
                    WriteRequest { metadata: None, targets: Some(path_to_pattern(&path)) }
                },
            },
            None => WriteRequest { metadata: None, targets: second },
        }
    }

    /// Reads the positional arguments of a write command; `is_directory` says
    /// whether the first names a directory.
    pub fn from_args(args: &WriteArgs, is_directory: bool) -> (r: WriteRequest)
        ensures
            match args.metadata_or_targets {
                None => r.metadata is None && text_option(r.targets) == text_option(args.targets),
                Some(raw) => if args.targets is Some || names_metadata(
                    path_view(raw),
                    is_directory,
                ) {
                    &&& r.metadata is Some && r.metadata->Some_0@ == path_view(raw)
                    &&& text_option(r.targets) == text_option(args.targets)
                } else {
                    &&& r.metadata is None
                    &&& text_option(r.targets) == Some(pattern_text(shown_path(raw)))
                },
            },
    {
        let first = match &args.metadata_or_targets {
            Some(path) => Some(FilePath::from_path(path.clone())),
            None => None,
        };
        WriteRequest::from_parts(first, is_directory, copy_text_option(&args.targets))
    }
}

} // verus!
