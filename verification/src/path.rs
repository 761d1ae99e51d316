//! Paths of files, with what the library's rules read of them.

use crate::order::{is_text_before, lemma_text_before_asymmetric, lemma_text_before_splits};
use crate::order::{text_before, Ranking};
use crate::text::{
    copy_text_option, lower_text, replace_char, same, text_lower, text_option, text_replace_char,
};
use std::path::PathBuf;
use vstd::prelude::*;

verus! {

/// An owned path of the platform.
#[verifier::external_type_specification]
#[verifier::external_body]
pub struct ExPathBuf(PathBuf);

/// Cloning a path gives the same path.
pub assume_specification[ <PathBuf as Clone>::clone ](path: &PathBuf) -> (r: PathBuf)
    ensures
        r == *path,
;

/// How a path is shown.
pub uninterp spec fn shown_path(path: PathBuf) -> Seq<char>;

/// The spelling that a path shares with every path of the same components.
pub uninterp spec fn spelled_components(path: PathBuf) -> Seq<char>;

/// The last component of a path, where it is a name and text.
pub uninterp spec fn last_component(path: PathBuf) -> Option<Seq<char>>;

/// What stands behind the last dot of the last component, where there is one and
/// it is text.
pub uninterp spec fn extension_part(path: PathBuf) -> Option<Seq<char>>;

/// Everything but the last component of a path.
pub uninterp spec fn directory_part(path: PathBuf) -> Option<PathBuf>;

/// `Path::display`, as a string. Which characters stand for bytes that are no
/// text is up to the platform that the program is built for, so nothing is
/// stated of the text but that it depends on the path alone.
#[verifier::external_body]
fn display_text(path: &PathBuf) -> (r: String)
    ensures
        r@ == shown_path(*path),
{
    path.display().to_string()
}

/// `Path::components`, put together again and written out with everything that
/// is no plain text escaped, as `Path` formats itself for debugging: one spelling
/// for all paths that compare equal, and a different one for all others. What
/// separates components is up to the platform that the program is built for, so
/// nothing is stated of the spelling but that it depends on the path alone.
#[verifier::external_body]
fn component_text(path: &PathBuf) -> (r: String)
    ensures
        r@ == spelled_components(*path),
{
    format!("{:?}", path.components().collect::<PathBuf>())
}

/// `Path::file_name`, where it is text. What separates components is up to the
/// platform that the program is built for, so nothing is stated of the name but
/// that it depends on the path alone.
#[verifier::external_body]
fn file_name_text(path: &PathBuf) -> (r: Option<String>)
    ensures
        text_option(r) == last_component(*path),
{
    path.file_name().and_then(|name| name.to_str()).map(|name| name.to_owned())
}

/// `Path::extension`, where it is text. What separates components is up to the
/// platform that the program is built for, so nothing is stated of the extension
/// but that it depends on the path alone.
#[verifier::external_body]
fn extension_text(path: &PathBuf) -> (r: Option<String>)
    ensures
        text_option(r) == extension_part(*path),
{
    path.extension().and_then(|extension| extension.to_str()).map(|text| text.to_owned())
}

/// `Path::parent`. What separates components is up to the platform that the
/// program is built for, so nothing is stated of the directory but that it
/// depends on the path alone.
#[verifier::external_body]
fn parent_path(path: &PathBuf) -> (r: Option<PathBuf>)
    ensures
        r == directory_part(*path),
{
    path.parent().map(|parent| parent.to_path_buf())
}

/// The directory part of a path.
#[derive(Debug, Clone)]
pub struct ParentPath {
    /// The directory itself.
    pub raw: PathBuf,
    /// How it is shown.
    pub text: String,
    /// The spelling that it shares with every path that compares equal, in
    /// quotes.
    pub identity: String,
}

/// A path of a file or a directory.
#[derive(Debug, Clone)]
pub struct FilePath {
    /// The path itself, for those who open it.
    pub raw: PathBuf,
    /// How it is shown.
    pub text: String,
    /// The spelling that it shares with every path that compares equal, in
    /// quotes.
    pub identity: String,
    /// Its last component, where that is a name and text.
    pub file_name: Option<String>,
    /// What stands behind the last dot of that name, where there is one.
    pub extension: Option<String>,
    /// Everything but its last component.
    pub parent: Option<ParentPath>,
}

/// What a path says, apart from how its texts are stored.
pub struct PathView {
    pub raw: PathBuf,
    pub text: Seq<char>,
    pub identity: Seq<char>,
    pub file_name: Option<Seq<char>>,
    pub extension: Option<Seq<char>>,
    pub parent: Option<(PathBuf, Seq<char>, Seq<char>)>,
}

impl View for FilePath {
    type V = PathView;

    open spec fn view(&self) -> PathView {
        PathView {
            raw: self.raw,
            text: self.text@,
            identity: self.identity@,
            file_name: text_option(self.file_name),
            extension: text_option(self.extension),
            parent: match self.parent {
                Some(parent) => Some((parent.raw, parent.text@, parent.identity@)),
                None => None,
            },
        }
    }
}

/// What a path of the platform says.
pub open spec fn path_view(raw: PathBuf) -> PathView {
    PathView {
        raw,
        text: shown_path(raw),
        identity: spelled_components(raw),
        file_name: last_component(raw),
        extension: extension_part(raw),
        parent: match directory_part(raw) {
            Some(parent) => Some((parent, shown_path(parent), spelled_components(parent))),
            None => None,
        },
    }
}

impl FilePath {
    /// Reads off a path what the rules need of it.
    pub fn from_path(raw: PathBuf) -> (r: FilePath)
        ensures
            r@ == path_view(raw),
    {
        let parent = match parent_path(&raw) {
            Some(parent) => {
                let text = display_text(&parent);
                let identity = component_text(&parent);
                Some(ParentPath { raw: parent, text, identity })
            },
            None => None,
        };
        FilePath {
            text: display_text(&raw),
            identity: component_text(&raw),
            file_name: file_name_text(&raw),
            extension: extension_text(&raw),
            parent,
            raw,
        }
    }

    /// A copy of the path.
    pub fn duplicate(&self) -> (r: FilePath)
        ensures
            r@ == self@,
    {
        let parent = match &self.parent {
            Some(parent) => Some(
                ParentPath {
                    raw: parent.raw.clone(),
                    text: parent.text.clone(),
                    identity: parent.identity.clone(),
                },
            ),
            None => None,
        };
        FilePath {
            raw: self.raw.clone(),
            text: self.text.clone(),
            identity: self.identity.clone(),
            file_name: copy_text_option(&self.file_name),
            extension: copy_text_option(&self.extension),
            parent,
        }
    }
}

/// Whether two paths name the same components.
pub fn paths_equal(a: &FilePath, b: &FilePath) -> (r: bool)
    ensures
        r == (a.identity@ == b.identity@),
{
    same(a.identity.as_str(), b.identity.as_str())
}

/// The extension in lower case.
pub open spec fn extension_of(path: FilePath) -> Option<Seq<char>> {
    match path.extension {
        Some(extension) => Some(lower_text(extension@)),
        None => None,
    }
}

/// The extension of a path in lower case.
pub fn file_extension(path: &FilePath) -> (r: Option<String>)
    ensures
        text_option(r) == extension_of(*path),
{
    match &path.extension {
        Some(extension) => Some(text_lower(extension.as_str())),
        None => None,
    }
}

/// The name of the file, or the whole path where it ends in none.
pub open spec fn name_of(path: FilePath) -> Seq<char> {
    match path.file_name {
        Some(name) => name@,
        None => path.text@,
    }
}

/// The name of a file, or its whole path where it has none.
pub fn file_name(path: &FilePath) -> (r: String)
    ensures
        r@ == name_of(*path),
{
    match &path.file_name {
        Some(name) => name.clone(),
        None => path.text.clone(),
    }
}

/// The heading of a file in a report.
pub fn write_file_heading(image: &FilePath) -> (r: String)
    ensures
        r@ == name_of(*image),
{
    file_name(image)
}

/// The directory of the file, `.` where the path names none.
pub open spec fn directory_of(path: FilePath) -> Seq<char> {
    if path.parent is Some && path.parent->Some_0.text@.len() > 0 {
        path.parent->Some_0.text@
    } else {
        "."@
    }
}

/// The directory of a path as it is shown.
pub fn directory_name(path: &FilePath) -> (r: String)
    ensures
        r@ == directory_of(*path),
{
    match &path.parent {
        Some(parent) => if parent.text.as_str().is_empty() {
            ".".to_owned()
        } else {
            parent.text.clone()
        },
        None => ".".to_owned(),
    }
}

/// The directory that a path lies in, as one to read.
pub enum ParentOrCurrent {
    Parent(PathBuf),
    Current,
}

/// The directory part of a path; the current directory where it has none.
pub fn path_parent_or_current(path: &FilePath) -> (r: ParentOrCurrent)
    ensures
        r == (if path.parent is Some && path.parent->Some_0.text@.len() > 0 {
            ParentOrCurrent::Parent(path.parent->Some_0.raw)
        } else {
            ParentOrCurrent::Current
        }),
{
    match &path.parent {
        Some(parent) => if parent.text.as_str().is_empty() {
            ParentOrCurrent::Current
        } else {
            ParentOrCurrent::Parent(parent.raw.clone())
        },
        None => ParentOrCurrent::Current,
    }
}

/// Whether a path names a file of the current directory without saying more.
pub open spec fn in_current_directory(path: FilePath) -> bool {
    path.parent is Some ==> path.parent->Some_0.text@.len() == 0
        || path.parent->Some_0.identity@ == "\".\""@
}

/// Whether a path says no more than a name.
pub fn is_current_directory_file(path: &FilePath) -> (r: bool)
    ensures
        r == in_current_directory(*path),
{
    match &path.parent {
        Some(parent) => parent.text.as_str().is_empty() || same(parent.identity.as_str(), "\".\""),
        None => true,
    }
}

/// A path as patterns are matched against it: with forward slashes only.
pub open spec fn pattern_text(text: Seq<char>) -> Seq<char> {
    replace_char(text, '\\', '/')
}

/// A path as patterns are matched against it.
pub fn path_to_pattern(path: &FilePath) -> (r: String)
    ensures
        r@ == pattern_text(path.text@),
{
    text_replace_char(path.text.as_str(), '\\', '/')
}

/// Paths in the order of their file names, whatever the case of the letters.
pub struct ByFileName {}

impl Ranking<FilePath> for ByFileName {
    open spec fn before(a: &FilePath, b: &FilePath) -> bool {
        text_before(lower_text(name_of(*a)), lower_text(name_of(*b)))
    }

    fn is_before(a: &FilePath, b: &FilePath) -> (r: bool) {
        let x = text_lower(file_name(a).as_str());
        let y = text_lower(file_name(b).as_str());
        is_text_before(x.as_str(), y.as_str())
    }

    proof fn lemma_asymmetric(a: &FilePath, b: &FilePath) {
        lemma_text_before_asymmetric(lower_text(name_of(*a)), lower_text(name_of(*b)));
    }

    proof fn lemma_splits(a: &FilePath, middle: &FilePath, b: &FilePath) {
        lemma_text_before_splits(
            lower_text(name_of(*a)),
            lower_text(name_of(*middle)),
            lower_text(name_of(*b)),
        );
    }
}

/// Paths in the order of the texts that patterns are matched against.
pub struct ByPattern {}

impl Ranking<FilePath> for ByPattern {
    open spec fn before(a: &FilePath, b: &FilePath) -> bool {
        text_before(pattern_text(a.text@), pattern_text(b.text@))
    }

    fn is_before(a: &FilePath, b: &FilePath) -> (r: bool) {
        is_text_before(path_to_pattern(a).as_str(), path_to_pattern(b).as_str())
    }

    proof fn lemma_asymmetric(a: &FilePath, b: &FilePath) {
        lemma_text_before_asymmetric(pattern_text(a.text@), pattern_text(b.text@));
    }

    proof fn lemma_splits(a: &FilePath, middle: &FilePath, b: &FilePath) {
        lemma_text_before_splits(
            pattern_text(a.text@),
            pattern_text(middle.text@),
            pattern_text(b.text@),
        );
    }
}

} // verus!
