//! Where the metadata file of a run lies.

use crate::path::FilePath;
use crate::targets::PathKind;
use crate::text::texts;
use vstd::prelude::*;

verus! {

pub const METADATA_FILE_NAME: &'static str = "metadata.yml";

pub const LEGACY_METADATA_FILE_NAME: &'static str = "metadata.yaml";

/// The metadata file that was found, and what there is to warn about.
#[derive(Debug, Clone)]
pub struct MetadataPathResolution {
    pub path: FilePath,
    pub warnings: Vec<String>,
}

/// Where to look for the metadata file.
pub enum MetadataLookup {
    /// It is this file.
    File(MetadataPathResolution),
    /// It is in this directory.
    Directory(FilePath),
    /// It is in the current directory.
    CurrentDirectory,
    /// It is nowhere.
    Failed(String),
}

/// Where the argument of a command says that the metadata file is: the file
/// itself, a directory, or without an argument the current directory.
pub fn resolve_metadata_path(argument: Option<(FilePath, PathKind)>) -> (r: MetadataLookup)
    ensures
        match argument {
            None => r is CurrentDirectory,
            Some((path, PathKind::File)) => r matches MetadataLookup::File(found) && found.path
                == path && found.warnings@.len() == 0,
            Some((path, PathKind::Directory)) => r matches MetadataLookup::Directory(d) && d
                == path,
            Some((path, PathKind::Missing)) => r matches MetadataLookup::Failed(error) && error@
                == "metadata path does not exist: "@ + path.text@,
        },
{
    match argument {
        None => MetadataLookup::CurrentDirectory,
        Some((path, kind)) => match kind {
            PathKind::File => MetadataLookup::File(
                MetadataPathResolution { path, warnings: Vec::new() },
            ),
            PathKind::Directory => MetadataLookup::Directory(path),
            PathKind::Missing => {
                let mut error = "metadata path does not exist: ".to_owned();
                error.push_str(path.text.as_str());
                MetadataLookup::Failed(error)
            },
        },
    }
}

/// The metadata file of a directory: `metadata.yml`, or else `metadata.yaml`.
/// Where both exist the second is ignored with a warning.
pub fn resolve_metadata_path_in_directory(
    directory: &str,
    yml: FilePath,
    yml_exists: bool,
    yaml: FilePath,
    yaml_exists: bool,
) -> (r: Result<MetadataPathResolution, String>)
    ensures
        match r {
            Ok(found) => {
                &&& yml_exists || yaml_exists
                &&& found.path == (if yml_exists {
                    yml
                } else {
                    yaml
                })
                &&& texts(found.warnings@) == (if yml_exists && yaml_exists {
                    seq![yaml.text@ + " also exists and was ignored"@]
                } else {
                    Seq::empty()
                })
            },
            Err(error) => {
                &&& !yml_exists && !yaml_exists
                &&& error@ == "no metadata.yml or metadata.yaml found in "@ + directory@
            },
        },
{
    if yml_exists {
        let mut warnings: Vec<String> = Vec::new();
        if yaml_exists {
            let mut warning = yaml.text.clone();
            warning.push_str(" also exists and was ignored");
            warnings.push(warning);
        }
        proof {
            assert(texts(warnings@) =~= (if yaml_exists {
                seq![yaml.text@ + " also exists and was ignored"@]
            } else {
                Seq::empty()
            }));
        }
        return Ok(MetadataPathResolution { path: yml, warnings });
    }
    if yaml_exists {
        let warnings: Vec<String> = Vec::new();
        proof {
            assert(texts(warnings@) =~= Seq::empty());
        }
        return Ok(MetadataPathResolution { path: yaml, warnings });
    }
    let mut error = "no metadata.yml or metadata.yaml found in ".to_owned();
    error.push_str(directory);
    Err(error)
}

/// Whether an image to read is there: it must exist and be a file.
pub fn check_image_path(image: &FilePath, is_present: bool, is_file: bool) -> (r: Result<(), String>)
    ensures
        match r {
            Ok(_) => is_present && is_file,
            Err(error) => if !is_present {
                error@ == "image does not exist: "@ + image.text@
            } else {
                !is_file && error@ == "image path is not a file: "@ + image.text@
            },
        },
{
    if !is_present {
        let mut error = "image does not exist: ".to_owned();
        error.push_str(image.text.as_str());
        return Err(error);
    }
    if !is_file {
        let mut error = "image path is not a file: ".to_owned();
        error.push_str(image.text.as_str());
        return Err(error);
    }
    Ok(())
}

} // verus!
