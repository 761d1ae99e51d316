//! Making a new metadata file.

use crate::error::CliError;
use crate::path::{file_name, name_of, FilePath};
use crate::text::{decimal, decimal_text, join, join_texts, replace, text_replace, texts};
use crate::yaml::{json_string, yaml_quoted_string};
use vstd::prelude::*;

verus! {

/// A metadata file with the places that are filled in marked by angle brackets.
pub const METADATA_TEMPLATE: &'static str = "# yaml-language-server: $schema=https://raw.githubusercontent.com/hmerritt/exif-medadata/master/schemas/metadata.schema.json

# ───────────────────────────────────────────────
# Metadata file for images in this directory. Used by exifmeta, https://github.com/hmerritt/exifmeta
# ───────────────────────────────────────────────

# ───────────────────────────────────────────────
# Custom Properties
# These values will not be written as EXIF, and are meant for personal organisational
# purposes — e.g. private metadata for your shoot
# ───────────────────────────────────────────────
roll: 1
date: <today>
date_end: <today>
frame_count: <image-count-in-directory>
notable_frames: []
locations: []

# ───────────────────────────────────────────────
# Global EXIF Properties
# Any valid EXIF tag can be set here. Non-standard tags can also be set here, and will
# be written together in a single custom property.
# ───────────────────────────────────────────────
exif:
    # Camera & Lens
    Make:
    Model:
    LensMake:
    LensModel:
    FocalLength:
    MaxApertureValue:

    # Film / Capture
    ISOSpeedRatings:
    DateTimeOriginal:
    CreateDate:
    # 1 = Film Scanner
    # 2 = Reflection Print Scanner
    # 3 = Digital Camera
    FileSource: 1

    # Film
    FilmRoll:
    FilmMaker:
    FilmName:
    FilmFormat:
    FilmColor:
    FilmNegative:
    # Film Development
    FilmDevelopProcess:
    FilmDeveloper:
    FilmProcessLab:
    FilmProcessDate:
    FilmScanner:

    # Attribution
    Artist:
    Photographer:

# ───────────────────────────────────────────────
# Per Frame/File EXIF Properties
# Use this to set EXIF tags for individual files, like ExposureTime, FNumber, or
# GPS data. Values set here will override the above `exif` values.
# ───────────────────────────────────────────────
frames:
<frames>
";

/// The key of the frame of an image.
pub open spec fn frame_line(image: FilePath) -> Seq<char> {
    "    "@ + json_string(name_of(image)) + ":"@
}

/// The keys of the frames of images.
pub open spec fn frame_lines(images: Seq<FilePath>) -> Seq<char> {
    join(images.map_values(|image: FilePath| frame_line(image)), "\n"@)
}

/// The lines of a new file for some images.
pub fn render_metadata_template_frames(images: &Vec<FilePath>) -> (r: String)
    ensures
        r@ == frame_lines(images@),
{
    let mut lines: Vec<String> = Vec::new();
    let mut i: usize = 0;
    while i < images.len()
        invariant
            i <= images@.len(),
            lines@.len() == i,
            forall|k: int| 0 <= k < i ==> (#[trigger] lines@[k])@ == frame_line(images@[k]),
        decreases images@.len() - i,
    {
        let mut line = "    ".to_owned();
        line.push_str(yaml_quoted_string(file_name(&images[i]).as_str()).as_str());
        line.push_str(":");
        lines.push(line);
        i += 1;
    }
    proof {
        assert(texts(lines@) =~= images@.map_values(|image: FilePath| frame_line(image)));
    }
    join_texts(&lines, "\n")
}

/// The template with the date, the number of images and their frames filled in.
pub open spec fn filled_template(
    template: Seq<char>,
    today: Seq<char>,
    count: nat,
    frames: Seq<char>,
) -> Seq<char> {
    replace(
        replace(
            replace(template, "<today>"@, today),
            "<image-count-in-directory>"@,
            decimal(count),
        ),
        "<frames>"@,
        frames,
    )
}

/// Fills the gaps of a template.
pub fn fill_template(template: &str, today: &str, count: usize, frames: &str) -> (r: String)
    ensures
        r@ == filled_template(template@, today@, count as nat, frames@),
{
    proof {
        reveal_strlit("<today>");
        reveal_strlit("<image-count-in-directory>");
        reveal_strlit("<frames>");
        assert("<today>"@.len() == 7 && "<frames>"@.len() == 8);
        assert("<image-count-in-directory>"@.len() == 26);
    }
    let dated = text_replace(template, "<today>", today);
    let counted = text_replace(
        dated.as_str(),
        "<image-count-in-directory>",
        decimal_text(count as u128).as_str(),
    );
    text_replace(counted.as_str(), "<frames>", frames)
}

/// The contents of a new metadata file.
pub fn render_metadata_template(today: &str, images: &Vec<FilePath>) -> (r: String)
    ensures
        r@ == filled_template(
            METADATA_TEMPLATE@,
            today@,
            images@.len(),
            frame_lines(images@),
        ),
{
    fill_template(
        METADATA_TEMPLATE,
        today,
        images.len(),
        render_metadata_template_frames(images).as_str(),
    )
}

/// What there is to do for a new metadata file.
pub enum NewPlan {
    /// Say what would be done.
    Report(String),
    /// Write these contents to the file, unless it has come to exist.
    Create(String),
}

/// Why no new metadata file is made, if so: the directory must be there, and no
/// such file in it, and its images must be known.
pub open spec fn is_new_error(
    error: CliError,
    directory: FilePath,
    is_present: bool,
    is_directory: bool,
    metadata: FilePath,
    metadata_is_present: bool,
    images: Result<Vec<FilePath>, String>,
) -> bool {
    if !is_present {
        error matches CliError::Error(text) && text@ == "new path does not exist: "@
            + directory.text@
    } else if !is_directory {
        error matches CliError::Error(text) && text@ == "new path is not a directory: "@
            + directory.text@
    } else if metadata_is_present {
        error matches CliError::Warning(text) && text@ == "metadata.yml already exists: "@
            + metadata.text@
    } else {
        images is Err && (error matches CliError::Error(text) && text@ == images->Err_0@)
    }
}

/// What a dry run says.
pub open spec fn new_report(metadata: FilePath, today: Seq<char>, count: nat) -> Seq<char> {
    "new: would create "@ + metadata.text@ + " (date="@ + today + ", frame_count="@ + decimal(count)
        + ")"@
}

/// Whether a plan is that for a new metadata file: a dry run reports it, any other
/// creates it.
pub open spec fn is_new_plan(
    plan: NewPlan,
    metadata: FilePath,
    images: Seq<FilePath>,
    today: Seq<char>,
    dry_run: bool,
) -> bool {
    match plan {
        NewPlan::Report(text) => dry_run && text@ == new_report(metadata, today, images.len()),
        NewPlan::Create(contents) => !dry_run && contents@ == filled_template(
            METADATA_TEMPLATE@,
            today,
            images.len(),
            frame_lines(images),
        ),
    }
}

/// Decides on a new metadata file in a directory.
pub fn new_command(
    directory: &FilePath,
    is_present: bool,
    is_directory: bool,
    metadata: &FilePath,
    metadata_is_present: bool,
    images: &Result<Vec<FilePath>, String>,
    today: &str,
    dry_run: bool,
) -> (r: Result<NewPlan, CliError>)
    ensures
        match r {
            Ok(plan) => {
                &&& is_present && is_directory && !metadata_is_present
                &&& images is Ok
                &&& is_new_plan(plan, *metadata, images->Ok_0@, today@, dry_run)
            },
            Err(error) => is_new_error(
                error,
                *directory,
                is_present,
                is_directory,
                *metadata,
                metadata_is_present,
                *images,
            ),
        },
{
    if !is_present {
        let mut error = "new path does not exist: ".to_owned();
        error.push_str(directory.text.as_str());
        return Err(CliError::Error(error));
    }
    if !is_directory {
        let mut error = "new path is not a directory: ".to_owned();
        error.push_str(directory.text.as_str());
        return Err(CliError::Error(error));
    }
    if metadata_is_present {
        return Err(metadata_exists_warning(metadata));
    }
    let images = match images {
        Ok(images) => images,
        Err(error) => return Err(CliError::Error(error.clone())),
    };
    if dry_run {
        let mut text = "new: would create ".to_owned();
        text.push_str(metadata.text.as_str());
        text.push_str(" (date=");
        text.push_str(today);
        text.push_str(", frame_count=");
        text.push_str(decimal_text(images.len() as u128).as_str());
        text.push_str(")");
        return Ok(NewPlan::Report(text));
    }
    Ok(NewPlan::Create(render_metadata_template(today, images)))
}

fn metadata_exists_warning(metadata: &FilePath) -> (r: CliError)
    ensures
        r matches CliError::Warning(text) && text@ == "metadata.yml already exists: "@
            + metadata.text@,
{
    let mut warning = "metadata.yml already exists: ".to_owned();
    warning.push_str(metadata.text.as_str());
    CliError::Warning(warning)
}

/// Why a new file could not be opened: it has come to exist, or something else.
pub fn create_failure(metadata: &FilePath, already_present: bool, error: &str) -> (r: CliError)
    ensures
        if already_present {
            r matches CliError::Warning(text) && text@ == "metadata.yml already exists: "@
                + metadata.text@
        } else {
            r matches CliError::Error(text) && text@ == "failed to create "@ + metadata.text@
                + ": "@ + error@
        },
{
    if already_present {
        return metadata_exists_warning(metadata);
    }
    let mut text = "failed to create ".to_owned();
    text.push_str(metadata.text.as_str());
    text.push_str(": ");
    text.push_str(error);
    CliError::Error(text)
}

/// Why a new file could not be written.
pub fn write_failure(metadata: &FilePath, error: &str) -> (r: CliError)
    ensures
        r matches CliError::Error(text) && text@ == "failed to write "@ + metadata.text@ + ": "@
            + error@,
{
    let mut text = "failed to write ".to_owned();
    text.push_str(metadata.text.as_str());
    text.push_str(": ");
    text.push_str(error);
    CliError::Error(text)
}

/// What is said once a new file is made.
pub fn created_message(metadata: &FilePath) -> (r: String)
    ensures
        r@ == "created "@ + metadata.text@,
{
    let mut text = "created ".to_owned();
    text.push_str(metadata.text.as_str());
    text
}

} // verus!
