//! Reading, writing and stripping EXIF metadata of image files: the rules and
//! formats of the `exifmeta` command line tool.

pub mod ansi;
pub mod browse_laws;
pub mod check;
pub mod check_laws;
pub mod check_output;
pub mod cli;
pub mod commands;
pub mod convert;
pub mod convert_laws;
pub mod create_laws;
pub mod double;
pub mod edit_laws;
pub mod editor;
pub mod error;
pub mod exif_data;
pub mod file_kind;
pub mod glob;
pub mod grammar;
pub mod group_laws;
pub mod interactive;
pub mod json;
pub mod label_laws;
pub mod labels;
pub mod location;
pub mod lookups;
pub mod metadata_path;
pub mod new_file;
pub mod order;
pub mod path;
pub mod payload;
pub mod payload_laws;
pub mod plan;
pub mod position_laws;
pub mod privacy_laws;
pub mod read_laws;
pub mod read_output;
pub mod report;
pub mod report_laws;
pub mod rows;
pub mod selection_laws;
pub mod spinner;
pub mod strip;
pub mod strip_laws;
pub mod strip_output;
pub mod strip_run;
pub mod style;
pub mod tags;
pub mod target_laws;
pub mod targets;
pub mod text;
pub mod text_laws;
pub mod version;
pub mod view_laws;
pub mod writable;
pub mod write_laws;
pub mod write_output;
pub mod write_run;
pub mod yaml;

pub use cli::{
    CheckArgs, Cli, Command, InteractiveArgs, NewArgs, ReadArgs, ReadFormat, StripArgs, WriteArgs,
};
pub use error::CliError;
