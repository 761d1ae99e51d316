# exifmeta

Reads, writes and strips EXIF metadata of image files, with a `metadata.yml`
file per roll of film.

- `src/` is the library: the rules, formats and reports of the tool, written in
  Verus. Every function states in its contract what it returns.
- `app/` is the command line tool around it: files, the terminal, the database
  of places, and whatever is computed in floating point.
- `tests/` runs the library on concrete images and documents.

## The library

| Modules | What they hold |
| :-- | :-- |
| `text`, `order`, `style`, `path`, `double` | texts, stable sorting, coloured text, paths, rounding as doubles do |
| `cli`, `grammar`, `commands`, `error`, `version` | the command line and the title |
| `file_kind`, `glob`, `targets`, `metadata_path` | which files a command works on |
| `yaml`, `tags`, `check`, `lookups`, `check_output`, `report` | checking a metadata file |
| `plan`, `convert`, `payload`, `write_run`, `write_output` | writing tags |
| `strip`, `strip_laws`, `strip_run`, `strip_output`, `json` | stripping tags |
| `exif_data`, `rows`, `labels`, `location`, `read_output` | reading an image |
| `ansi`, `spinner`, `interactive`, `editor` | the interactive browser, and editing tags in it |
| `new_file` | new metadata files |
| `writable` | the tags that can be written, and the metadata they are filed in |

Public proof functions named `law_..` state what holds across functions: which
tags a strip removes, that writing without overwriting loses nothing, that
custom tags are read back as they were written, and so on.

## What is not proved

What the outside crates do is stated, not proved, in functions marked
`external_body`: `clap` reads the command line, `serde_yaml` and `serde_json` read
and write documents, `exif` reads images, `little_exif` holds the metadata that is
written, and `colored` paints. Each says in its comment what is taken for granted.

## The database of places

The tool looks for `cities1000.sqlite` beside its executable.
