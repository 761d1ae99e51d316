//! What kind of image a file is, told from its first bytes or its extension.

use crate::path::{extension_of, file_extension, FilePath};
use crate::text::same;
use vstd::prelude::*;

verus! {

/// A kind of file: what it is called, its usual extension, and its media type.
#[derive(Debug)]
pub struct FileKind {
    pub file_type: &'static str,
    pub extension: String,
    pub mime_type: &'static str,
}

pub type KindRow = (&'static str, &'static str, &'static str);

/// What a row of the tables below says.
pub open spec fn row_texts(row: Option<KindRow>) -> Option<(Seq<char>, Seq<char>, Seq<char>)> {
    match row {
        Some(row) => Some((row.0@, row.1@, row.2@)),
        None => None,
    }
}

pub open spec fn bytes_start_with(bytes: Seq<u8>, prefix: Seq<u8>) -> bool {
    bytes_at(bytes, 0, prefix)
}

/// Whether `part` stands at position `at` of `bytes`.
pub open spec fn bytes_at(bytes: Seq<u8>, at: int, part: Seq<u8>) -> bool {
    at + part.len() <= bytes.len() && bytes.subrange(at, at + part.len()) == part
}

/// Whether `part` stands at position `at` of `bytes`.
pub fn has_bytes_at(bytes: &[u8], at: usize, part: &[u8]) -> (r: bool)
    ensures
        r == bytes_at(bytes@, at as int, part@),
{
    if at > bytes.len() || part.len() > bytes.len() - at {
        return false;
    }
    let mut i: usize = 0;
    while i < part.len()
        invariant
            i <= part.len(),
            at + part.len() <= bytes.len(),
            forall|j: int| 0 <= j < i ==> bytes@[at + j] == #[trigger] part@[j],
        decreases part.len() - i,
    {
        if bytes[at + i] != part[i] {
            proof {
                assert(bytes@.subrange(at as int, at + part@.len())[i as int] != part@[i as int]);
            }
            return false;
        }
        i += 1;
    }
    proof {
        assert(bytes@.subrange(at as int, at + part@.len()) =~= part@);
    }
    true
}

/// The brands of ISO media files that hold HEIC images.
pub open spec fn is_heic_brand(brand: Seq<u8>) -> bool {
    ||| brand == seq![0x68u8, 0x65, 0x69, 0x63]  // heic
    ||| brand == seq![0x68u8, 0x65, 0x69, 0x78]  // heix
    ||| brand == seq![0x68u8, 0x65, 0x76, 0x63]  // hevc
    ||| brand == seq![0x68u8, 0x65, 0x76, 0x78]  // hevx
    ||| brand == seq![0x68u8, 0x65, 0x69, 0x6d]  // heim
    ||| brand == seq![0x68u8, 0x65, 0x69, 0x73]  // heis
    ||| brand == seq![0x68u8, 0x65, 0x76, 0x6d]  // hevm
    ||| brand == seq![0x68u8, 0x65, 0x76, 0x73]  // hevs
}

/// The kind that the first bytes of a file tell.
pub open spec fn signature_kind(bytes: Seq<u8>) -> Option<(Seq<char>, Seq<char>, Seq<char>)> {
    if bytes_start_with(bytes, seq![0xffu8, 0xd8, 0xff]) {
        Some(("JPEG"@, "jpg"@, "image/jpeg"@))
    } else if bytes_start_with(bytes, seq![0x89u8, 0x50, 0x4e, 0x47, 0x0d, 0x0a, 0x1a, 0x0a]) {
        Some(("PNG"@, "png"@, "image/png"@))
    } else if bytes_start_with(bytes, seq![0x49u8, 0x49, 0x2a, 0x00]) || bytes_start_with(
        bytes,
        seq![0x4du8, 0x4d, 0x00, 0x2a],
    ) {
        Some(("TIFF"@, "tif"@, "image/tiff"@))
    } else if bytes_start_with(bytes, seq![0x52u8, 0x49, 0x46, 0x46]) && bytes_at(
        bytes,
        8,
        seq![0x57u8, 0x45, 0x42, 0x50],
    ) {
        Some(("WEBP"@, "webp"@, "image/webp"@))
    } else if bytes_start_with(bytes, seq![0xffu8, 0x0a]) || bytes_start_with(
        bytes,
        seq![0x00u8, 0x00, 0x00, 0x0c, 0x4a, 0x58, 0x4c, 0x20],
    ) {
        Some(("JXL"@, "jxl"@, "image/jxl"@))
    } else if bytes.len() >= 12 && bytes_at(bytes, 4, seq![0x66u8, 0x74, 0x79, 0x70]) {
        let brand = bytes.subrange(8, 12);
        if is_heic_brand(brand) {
            Some(("HEIC"@, "heic"@, "image/heic"@))
        } else if brand == seq![0x6du8, 0x69, 0x66, 0x31] || brand == seq![
            0x6du8,
            0x73,
            0x66,
            0x31,
        ] {
            Some(("HEIF"@, "heif"@, "image/heif"@))
        } else if brand == seq![0x61u8, 0x76, 0x69, 0x66] || brand == seq![
            0x61u8,
            0x76,
            0x69,
            0x73,
        ] {
            Some(("AVIF"@, "avif"@, "image/avif"@))
        } else {
            None
        }
    } else {
        None
    }
}

fn bytes4(a: u8, b: u8, c: u8, d: u8) -> (r: Vec<u8>)
    ensures
        r@ == seq![a, b, c, d],
{
    let mut v: Vec<u8> = Vec::new();
    v.push(a);
    v.push(b);
    v.push(c);
    v.push(d);
    proof {
        assert(v@ =~= seq![a, b, c, d]);
    }
    v
}

fn bytes8(first: Vec<u8>, second: Vec<u8>) -> (r: Vec<u8>)
    ensures
        r@ == first@ + second@,
{
    let mut v = first;
    let mut more = second;
    v.append(&mut more);
    v
}

fn heic_brand_at(bytes: &[u8]) -> (r: bool)
    requires
        bytes@.len() >= 12,
    ensures
        r == is_heic_brand(bytes@.subrange(8, 12)),
{
    has_bytes_at(bytes, 8, &bytes4(0x68, 0x65, 0x69, 0x63)) || has_bytes_at(
        bytes,
        8,
        &bytes4(0x68, 0x65, 0x69, 0x78),
    ) || has_bytes_at(bytes, 8, &bytes4(0x68, 0x65, 0x76, 0x63)) || has_bytes_at(
        bytes,
        8,
        &bytes4(0x68, 0x65, 0x76, 0x78),
    ) || has_bytes_at(bytes, 8, &bytes4(0x68, 0x65, 0x69, 0x6d)) || has_bytes_at(
        bytes,
        8,
        &bytes4(0x68, 0x65, 0x69, 0x73),
    ) || has_bytes_at(bytes, 8, &bytes4(0x68, 0x65, 0x76, 0x6d)) || has_bytes_at(
        bytes,
        8,
        &bytes4(0x68, 0x65, 0x76, 0x73),
    )
}

/// The kind of file that the first bytes tell.
pub fn file_kind_from_signature(bytes: &[u8]) -> (r: Option<KindRow>)
    ensures
        row_texts(r) == signature_kind(bytes@),
{
    let mut jpeg: Vec<u8> = Vec::new();
    jpeg.push(0xff);
    jpeg.push(0xd8);
    jpeg.push(0xff);
    let mut naked_jxl: Vec<u8> = Vec::new();
    naked_jxl.push(0xff);
    naked_jxl.push(0x0a);
    let png = bytes8(bytes4(0x89, 0x50, 0x4e, 0x47), bytes4(0x0d, 0x0a, 0x1a, 0x0a));
    let boxed_jxl = bytes8(bytes4(0x00, 0x00, 0x00, 0x0c), bytes4(0x4a, 0x58, 0x4c, 0x20));
    proof {
        assert(jpeg@ =~= seq![0xffu8, 0xd8, 0xff]);
        assert(naked_jxl@ =~= seq![0xffu8, 0x0a]);
        assert(png@ =~= seq![0x89u8, 0x50, 0x4e, 0x47, 0x0d, 0x0a, 0x1a, 0x0a]);
        assert(boxed_jxl@ =~= seq![0x00u8, 0x00, 0x00, 0x0c, 0x4a, 0x58, 0x4c, 0x20]);
    }
    if has_bytes_at(bytes, 0, &jpeg) {
        return Some(("JPEG", "jpg", "image/jpeg"));
    }
    if has_bytes_at(bytes, 0, &png) {
        return Some(("PNG", "png", "image/png"));
    }
    if has_bytes_at(bytes, 0, &bytes4(0x49, 0x49, 0x2a, 0x00)) || has_bytes_at(
        bytes,
        0,
        &bytes4(0x4d, 0x4d, 0x00, 0x2a),
    ) {
        return Some(("TIFF", "tif", "image/tiff"));
    }
    if has_bytes_at(bytes, 0, &bytes4(0x52, 0x49, 0x46, 0x46)) && has_bytes_at(
        bytes,
        8,
        &bytes4(0x57, 0x45, 0x42, 0x50),
    ) {
        return Some(("WEBP", "webp", "image/webp"));
    }
    if has_bytes_at(bytes, 0, &naked_jxl) || has_bytes_at(bytes, 0, &boxed_jxl) {
        return Some(("JXL", "jxl", "image/jxl"));
    }
    if bytes.len() >= 12 && has_bytes_at(bytes, 4, &bytes4(0x66, 0x74, 0x79, 0x70)) {
        if heic_brand_at(bytes) {
            return Some(("HEIC", "heic", "image/heic"));
        }
        if has_bytes_at(bytes, 8, &bytes4(0x6d, 0x69, 0x66, 0x31)) || has_bytes_at(
            bytes,
            8,
            &bytes4(0x6d, 0x73, 0x66, 0x31),
        ) {
            return Some(("HEIF", "heif", "image/heif"));
        }
        if has_bytes_at(bytes, 8, &bytes4(0x61, 0x76, 0x69, 0x66)) || has_bytes_at(
            bytes,
            8,
            &bytes4(0x61, 0x76, 0x69, 0x73),
        ) {
            return Some(("AVIF", "avif", "image/avif"));
        }
    }
    None
}

/// The kind that an extension in lower case tells.
pub open spec fn extension_kind(extension: Seq<char>) -> Option<
    (Seq<char>, Seq<char>, Seq<char>),
> {
    if extension == "jpg"@ || extension == "jpeg"@ {
        Some(("JPEG"@, "jpg"@, "image/jpeg"@))
    } else if extension == "png"@ {
        Some(("PNG"@, "png"@, "image/png"@))
    } else if extension == "tif"@ || extension == "tiff"@ {
        Some(("TIFF"@, "tif"@, "image/tiff"@))
    } else if extension == "webp"@ {
        Some(("WEBP"@, "webp"@, "image/webp"@))
    } else if extension == "jxl"@ {
        Some(("JXL"@, "jxl"@, "image/jxl"@))
    } else if extension == "heif"@ || extension == "hif"@ {
        Some(("HEIF"@, "heif"@, "image/heif"@))
    } else if extension == "heic"@ {
        Some(("HEIC"@, "heic"@, "image/heic"@))
    } else if extension == "avif"@ {
        Some(("AVIF"@, "avif"@, "image/avif"@))
    } else {
        None
    }
}

/// The kind that a path tells.
pub open spec fn path_kind(path: FilePath) -> Option<(Seq<char>, Seq<char>, Seq<char>)> {
    match extension_of(path) {
        Some(extension) => extension_kind(extension),
        None => None,
    }
}

/// The kind of file that the extension tells.
pub fn file_kind_from_extension(path: &FilePath) -> (r: Option<KindRow>)
    ensures
        row_texts(r) == path_kind(*path),
{
    let extension = match file_extension(path) {
        Some(extension) => extension,
        None => return None,
    };
    let e = extension.as_str();
    if same(e, "jpg") || same(e, "jpeg") {
        Some(("JPEG", "jpg", "image/jpeg"))
    } else if same(e, "png") {
        Some(("PNG", "png", "image/png"))
    } else if same(e, "tif") || same(e, "tiff") {
        Some(("TIFF", "tif", "image/tiff"))
    } else if same(e, "webp") {
        Some(("WEBP", "webp", "image/webp"))
    } else if same(e, "jxl") {
        Some(("JXL", "jxl", "image/jxl"))
    } else if same(e, "heif") || same(e, "hif") {
        Some(("HEIF", "heif", "image/heif"))
    } else if same(e, "heic") {
        Some(("HEIC", "heic", "image/heic"))
    } else if same(e, "avif") {
        Some(("AVIF", "avif", "image/avif"))
    } else {
        None
    }
}

/// The kind of a file: what its first bytes tell, else what its path tells.
/// `signature` is nothing where the file could not be read.
pub open spec fn kind_of(path: FilePath, signature: Option<Vec<u8>>) -> Option<
    (Seq<char>, Seq<char>, Seq<char>),
> {
    if signature is Some && signature_kind(signature->Some_0@) is Some {
        signature_kind(signature->Some_0@)
    } else {
        path_kind(path)
    }
}

/// What a kind says of a file: an unknown one keeps the extension of its path.
pub open spec fn describes_kind(
    kind: FileKind,
    known: Option<(Seq<char>, Seq<char>, Seq<char>)>,
    path: FilePath,
) -> bool {
    match known {
        Some(row) => kind.file_type@ == row.0 && kind.extension@ == row.1 && kind.mime_type@
            == row.2,
        None => kind.file_type@ == "Unknown"@ && kind.extension@ == (match extension_of(path) {
            Some(extension) => extension,
            None => Seq::empty(),
        }) && kind.mime_type@ == "application/octet-stream"@,
    }
}

/// The kind of a file.
pub fn detect_file_kind(path: &FilePath, signature: &Option<Vec<u8>>) -> (r: FileKind)
    ensures
        describes_kind(r, kind_of(*path, *signature), *path),
{
    let detected = match signature {
        Some(bytes) => file_kind_from_signature(bytes.as_slice()),
        None => None,
    };
    let row = match detected {
        Some(row) => Some(row),
        None => file_kind_from_extension(path),
    };
    match row {
        Some(row) => FileKind { file_type: row.0, extension: row.1.to_owned(), mime_type: row.2 },
        None => {
            let extension = match file_extension(path) {
                Some(extension) => extension,
                None => String::new(),
            };
            FileKind { file_type: "Unknown", extension, mime_type: "application/octet-stream" }
        },
    }
}

/// Whether a file is an image of a kind that the tool handles.
pub open spec fn is_supported(path: FilePath, signature: Option<Vec<u8>>) -> bool {
    kind_of(path, signature) is Some
}

/// Whether a file is an image that can be worked on.
pub fn is_supported_image_file(path: &FilePath, signature: &Option<Vec<u8>>) -> (r: bool)
    ensures
        r == is_supported(*path, *signature),
{
    let kind = detect_file_kind(path, signature);
    let r = !same(kind.file_type, "Unknown");
    proof {
        lemma_no_kind_is_called_unknown(*path, *signature);
    }
    r
}

/// Whether a file is a TIFF image.
pub open spec fn is_tiff(path: FilePath, signature: Option<Vec<u8>>) -> bool {
    kind_of(path, signature) is Some && kind_of(path, signature)->Some_0.0 == "TIFF"@
}

/// Whether a file is a TIFF image.
pub fn is_tiff_image(path: &FilePath, signature: &Option<Vec<u8>>) -> (r: bool)
    ensures
        r == is_tiff(*path, *signature),
{
    let kind = detect_file_kind(path, signature);
    let r = same(kind.file_type, "TIFF");
    proof {
        reveal_strlit("TIFF");
        reveal_strlit("Unknown");
        assert("TIFF"@.len() != "Unknown"@.len());
    }
    r
}

proof fn lemma_no_kind_is_called_unknown(path: FilePath, signature: Option<Vec<u8>>)
    ensures
        kind_of(path, signature) is Some ==> kind_of(path, signature)->Some_0.0 != "Unknown"@,
{
    reveal_strlit("Unknown");
    reveal_strlit("JPEG");
    reveal_strlit("PNG");
    reveal_strlit("TIFF");
    reveal_strlit("WEBP");
    reveal_strlit("JXL");
    reveal_strlit("HEIC");
    reveal_strlit("HEIF");
    reveal_strlit("AVIF");
    assert("Unknown"@.len() == 7);
    assert("JPEG"@.len() < 7 && "PNG"@.len() < 7 && "TIFF"@.len() < 7 && "WEBP"@.len() < 7);
    assert("JXL"@.len() < 7 && "HEIC"@.len() < 7 && "HEIF"@.len() < 7 && "AVIF"@.len() < 7);
}

} // verus!
