//! Media files of a package: their names, and which of them are converted
//! to PNG for pdfLaTeX.
//!
//! SVG drawings are rendered by `resvg` and raster formats that pdfLaTeX
//! cannot include are re-encoded by `image`; Windows metafiles are converted
//! by an external program whose output is handed in.  The decisions around
//! those conversions are verified here.
use vstd::prelude::*;
use crate::model::opt_view;
use crate::text::{chars_of, unicode_lowercase};
use crate::docx::is_str;

verus! {

broadcast use vstd::string::group_string_axioms;

// ── Paths ────────────────────────────────────────────────────────────────────

/// What `Path::extension` gives for a path written as text, under the
/// path rules of the platform the library is built for.
pub uninterp spec fn path_extension_of(path: Seq<char>) -> Option<Seq<char>>;

/// What `Path::file_name` gives for a path written as text, under the
/// path rules of the platform the library is built for.
pub uninterp spec fn path_file_name_of(path: Seq<char>) -> Option<Seq<char>>;

/// What `Path::file_stem` gives for a path written as text, under the
/// path rules of the platform the library is built for.
pub uninterp spec fn path_file_stem_of(path: Seq<char>) -> Option<Seq<char>>;

/// `std::path::Path::extension` of a path given as text (read as UTF-8,
/// invalid sequences replaced).
#[verifier::external_body]
pub(crate) fn path_extension(path: &str) -> (r: Option<String>)
    ensures
        opt_view(r) == path_extension_of(path@),
{
    std::path::Path::new(path).extension().map(|e| e.to_string_lossy().into_owned())
}

/// `std::path::Path::file_name` of a path given as text.
#[verifier::external_body]
fn path_file_name(path: &str) -> (r: Option<String>)
    ensures
        opt_view(r) == path_file_name_of(path@),
{
    std::path::Path::new(path).file_name().map(|e| e.to_string_lossy().into_owned())
}

/// `std::path::Path::file_stem` of a path given as text.
#[verifier::external_body]
pub(crate) fn path_file_stem(path: &str) -> (r: Option<String>)
    ensures
        opt_view(r) == path_file_stem_of(path@),
{
    std::path::Path::new(path).file_stem().map(|e| e.to_string_lossy().into_owned())
}

pub open spec fn or_else(o: Option<Seq<char>>, d: Seq<char>) -> Seq<char> {
    match o {
        Some(v) => v,
        None => d,
    }
}

/// The file name of a media entry (`unknown` when the entry has none).
pub open spec fn media_file_name(entry: Seq<char>) -> Seq<char> {
    or_else(path_file_name_of(entry), "unknown"@)
}

/// The lower-cased extension of a file name (empty when it has none).
pub open spec fn media_ext(file_name: Seq<char>) -> Seq<char> {
    unicode_lowercase(or_else(path_extension_of(file_name), Seq::empty()))
}

/// The name of the PNG that replaces a converted file: its stem (`image`
/// when it has none) and `.png`.
pub open spec fn png_name(file_name: Seq<char>) -> Seq<char> {
    or_else(path_file_stem_of(file_name), "image"@) + ".png"@
}

/// The file name of a media entry.
pub fn entry_file_name(entry: &str) -> (r: String)
    ensures
        r@ == media_file_name(entry@),
{
    match path_file_name(entry) {
        Some(n) => n,
        None => String::from_str("unknown"),
    }
}

/// The lower-cased extension of a file name.
pub fn file_ext(file_name: &str) -> (r: String)
    ensures
        r@ == media_ext(file_name@),
{
    let e = match path_extension(file_name) {
        Some(e) => e,
        None => String::new(),
    };
    crate::text::to_lowercase(e.as_str())
}

/// The name of the PNG that replaces a converted file.
pub fn png_file_name(file_name: &str) -> (r: String)
    ensures
        r@ == png_name(file_name@),
{
    let mut s = match path_file_stem(file_name) {
        Some(n) => n,
        None => String::from_str("image"),
    };
    s.append(".png");
    s
}

// ── Image kinds ──────────────────────────────────────────────────────────────

/// How a media file is handled, by its lower-cased extension.
#[derive(Clone, Copy, Debug, PartialEq, Eq, Structural)]
pub enum ImageKind {
    /// Included by pdfLaTeX as it is (PNG, JPEG, GIF, PDF, EPS).
    Native,
    /// SVG or SVGZ, rendered to PNG.
    Vector,
    /// BMP, TIFF, TGA, ICO, PNM or WebP, re-encoded as PNG.
    Raster,
    /// EMF or WMF, converted to PNG by an external program.
    Metafile,
    /// Anything else, kept as it is.
    Other,
}

pub open spec fn image_kind(ext: Seq<char>) -> ImageKind {
    if ext == "png"@ || ext == "jpg"@ || ext == "jpeg"@ || ext == "gif"@ || ext == "pdf"@ || ext == "eps"@ {
        ImageKind::Native
    } else if ext == "svg"@ || ext == "svgz"@ {
        ImageKind::Vector
    } else if ext == "bmp"@ || ext == "tiff"@ || ext == "tif"@ || ext == "tga"@ || ext == "ico"@ || ext == "pnm"@
        || ext == "webp"@ {
        ImageKind::Raster
    } else if ext == "emf"@ || ext == "wmf"@ {
        ImageKind::Metafile
    } else {
        ImageKind::Other
    }
}

/// How a media file with lower-cased extension `ext` is handled.
pub fn classify_image(ext: &str) -> (k: ImageKind)
    ensures
        k == image_kind(ext@),
{
    let e = chars_of(ext);
    if is_str(&e, "png") || is_str(&e, "jpg") || is_str(&e, "jpeg") || is_str(&e, "gif") || is_str(&e, "pdf")
        || is_str(&e, "eps") {
        ImageKind::Native
    } else if is_str(&e, "svg") || is_str(&e, "svgz") {
        ImageKind::Vector
    } else if is_str(&e, "bmp") || is_str(&e, "tiff") || is_str(&e, "tif") || is_str(&e, "tga") || is_str(&e, "ico")
        || is_str(&e, "pnm") || is_str(&e, "webp") {
        ImageKind::Raster
    } else if is_str(&e, "emf") || is_str(&e, "wmf") {
        ImageKind::Metafile
    } else {
        ImageKind::Other
    }
}

// ── Conversions ──────────────────────────────────────────────────────────────

/// The eight bytes every PNG file starts with.
pub open spec fn png_signature() -> Seq<u8> {
    seq![137u8, 80u8, 78u8, 71u8, 13u8, 10u8, 26u8, 10u8]
}

/// Bytes that start with the PNG signature.
pub open spec fn is_png(b: Seq<u8>) -> bool {
    b.len() >= 8 && b.take(8) == png_signature()
}

/// `png` is a PNG of the SVG or SVGZ drawing `data` as `resvg` renders it.
/// Rendering may read image files that the drawing refers to, so no single
/// result is named for given bytes.
pub uninterp spec fn svg_png_from(data: Seq<u8>, png: Seq<u8>) -> bool;

/// `png` is a PNG of the image that `image` decodes from `data`.  Decoders
/// may take a different code path on another processor, so no single result
/// is named for given bytes.
pub uninterp spec fn raster_png_from(data: Seq<u8>, png: Seq<u8>) -> bool;

/// Renders SVG or SVGZ bytes to PNG bytes: `usvg::Tree::from_data` with
/// default options, `resvg::render` onto a `tiny_skia::Pixmap` of the
/// drawing's size in whole pixels (`Size::to_int_size`, at least one each
/// way), then `Pixmap::encode_png`.  `None` when parsing fails, the pixmap
/// would be too large, or encoding fails; whether it succeeds is left
/// unsaid.  What it gives is a rendering of `data`, and starts with the PNG
/// signature, which the encoder writes first into an empty buffer.
#[verifier::external_body]
fn svg_to_png(data: &[u8]) -> (r: Option<Vec<u8>>)
    ensures
        r matches Some(b) ==> is_png(b@) && svg_png_from(data@, b@),
{
    let tree = resvg::usvg::Tree::from_data(data, &resvg::usvg::Options::default()).ok()?;
    let size = tree.size().to_int_size();
    let mut pixmap = resvg::tiny_skia::Pixmap::new(size.width(), size.height())?;
    resvg::render(&tree, resvg::tiny_skia::Transform::default(), &mut pixmap.as_mut());
    pixmap.encode_png().ok()
}

/// Decodes a raster image and re-encodes it as PNG: `image::ImageReader`
/// over the bytes with the format guessed from them (`with_guessed_format`),
/// `decode`, then `DynamicImage::write_to` in PNG format into an empty
/// buffer.  `None` when a step fails; whether it succeeds is left unsaid.
/// What it gives is the decoded image of `data` as PNG, and starts with the
/// PNG signature, which the encoder writes first.
#[verifier::external_body]
fn raster_to_png(data: &[u8]) -> (r: Option<Vec<u8>>)
    ensures
        r matches Some(b) ==> is_png(b@) && raster_png_from(data@, b@),
{
    let img = image::ImageReader::new(std::io::Cursor::new(data)).with_guessed_format().ok()?.decode().ok()?;
    let mut out: Vec<u8> = Vec::new();
    img.write_to(&mut std::io::Cursor::new(&mut out), image::ImageFormat::Png).ok().map(|_| out)
}

/// The file written for a media file of the given kind, when a conversion
/// gave `converted`: the PNG under the replacement name, or the bytes as
/// read under their own name when there is no conversion or it failed.
pub open spec fn converted_file(
    file_name: Seq<char>,
    data: Seq<u8>,
    kind: ImageKind,
    converted: Option<Seq<u8>>,
) -> (Seq<char>, Seq<u8>) {
    match kind {
        ImageKind::Vector | ImageKind::Raster | ImageKind::Metafile => match converted {
            Some(png) => (png_name(file_name), png),
            None => (file_name, data),
        },
        _ => (file_name, data),
    }
}

pub open spec fn opt_bytes(o: Option<Vec<u8>>) -> Option<Seq<u8>> {
    match o {
        Some(v) => Some(v@),
        None => None,
    }
}

/// The file written for a media file, given the outcome of its conversion.
pub fn converted_media(file_name: &str, data: Vec<u8>, kind: ImageKind, converted: Option<Vec<u8>>) -> (r: (String, Vec<u8>))
    ensures
        (r.0@, r.1@) == converted_file(file_name@, data@, kind, opt_bytes(converted)),
{
    match kind {
        ImageKind::Vector | ImageKind::Raster | ImageKind::Metafile => match converted {
            Some(png) => (png_file_name(file_name), png),
            None => (String::from_str(file_name), data),
        },
        _ => (String::from_str(file_name), data),
    }
}

/// Decides whether a media file needs converting and returns the file name
/// and bytes to write.  `ext` is the lower-cased extension; `metafile_png` is
/// the external converter's output for an EMF or WMF file.
///
/// Files pdfLaTeX includes, and unknown kinds, are kept; an EMF or WMF file
/// becomes `metafile_png` when there is one; SVG and raster files become the
/// PNG that `resvg` or `image` produced, or are kept when that failed.
pub fn convert_image_if_needed(data: Vec<u8>, file_name: &str, ext: &str, metafile_png: Option<Vec<u8>>) -> (r: (
    String,
    Vec<u8>,
))
    ensures
        image_kind(ext@) == ImageKind::Metafile ==> (r.0@, r.1@) == converted_file(
            file_name@,
            data@,
            ImageKind::Metafile,
            opt_bytes(metafile_png),
        ),
        image_kind(ext@) == ImageKind::Native || image_kind(ext@) == ImageKind::Other ==> r.0@ == file_name@
            && r.1@ == data@,
        image_kind(ext@) == ImageKind::Vector ==> exists|c: Option<Seq<u8>>|
            (r.0@, r.1@) == converted_file(file_name@, data@, ImageKind::Vector, c)
            && (c matches Some(png) ==> is_png(png) && svg_png_from(data@, png)),
        image_kind(ext@) == ImageKind::Raster ==> exists|c: Option<Seq<u8>>|
            (r.0@, r.1@) == converted_file(file_name@, data@, ImageKind::Raster, c)
            && (c matches Some(png) ==> is_png(png) && raster_png_from(data@, png)),
{
    let kind = classify_image(ext);
    let converted = match kind {
        ImageKind::Vector => svg_to_png(data.as_slice()),
        ImageKind::Raster => raster_to_png(data.as_slice()),
        ImageKind::Metafile => metafile_png,
        _ => None,
    };
    let r = converted_media(file_name, data, kind, converted);
    let ghost c = opt_bytes(converted);
    assert((r.0@, r.1@) == converted_file(file_name@, data@, kind, c));
    r
}

/// The relationship target that must follow a renamed media file: the old
/// and new `media/` paths, when the written name differs.
pub open spec fn media_rename(file_name: Seq<char>, dest_name: Seq<char>) -> Option<(Seq<char>, Seq<char>)> {
    if dest_name != file_name {
        Some(("media/"@ + file_name, "media/"@ + dest_name))
    } else {
        None
    }
}

/// The rename a written media file causes, if any.
pub fn rename_of(file_name: &str, dest_name: &str) -> (r: Option<(String, String)>)
    ensures
        match r {
            Some(p) => media_rename(file_name@, dest_name@) == Some((p.0@, p.1@)),
            None => media_rename(file_name@, dest_name@) is None,
        },
{
    let a = chars_of(file_name);
    let b = chars_of(dest_name);
    if crate::text::equal_chars(&a, &b) {
        None
    } else {
        let mut from = String::from_str("media/");
        from.append(file_name);
        let mut to = String::from_str("media/");
        to.append(dest_name);
        Some((from, to))
    }
}

/// How each image format is handled: the formats pdfLaTeX includes (PNG,
/// JPEG, GIF, PDF, EPS) are kept, SVG drawings are rendered, the raster
/// formats it cannot include (BMP, TIFF, TGA, ICO, PNM, WebP) are
/// re-encoded, Windows metafiles go to the external converter, and any
/// other extension is kept as it is.
pub proof fn lemma_image_kinds(ext: Seq<char>)
    ensures
        (ext == "png"@ || ext == "jpg"@ || ext == "jpeg"@ || ext == "gif"@ || ext == "pdf"@ || ext == "eps"@)
            ==> image_kind(ext) == ImageKind::Native,
        (ext == "svg"@ || ext == "svgz"@) ==> image_kind(ext) == ImageKind::Vector,
        (ext == "bmp"@ || ext == "tiff"@ || ext == "tif"@ || ext == "tga"@ || ext == "ico"@ || ext == "pnm"@
            || ext == "webp"@) ==> image_kind(ext) == ImageKind::Raster,
        (ext == "emf"@ || ext == "wmf"@) ==> image_kind(ext) == ImageKind::Metafile,
        ext.len() == 0 ==> image_kind(ext) == ImageKind::Other,
{
    reveal_strlit("png");
    reveal_strlit("jpg");
    reveal_strlit("jpeg");
    reveal_strlit("gif");
    reveal_strlit("pdf");
    reveal_strlit("eps");
    reveal_strlit("svg");
    reveal_strlit("svgz");
    reveal_strlit("bmp");
    reveal_strlit("tiff");
    reveal_strlit("tif");
    reveal_strlit("tga");
    reveal_strlit("ico");
    reveal_strlit("pnm");
    reveal_strlit("webp");
    reveal_strlit("emf");
    reveal_strlit("wmf");
    if ext == "svg"@ || ext == "svgz"@ {
        assert("svg"@[0] != "png"@[0]);
        assert("svg"@[0] != "jpg"@[0]);
        assert("svg"@[0] != "gif"@[0]);
        assert("svg"@[0] != "pdf"@[0]);
        assert("svg"@[0] != "eps"@[0]);
        assert("svgz"@[0] != "jpeg"@[0]);
        assert("png"@.len() == 3);
        assert("jpg"@.len() == 3);
        assert("jpeg"@.len() == 4);
        assert("gif"@.len() == 3);
        assert("pdf"@.len() == 3);
        assert("eps"@.len() == 3);
        assert("svg"@.len() == 3);
        assert("svgz"@.len() == 4);
        assert(ext != "png"@);
        assert(ext != "jpg"@);
        assert(ext != "jpeg"@);
        assert(ext != "gif"@);
        assert(ext != "pdf"@);
        assert(ext != "eps"@);
    }
    if ext == "bmp"@ || ext == "tiff"@ || ext == "tif"@ || ext == "tga"@ || ext == "ico"@ || ext == "pnm"@ || ext == "webp"@ {
        assert("bmp"@[0] != "png"@[0]);
        assert("bmp"@[0] != "jpg"@[0]);
        assert("bmp"@[0] != "gif"@[0]);
        assert("bmp"@[0] != "pdf"@[0]);
        assert("bmp"@[0] != "eps"@[0]);
        assert("bmp"@[0] != "svg"@[0]);
        assert("tiff"@[0] != "jpeg"@[0]);
        assert("tiff"@[0] != "svgz"@[0]);
        assert("tif"@[0] != "png"@[0]);
        assert("tif"@[0] != "jpg"@[0]);
        assert("tif"@[0] != "gif"@[0]);
        assert("tif"@[0] != "pdf"@[0]);
        assert("tif"@[0] != "eps"@[0]);
        assert("tif"@[0] != "svg"@[0]);
        assert("tga"@[0] != "png"@[0]);
        assert("tga"@[0] != "jpg"@[0]);
        assert("tga"@[0] != "gif"@[0]);
        assert("tga"@[0] != "pdf"@[0]);
        assert("tga"@[0] != "eps"@[0]);
        assert("tga"@[0] != "svg"@[0]);
        assert("ico"@[0] != "png"@[0]);
        assert("ico"@[0] != "jpg"@[0]);
        assert("ico"@[0] != "gif"@[0]);
        assert("ico"@[0] != "pdf"@[0]);
        assert("ico"@[0] != "eps"@[0]);
        assert("ico"@[0] != "svg"@[0]);
        assert("pnm"@[2] != "png"@[2]);
        assert("pnm"@[0] != "jpg"@[0]);
        assert("pnm"@[0] != "gif"@[0]);
        assert("pnm"@[1] != "pdf"@[1]);
        assert("pnm"@[0] != "eps"@[0]);
        assert("pnm"@[0] != "svg"@[0]);
        assert("webp"@[0] != "jpeg"@[0]);
        assert("webp"@[0] != "svgz"@[0]);
        assert("png"@.len() == 3);
        assert("jpg"@.len() == 3);
        assert("jpeg"@.len() == 4);
        assert("gif"@.len() == 3);
        assert("pdf"@.len() == 3);
        assert("eps"@.len() == 3);
        assert("svg"@.len() == 3);
        assert("svgz"@.len() == 4);
        assert("bmp"@.len() == 3);
        assert("tiff"@.len() == 4);
        assert("tif"@.len() == 3);
        assert("tga"@.len() == 3);
        assert("ico"@.len() == 3);
        assert("pnm"@.len() == 3);
        assert("webp"@.len() == 4);
        assert(ext != "png"@);
        assert(ext != "jpg"@);
        assert(ext != "jpeg"@);
        assert(ext != "gif"@);
        assert(ext != "pdf"@);
        assert(ext != "eps"@);
        assert(ext != "svg"@);
        assert(ext != "svgz"@);
    }
    if ext == "emf"@ || ext == "wmf"@ {
        assert("emf"@[0] != "png"@[0]);
        assert("emf"@[0] != "jpg"@[0]);
        assert("emf"@[0] != "gif"@[0]);
        assert("emf"@[0] != "pdf"@[0]);
        assert("emf"@[1] != "eps"@[1]);
        assert("emf"@[0] != "svg"@[0]);
        assert("emf"@[0] != "bmp"@[0]);
        assert("emf"@[0] != "tif"@[0]);
        assert("emf"@[0] != "tga"@[0]);
        assert("emf"@[0] != "ico"@[0]);
        assert("emf"@[0] != "pnm"@[0]);
        assert("wmf"@[0] != "png"@[0]);
        assert("wmf"@[0] != "jpg"@[0]);
        assert("wmf"@[0] != "gif"@[0]);
        assert("wmf"@[0] != "pdf"@[0]);
        assert("wmf"@[0] != "eps"@[0]);
        assert("wmf"@[0] != "svg"@[0]);
        assert("wmf"@[0] != "bmp"@[0]);
        assert("wmf"@[0] != "tif"@[0]);
        assert("wmf"@[0] != "tga"@[0]);
        assert("wmf"@[0] != "ico"@[0]);
        assert("wmf"@[0] != "pnm"@[0]);
        assert("png"@.len() == 3);
        assert("jpg"@.len() == 3);
        assert("jpeg"@.len() == 4);
        assert("gif"@.len() == 3);
        assert("pdf"@.len() == 3);
        assert("eps"@.len() == 3);
        assert("svg"@.len() == 3);
        assert("svgz"@.len() == 4);
        assert("bmp"@.len() == 3);
        assert("tiff"@.len() == 4);
        assert("tif"@.len() == 3);
        assert("tga"@.len() == 3);
        assert("ico"@.len() == 3);
        assert("pnm"@.len() == 3);
        assert("webp"@.len() == 4);
        assert("emf"@.len() == 3);
        assert("wmf"@.len() == 3);
        assert(ext != "png"@);
        assert(ext != "jpg"@);
        assert(ext != "jpeg"@);
        assert(ext != "gif"@);
        assert(ext != "pdf"@);
        assert(ext != "eps"@);
        assert(ext != "svg"@);
        assert(ext != "svgz"@);
        assert(ext != "bmp"@);
        assert(ext != "tiff"@);
        assert(ext != "tif"@);
        assert(ext != "tga"@);
        assert(ext != "ico"@);
        assert(ext != "pnm"@);
        assert(ext != "webp"@);
    }
}

/// A converted image is written under its file's stem (or `image` when it
/// has none) with the extension `.png`.
pub proof fn lemma_png_name(file_name: Seq<char>)
    ensures
        png_name(file_name).len() >= 4,
        png_name(file_name).skip(png_name(file_name).len() - 4) == ".png"@,
        path_file_stem_of(file_name) matches Some(st) ==> png_name(file_name) == st + ".png"@,
        path_file_stem_of(file_name) is None ==> png_name(file_name) == "image.png"@,
{
    reveal_strlit(".png");
    reveal_strlit("image");
    reveal_strlit("image.png");
    let n = png_name(file_name);
    assert(n.skip(n.len() - 4) =~= ".png"@);
    assert("image"@ + ".png"@ =~= "image.png"@);
}

} // verus!
