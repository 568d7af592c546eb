//! Image metadata: dimensions and format of a file, and its EXIF fields.
use vstd::prelude::*;
use image::ImageFormat as F;
use crate::text::push_str;
use crate::pathname::{ascii_lower, chars_of, string_of, extension, extension_of, PathStyle};
use crate::path_index::map_of;

verus! {

broadcast use vstd::string::group_string_axioms;

/// Dimensions and format of an image file.
pub struct ImageProbe {
    pub width: u32,
    pub height: u32,
    /// Lower-case format name (such as `png` or `jpeg`).
    pub format: String,
}

/// The image formats that `image::ImageFormat::from_extension` can name.
#[derive(Debug, Clone, Copy, PartialEq, Eq, Structural)]
pub enum FormatKind {
    Png,
    Jpeg,
    Gif,
    WebP,
    Pnm,
    Tiff,
    Tga,
    Dds,
    Bmp,
    Ico,
    Hdr,
    OpenExr,
    Farbfeld,
    Avif,
    Qoi,
}

/// The format `image::ImageFormat::from_extension` gives an extension (compared in
/// ASCII lower case).
pub open spec fn format_of_extension(e: Seq<char>) -> Option<FormatKind> {
    let l = lower_seq(e);
    if l == "avif"@ {
        Some(FormatKind::Avif)
    } else if l == "jpg"@ || l == "jpeg"@ || l == "jfif"@ {
        Some(FormatKind::Jpeg)
    } else if l == "png"@ || l == "apng"@ {
        Some(FormatKind::Png)
    } else if l == "gif"@ {
        Some(FormatKind::Gif)
    } else if l == "webp"@ {
        Some(FormatKind::WebP)
    } else if l == "tif"@ || l == "tiff"@ {
        Some(FormatKind::Tiff)
    } else if l == "tga"@ {
        Some(FormatKind::Tga)
    } else if l == "dds"@ {
        Some(FormatKind::Dds)
    } else if l == "bmp"@ {
        Some(FormatKind::Bmp)
    } else if l == "ico"@ {
        Some(FormatKind::Ico)
    } else if l == "hdr"@ {
        Some(FormatKind::Hdr)
    } else if l == "exr"@ {
        Some(FormatKind::OpenExr)
    } else if l == "pbm"@ || l == "pam"@ || l == "ppm"@ || l == "pgm"@ || l == "pnm"@ {
        Some(FormatKind::Pnm)
    } else if l == "ff"@ {
        Some(FormatKind::Farbfeld)
    } else if l == "qoi"@ {
        Some(FormatKind::Qoi)
    } else {
        None
    }
}

/// The format `image::ImageFormat::from_path` picks for a path: that of its extension.
pub open spec fn format_of_path(path: Seq<char>, style: PathStyle) -> Option<FormatKind> {
    match extension(path, style) {
        Some(e) => format_of_extension(e),
        None => None,
    }
}

/// `image::ImageFormat`, carried as an opaque value.
#[verifier::external_type_specification]
#[verifier::external_body]
pub struct ExImageFormat(image::ImageFormat);

/// Converts `image::ImageFormat` to `FormatKind`, variant by variant; `None` for a
/// format that `FormatKind` does not list.
#[verifier::external_body]
fn kind_of_format(f: F) -> Option<FormatKind> {
    Some(match f {
        F::Png => FormatKind::Png, F::Jpeg => FormatKind::Jpeg, F::Gif => FormatKind::Gif,
        F::WebP => FormatKind::WebP, F::Pnm => FormatKind::Pnm, F::Tiff => FormatKind::Tiff,
        F::Tga => FormatKind::Tga, F::Dds => FormatKind::Dds, F::Bmp => FormatKind::Bmp,
        F::Ico => FormatKind::Ico, F::Hdr => FormatKind::Hdr, F::OpenExr => FormatKind::OpenExr,
        F::Farbfeld => FormatKind::Farbfeld, F::Avif => FormatKind::Avif, F::Qoi => FormatKind::Qoi,
        _ => return None,
    })
}

/// Converts `FormatKind` back to `image::ImageFormat`, variant by variant.
#[verifier::external_body]
pub(crate) fn format_of_kind(k: FormatKind) -> F {
    match k {
        FormatKind::Png => F::Png, FormatKind::Jpeg => F::Jpeg, FormatKind::Gif => F::Gif,
        FormatKind::WebP => F::WebP, FormatKind::Pnm => F::Pnm, FormatKind::Tiff => F::Tiff,
        FormatKind::Tga => F::Tga, FormatKind::Dds => F::Dds, FormatKind::Bmp => F::Bmp,
        FormatKind::Ico => F::Ico, FormatKind::Hdr => F::Hdr, FormatKind::OpenExr => F::OpenExr,
        FormatKind::Farbfeld => F::Farbfeld, FormatKind::Avif => F::Avif, FormatKind::Qoi => F::Qoi,
    }
}

/// Calls `image::ImageFormat::from_extension`, which lower-cases the extension (ASCII)
/// and matches it against its fixed list: the result is `format_of_extension`.
#[verifier::external_body]
fn image_format_from_extension(ext: &str) -> (r: Option<FormatKind>)
    ensures
        r == format_of_extension(ext@),
{
    match image::ImageFormat::from_extension(ext) {
        Some(f) => kind_of_format(f),
        None => None,
    }
}

/// The extension of `path` and the format it names, as `image::ImageFormat::from_path`
/// finds them.
pub fn path_format(path: &str, style: PathStyle) -> (r: (Option<String>, Option<FormatKind>))
    ensures
        match r.0 {
            Some(e) => extension(path@, style) == Some(e@),
            None => extension(path@, style) is None,
        },
        r.1 == format_of_path(path@, style),
{
    match extension_of(path, style) {
        Some(e) => {
            let k = image_format_from_extension(e.as_str());
            (Some(e), k)
        },
        None => (None, None),
    }
}

/// The text of the error that the image crate gives when no format is known.
pub open spec fn unknown_format_text() -> Seq<char> {
    "The image format could not be determined"@
}

/// The text of the error that the image crate gives for an extension that names no
/// format, the extension's `Debug` text being `q`.
pub open spec fn unrecognized_extension_text(q: Seq<char>) -> Seq<char> {
    "The file extension `."@ + q + "` was not recognized as an image format"@
}

pub open spec fn is_ascii_alnum(c: char) -> bool {
    ('a' <= c && c <= 'z') || ('A' <= c && c <= 'Z') || ('0' <= c && c <= '9')
}

pub open spec fn all_ascii_alnum(s: Seq<char>) -> bool {
    forall|i: int| 0 <= i < s.len() ==> is_ascii_alnum(#[trigger] s[i])
}

/// `s` in double quotes.
pub open spec fn quoted(s: Seq<char>) -> Seq<char> {
    seq!['"'] + s + seq!['"']
}

/// `m` is the text of the image crate's error for a path whose format it does not
/// know: with no extension, `unknown_format_text`; with the extension `e`,
/// `unrecognized_extension_text` of its `Debug` text, which is `e` in double quotes
/// when `e` is ASCII letters and digits.
pub open spec fn is_unsupported_text(m: Seq<char>, ext: Option<Seq<char>>) -> bool {
    match ext {
        None => m == unknown_format_text(),
        Some(e) => exists|q: Seq<char>|
            m == #[trigger] unrecognized_extension_text(q) && (all_ascii_alnum(e) ==> q
                == quoted(e)),
    }
}

/// The `Debug` text of a path component (`<Path as Debug>`, as the image crate prints
/// an extension in its errors). `str`'s escaping leaves ASCII letters and digits as
/// they are, so for such a text it is the text in double quotes; otherwise what
/// escaping does is not stated.
#[verifier::external_body]
fn path_debug_text(s: &str) -> (r: String)
    ensures
        all_ascii_alnum(s@) ==> r@ == quoted(s@),
{
    format!("{:?}", std::path::Path::new(s))
}

/// The text of the image crate's error for a path whose format it does not know.
pub fn unsupported_text(ext: Option<&str>) -> (r: String)
    ensures
        is_unsupported_text(
            r@,
            match ext {
                Some(e) => Some(e@),
                None => None,
            },
        ),
{
    let mut m = String::new();
    match ext {
        None => {
            push_str(&mut m, "The image format could not be determined");
        },
        Some(e) => {
            let q = path_debug_text(e);
            push_str(&mut m, "The file extension `.");
            push_str(&mut m, q.as_str());
            push_str(&mut m, "` was not recognized as an image format");
            assert(m@ =~= unrecognized_extension_text(q@));
        },
    }
    m
}

/// The lower-case `Debug` name of a format, as the index stores it.
pub open spec fn format_name_spec(k: FormatKind) -> Seq<char> {
    match k {
        FormatKind::Png => "png"@,
        FormatKind::Jpeg => "jpeg"@,
        FormatKind::Gif => "gif"@,
        FormatKind::WebP => "webp"@,
        FormatKind::Pnm => "pnm"@,
        FormatKind::Tiff => "tiff"@,
        FormatKind::Tga => "tga"@,
        FormatKind::Dds => "dds"@,
        FormatKind::Bmp => "bmp"@,
        FormatKind::Ico => "ico"@,
        FormatKind::Hdr => "hdr"@,
        FormatKind::OpenExr => "openexr"@,
        FormatKind::Farbfeld => "farbfeld"@,
        FormatKind::Avif => "avif"@,
        FormatKind::Qoi => "qoi"@,
    }
}

pub fn format_name(k: FormatKind) -> (r: &'static str)
    ensures
        r@ == format_name_spec(k),
{
    match k {
        FormatKind::Png => "png",
        FormatKind::Jpeg => "jpeg",
        FormatKind::Gif => "gif",
        FormatKind::WebP => "webp",
        FormatKind::Pnm => "pnm",
        FormatKind::Tiff => "tiff",
        FormatKind::Tga => "tga",
        FormatKind::Dds => "dds",
        FormatKind::Bmp => "bmp",
        FormatKind::Ico => "ico",
        FormatKind::Hdr => "hdr",
        FormatKind::OpenExr => "openexr",
        FormatKind::Farbfeld => "farbfeld",
        FormatKind::Avif => "avif",
        FormatKind::Qoi => "qoi",
    }
}

/// Length and first four characters: enough to tell the extensions that
/// `format_of_extension` knows apart.
pub open spec fn ext_signature(s: Seq<char>) -> (nat, char, char, char, char) {
    (s.len(), char_or_nul(s, 0), char_or_nul(s, 1), char_or_nul(s, 2), char_or_nul(s, 3))
}

/// The name under which a format is stored names that same format again when read as
/// an extension by `image::ImageFormat::from_extension` (every format but OpenEXR and
/// farbfeld, whose extensions are `exr` and `ff`), so the names of different formats
/// differ and each is the format's own.
pub proof fn lemma_format_name_is_own_extension(k: FormatKind)
    ensures
        k != FormatKind::OpenExr && k != FormatKind::Farbfeld ==> format_of_extension(
            format_name_spec(k),
        ) == Some(k),
        k == FormatKind::OpenExr ==> format_of_extension("exr"@) == Some(k),
        k == FormatKind::Farbfeld ==> format_of_extension("ff"@) == Some(k),
{
    reveal_strlit("apng");
    reveal_strlit("avif");
    reveal_strlit("bmp");
    reveal_strlit("dds");
    reveal_strlit("exr");
    reveal_strlit("ff");
    reveal_strlit("gif");
    reveal_strlit("hdr");
    reveal_strlit("ico");
    reveal_strlit("jfif");
    reveal_strlit("jpeg");
    reveal_strlit("jpg");
    reveal_strlit("pam");
    reveal_strlit("pbm");
    reveal_strlit("pgm");
    reveal_strlit("png");
    reveal_strlit("pnm");
    reveal_strlit("ppm");
    reveal_strlit("qoi");
    reveal_strlit("tga");
    reveal_strlit("tif");
    reveal_strlit("tiff");
    reveal_strlit("webp");
    assert(ext_signature("apng"@) == (4nat, 'a', 'p', 'n', 'g'));
    assert(ext_signature("avif"@) == (4nat, 'a', 'v', 'i', 'f'));
    assert(ext_signature("bmp"@) == (3nat, 'b', 'm', 'p', '\0'));
    assert(ext_signature("dds"@) == (3nat, 'd', 'd', 's', '\0'));
    assert(ext_signature("exr"@) == (3nat, 'e', 'x', 'r', '\0'));
    assert(ext_signature("ff"@) == (2nat, 'f', 'f', '\0', '\0'));
    assert(ext_signature("gif"@) == (3nat, 'g', 'i', 'f', '\0'));
    assert(ext_signature("hdr"@) == (3nat, 'h', 'd', 'r', '\0'));
    assert(ext_signature("ico"@) == (3nat, 'i', 'c', 'o', '\0'));
    assert(ext_signature("jfif"@) == (4nat, 'j', 'f', 'i', 'f'));
    assert(ext_signature("jpeg"@) == (4nat, 'j', 'p', 'e', 'g'));
    assert(ext_signature("jpg"@) == (3nat, 'j', 'p', 'g', '\0'));
    assert(ext_signature("pam"@) == (3nat, 'p', 'a', 'm', '\0'));
    assert(ext_signature("pbm"@) == (3nat, 'p', 'b', 'm', '\0'));
    assert(ext_signature("pgm"@) == (3nat, 'p', 'g', 'm', '\0'));
    assert(ext_signature("png"@) == (3nat, 'p', 'n', 'g', '\0'));
    assert(ext_signature("pnm"@) == (3nat, 'p', 'n', 'm', '\0'));
    assert(ext_signature("ppm"@) == (3nat, 'p', 'p', 'm', '\0'));
    assert(ext_signature("qoi"@) == (3nat, 'q', 'o', 'i', '\0'));
    assert(ext_signature("tga"@) == (3nat, 't', 'g', 'a', '\0'));
    assert(ext_signature("tif"@) == (3nat, 't', 'i', 'f', '\0'));
    assert(ext_signature("tiff"@) == (4nat, 't', 'i', 'f', 'f'));
    assert(ext_signature("webp"@) == (4nat, 'w', 'e', 'b', 'p'));
    assert(lower_seq(format_name_spec(k)) =~= format_name_spec(k)) by {
        reveal_strlit("openexr");
        reveal_strlit("farbfeld");
    }
    assert(lower_seq("exr"@) =~= "exr"@);
    assert(lower_seq("ff"@) =~= "ff"@);
}

/// Different formats are stored under different names.
pub proof fn lemma_format_names_distinct(k1: FormatKind, k2: FormatKind)
    requires
        format_name_spec(k1) == format_name_spec(k2),
    ensures
        k1 == k2,
{
    lemma_format_name_is_own_extension(k1);
    lemma_format_name_is_own_extension(k2);
    reveal_strlit("png");
    reveal_strlit("jpeg");
    reveal_strlit("gif");
    reveal_strlit("webp");
    reveal_strlit("pnm");
    reveal_strlit("tiff");
    reveal_strlit("tga");
    reveal_strlit("dds");
    reveal_strlit("bmp");
    reveal_strlit("ico");
    reveal_strlit("hdr");
    reveal_strlit("openexr");
    reveal_strlit("farbfeld");
    reveal_strlit("avif");
    reveal_strlit("qoi");
    assert(format_name_spec(k1).len() == format_name_spec(k2).len());
}

/// ASCII lower case of every character.
pub open spec fn lower_seq(s: Seq<char>) -> Seq<char> {
    Seq::new(s.len(), |i: int| ascii_lower(s[i]))
}

pub open spec fn dimensions_error(e: Seq<char>) -> Seq<char> {
    "读取图片尺寸失败："@ + e
}

pub open spec fn format_error(e: Seq<char>) -> Seq<char> {
    "识别图片格式失败："@ + e
}


/// Builds the probe of the file at `path` from the dimensions read from its header
/// (`dimensions`, or the text of the read error).
///
/// Fails with `读取图片尺寸失败：<error>` when the dimensions could not be read, else
/// with `识别图片格式失败：<error>` when the extension names no known format (the image
/// crate's error for it); otherwise the probe holds the dimensions and the format name.
pub fn probe_image(path: &str, style: PathStyle, dimensions: Result<(u32, u32), String>) -> (r: Result<
    ImageProbe,
    String,
>)
    ensures
        match dimensions {
            Err(e) => r matches Err(m) && m@ == dimensions_error(e@),
            Ok((w, h)) => match format_of_path(path@, style) {
                None => r matches Err(m) && exists|t: Seq<char>|
                    m@ == #[trigger] format_error(t) && is_unsupported_text(t, extension(path@, style)),
                Some(k) => r matches Ok(p) && p.width == w && p.height == h && p.format@
                    == format_name_spec(k),
            },
        },
{
    match dimensions {
        Err(e) => {
            let mut m = String::new();
            push_str(&mut m, "读取图片尺寸失败：");
            push_str(&mut m, e.as_str());
            assert(m@ =~= dimensions_error(e@));
            Err(m)
        },
        Ok((w, h)) => match path_format(path, style) {
            (ext, None) => {
                let t = match &ext {
                    Some(e) => unsupported_text(Some(e.as_str())),
                    None => unsupported_text(None),
                };
                let mut m = String::new();
                push_str(&mut m, "识别图片格式失败：");
                push_str(&mut m, t.as_str());
                assert(m@ =~= format_error(t@));
                Err(m)
            },
            (_, Some(k)) => Ok(ImageProbe { width: w, height: h, format: format_name(k).to_owned() }),
        },
    }
}

/// Context in which an EXIF tag number is read (`exif::Context`).
#[derive(Debug, Clone, Copy, PartialEq, Eq, Structural)]
pub enum TagContext {
    Tiff,
    Exif,
    Gps,
    Interop,
    Other,
}

/// One EXIF field: its tag (context and number) and its value as displayed with its unit.
#[derive(Debug, Clone)]
pub struct ExifField {
    pub context: TagContext,
    pub number: u16,
    pub text: String,
}

pub open spec fn field_view(f: ExifField) -> (TagContext, u16, Seq<char>) {
    (f.context, f.number, f.text@)
}

/// The fields that `exif::Reader::read_from_container` finds in the file `data`, in
/// the order of `Exif::fields`, each with the text of `display_value().with_unit(..)`;
/// `None` when the reader fails.
pub uninterp spec fn exif_fields_of(data: Seq<u8>) -> Option<Seq<(TagContext, u16, Seq<char>)>>;

/// `exif::Context`, carried as an opaque value.
#[verifier::external_type_specification]
#[verifier::external_body]
pub struct ExExifContext(exif::Context);

/// Converts `exif::Context` to `TagContext`, variant by variant.
#[verifier::external_body]
fn tag_context(c: exif::Context) -> TagContext {
    match c {
        exif::Context::Tiff => TagContext::Tiff,
        exif::Context::Exif => TagContext::Exif,
        exif::Context::Gps => TagContext::Gps,
        exif::Context::Interop => TagContext::Interop,
        _ => TagContext::Other,
    }
}

/// Reads the EXIF data of the file `data` with `exif::Reader::read_from_container` and
/// lists its fields with their displayed values. The result depends on the bytes
/// alone; this contract names it and says nothing more of it.
#[verifier::external_body]
fn parse_exif_fields(data: &[u8]) -> (r: Option<Vec<ExifField>>)
    ensures
        match r {
            Some(v) => exif_fields_of(data@) == Some(v@.map_values(|f: ExifField| field_view(f))),
            None => exif_fields_of(data@) is None,
        },
{
    let exif = exif::Reader::new().read_from_container(&mut std::io::Cursor::new(data)).ok()?;
    Some(
        exif.fields().map(|f| ExifField {
            context: tag_context(f.tag.context()),
            number: f.tag.number(),
            text: f.display_value().with_unit(&exif).to_string(),
        }).collect(),
    )
}

/// The key under which a tag is exported, for the tags of the shooting information
/// that the library keeps (dates, camera and lens, exposure, image attributes, GPS).
pub open spec fn tag_name(context: TagContext, number: u16) -> Option<Seq<char>> {
    match (context, number) {
        (TagContext::Exif, 0x9003) => Some("DateTimeOriginal"@),
        (TagContext::Tiff, 0x0132) => Some("DateTime"@),
        (TagContext::Exif, 0x9004) => Some("DateTimeDigitized"@),
        (TagContext::Exif, 0x9010) => Some("OffsetTime"@),
        (TagContext::Exif, 0x9011) => Some("OffsetTimeOriginal"@),
        (TagContext::Exif, 0x9012) => Some("OffsetTimeDigitized"@),
        (TagContext::Tiff, 0x010f) => Some("Make"@),
        (TagContext::Tiff, 0x0110) => Some("Model"@),
        (TagContext::Exif, 0xa433) => Some("LensMake"@),
        (TagContext::Exif, 0xa434) => Some("LensModel"@),
        (TagContext::Exif, 0xa432) => Some("LensSpecification"@),
        (TagContext::Tiff, 0x0131) => Some("Software"@),
        (TagContext::Tiff, 0x013b) => Some("Artist"@),
        (TagContext::Tiff, 0x8298) => Some("Copyright"@),
        (TagContext::Tiff, 0x010e) => Some("ImageDescription"@),
        (TagContext::Exif, 0xa430) => Some("CameraOwnerName"@),
        (TagContext::Exif, 0xa431) => Some("BodySerialNumber"@),
        (TagContext::Exif, 0xa435) => Some("LensSerialNumber"@),
        (TagContext::Exif, 0x8827) => Some("ISO"@),  // PhotographicSensitivity
        (TagContext::Exif, 0x920a) => Some("FocalLength"@),
        (TagContext::Exif, 0xa405) => Some("FocalLengthIn35mmFilm"@),
        (TagContext::Exif, 0x829a) => Some("ExposureTime"@),
        (TagContext::Exif, 0x829d) => Some("FNumber"@),
        (TagContext::Exif, 0x9204) => Some("ExposureBiasValue"@),
        (TagContext::Exif, 0x8822) => Some("ExposureProgram"@),
        (TagContext::Exif, 0xa402) => Some("ExposureMode"@),
        (TagContext::Exif, 0x9207) => Some("MeteringMode"@),
        (TagContext::Exif, 0xa403) => Some("WhiteBalance"@),
        (TagContext::Exif, 0x9209) => Some("Flash"@),
        (TagContext::Exif, 0x9201) => Some("ShutterSpeedValue"@),
        (TagContext::Exif, 0x9202) => Some("ApertureValue"@),
        (TagContext::Exif, 0x9203) => Some("BrightnessValue"@),
        (TagContext::Exif, 0x9205) => Some("MaxApertureValue"@),
        (TagContext::Exif, 0x9206) => Some("SubjectDistance"@),
        (TagContext::Exif, 0xa404) => Some("DigitalZoomRatio"@),
        (TagContext::Exif, 0xa406) => Some("SceneCaptureType"@),
        (TagContext::Exif, 0xa408) => Some("Contrast"@),
        (TagContext::Exif, 0xa409) => Some("Saturation"@),
        (TagContext::Exif, 0xa40a) => Some("Sharpness"@),
        (TagContext::Exif, 0xa407) => Some("GainControl"@),
        (TagContext::Exif, 0xa40c) => Some("SubjectDistanceRange"@),
        (TagContext::Exif, 0xa217) => Some("SensingMethod"@),
        (TagContext::Exif, 0x9208) => Some("LightSource"@),
        (TagContext::Exif, 0xa401) => Some("CustomRendered"@),
        (TagContext::Exif, 0xa300) => Some("FileSource"@),
        (TagContext::Exif, 0xa301) => Some("SceneType"@),
        (TagContext::Tiff, 0x0112) => Some("Orientation"@),
        (TagContext::Exif, 0xa001) => Some("ColorSpace"@),
        (TagContext::Exif, 0x9000) => Some("ExifVersion"@),
        (TagContext::Exif, 0xa000) => Some("FlashpixVersion"@),
        (TagContext::Exif, 0xa002) => Some("PixelXDimension"@),
        (TagContext::Exif, 0xa003) => Some("PixelYDimension"@),
        (TagContext::Exif, 0x9102) => Some("CompressedBitsPerPixel"@),
        (TagContext::Exif, 0x9101) => Some("ComponentsConfiguration"@),
        (TagContext::Exif, 0xa420) => Some("ImageUniqueID"@),
        (TagContext::Exif, 0x9286) => Some("UserComment"@),
        (TagContext::Gps, 0x0002) => Some("GPSLatitude"@),
        (TagContext::Gps, 0x0001) => Some("GPSLatitudeRef"@),
        (TagContext::Gps, 0x0004) => Some("GPSLongitude"@),
        (TagContext::Gps, 0x0003) => Some("GPSLongitudeRef"@),
        (TagContext::Gps, 0x0006) => Some("GPSAltitude"@),
        (TagContext::Gps, 0x0005) => Some("GPSAltitudeRef"@),
        (TagContext::Gps, 0x0007) => Some("GPSTimeStamp"@),
        (TagContext::Gps, 0x001d) => Some("GPSDateStamp"@),
        _ => None,
    }
}

/// Each whitelisted tag is exported under its own EXIF name (the tag
/// `PhotographicSensitivity`, 0x8827, under `ISO`).
pub proof fn lemma_tag_names_are_exif_names()
    ensures
        tag_name(TagContext::Exif, 0x9003) == Some("DateTimeOriginal"@),
        tag_name(TagContext::Tiff, 0x0132) == Some("DateTime"@),
        tag_name(TagContext::Exif, 0x9004) == Some("DateTimeDigitized"@),
        tag_name(TagContext::Exif, 0x9010) == Some("OffsetTime"@),
        tag_name(TagContext::Exif, 0x9011) == Some("OffsetTimeOriginal"@),
        tag_name(TagContext::Exif, 0x9012) == Some("OffsetTimeDigitized"@),
        tag_name(TagContext::Tiff, 0x010f) == Some("Make"@),
        tag_name(TagContext::Tiff, 0x0110) == Some("Model"@),
        tag_name(TagContext::Exif, 0xa433) == Some("LensMake"@),
        tag_name(TagContext::Exif, 0xa434) == Some("LensModel"@),
        tag_name(TagContext::Exif, 0xa432) == Some("LensSpecification"@),
        tag_name(TagContext::Tiff, 0x0131) == Some("Software"@),
        tag_name(TagContext::Tiff, 0x013b) == Some("Artist"@),
        tag_name(TagContext::Tiff, 0x8298) == Some("Copyright"@),
        tag_name(TagContext::Tiff, 0x010e) == Some("ImageDescription"@),
        tag_name(TagContext::Exif, 0xa430) == Some("CameraOwnerName"@),
        tag_name(TagContext::Exif, 0xa431) == Some("BodySerialNumber"@),
        tag_name(TagContext::Exif, 0xa435) == Some("LensSerialNumber"@),
        tag_name(TagContext::Exif, 0x8827) == Some("ISO"@),
        tag_name(TagContext::Exif, 0x920a) == Some("FocalLength"@),
        tag_name(TagContext::Exif, 0xa405) == Some("FocalLengthIn35mmFilm"@),
        tag_name(TagContext::Exif, 0x829a) == Some("ExposureTime"@),
        tag_name(TagContext::Exif, 0x829d) == Some("FNumber"@),
        tag_name(TagContext::Exif, 0x9204) == Some("ExposureBiasValue"@),
        tag_name(TagContext::Exif, 0x8822) == Some("ExposureProgram"@),
        tag_name(TagContext::Exif, 0xa402) == Some("ExposureMode"@),
        tag_name(TagContext::Exif, 0x9207) == Some("MeteringMode"@),
        tag_name(TagContext::Exif, 0xa403) == Some("WhiteBalance"@),
        tag_name(TagContext::Exif, 0x9209) == Some("Flash"@),
        tag_name(TagContext::Exif, 0x9201) == Some("ShutterSpeedValue"@),
        tag_name(TagContext::Exif, 0x9202) == Some("ApertureValue"@),
        tag_name(TagContext::Exif, 0x9203) == Some("BrightnessValue"@),
        tag_name(TagContext::Exif, 0x9205) == Some("MaxApertureValue"@),
        tag_name(TagContext::Exif, 0x9206) == Some("SubjectDistance"@),
        tag_name(TagContext::Exif, 0xa404) == Some("DigitalZoomRatio"@),
        tag_name(TagContext::Exif, 0xa406) == Some("SceneCaptureType"@),
        tag_name(TagContext::Exif, 0xa408) == Some("Contrast"@),
        tag_name(TagContext::Exif, 0xa409) == Some("Saturation"@),
        tag_name(TagContext::Exif, 0xa40a) == Some("Sharpness"@),
        tag_name(TagContext::Exif, 0xa407) == Some("GainControl"@),
        tag_name(TagContext::Exif, 0xa40c) == Some("SubjectDistanceRange"@),
        tag_name(TagContext::Exif, 0xa217) == Some("SensingMethod"@),
        tag_name(TagContext::Exif, 0x9208) == Some("LightSource"@),
        tag_name(TagContext::Exif, 0xa401) == Some("CustomRendered"@),
        tag_name(TagContext::Exif, 0xa300) == Some("FileSource"@),
        tag_name(TagContext::Exif, 0xa301) == Some("SceneType"@),
        tag_name(TagContext::Tiff, 0x0112) == Some("Orientation"@),
        tag_name(TagContext::Exif, 0xa001) == Some("ColorSpace"@),
        tag_name(TagContext::Exif, 0x9000) == Some("ExifVersion"@),
        tag_name(TagContext::Exif, 0xa000) == Some("FlashpixVersion"@),
        tag_name(TagContext::Exif, 0xa002) == Some("PixelXDimension"@),
        tag_name(TagContext::Exif, 0xa003) == Some("PixelYDimension"@),
        tag_name(TagContext::Exif, 0x9102) == Some("CompressedBitsPerPixel"@),
        tag_name(TagContext::Exif, 0x9101) == Some("ComponentsConfiguration"@),
        tag_name(TagContext::Exif, 0xa420) == Some("ImageUniqueID"@),
        tag_name(TagContext::Exif, 0x9286) == Some("UserComment"@),
        tag_name(TagContext::Gps, 0x0002) == Some("GPSLatitude"@),
        tag_name(TagContext::Gps, 0x0001) == Some("GPSLatitudeRef"@),
        tag_name(TagContext::Gps, 0x0004) == Some("GPSLongitude"@),
        tag_name(TagContext::Gps, 0x0003) == Some("GPSLongitudeRef"@),
        tag_name(TagContext::Gps, 0x0006) == Some("GPSAltitude"@),
        tag_name(TagContext::Gps, 0x0005) == Some("GPSAltitudeRef"@),
        tag_name(TagContext::Gps, 0x0007) == Some("GPSTimeStamp"@),
        tag_name(TagContext::Gps, 0x001d) == Some("GPSDateStamp"@),
{
}

/// Only the whitelisted tags are exported.
pub proof fn lemma_only_listed_tags_exported(c: TagContext, n: u16)
    ensures
        tag_name(c, n) is Some ==> {
            ||| c == TagContext::Exif && n == 0x9003
            ||| c == TagContext::Tiff && n == 0x0132
            ||| c == TagContext::Exif && n == 0x9004
            ||| c == TagContext::Exif && n == 0x9010
            ||| c == TagContext::Exif && n == 0x9011
            ||| c == TagContext::Exif && n == 0x9012
            ||| c == TagContext::Tiff && n == 0x010f
            ||| c == TagContext::Tiff && n == 0x0110
            ||| c == TagContext::Exif && n == 0xa433
            ||| c == TagContext::Exif && n == 0xa434
            ||| c == TagContext::Exif && n == 0xa432
            ||| c == TagContext::Tiff && n == 0x0131
            ||| c == TagContext::Tiff && n == 0x013b
            ||| c == TagContext::Tiff && n == 0x8298
            ||| c == TagContext::Tiff && n == 0x010e
            ||| c == TagContext::Exif && n == 0xa430
            ||| c == TagContext::Exif && n == 0xa431
            ||| c == TagContext::Exif && n == 0xa435
            ||| c == TagContext::Exif && n == 0x8827
            ||| c == TagContext::Exif && n == 0x920a
            ||| c == TagContext::Exif && n == 0xa405
            ||| c == TagContext::Exif && n == 0x829a
            ||| c == TagContext::Exif && n == 0x829d
            ||| c == TagContext::Exif && n == 0x9204
            ||| c == TagContext::Exif && n == 0x8822
            ||| c == TagContext::Exif && n == 0xa402
            ||| c == TagContext::Exif && n == 0x9207
            ||| c == TagContext::Exif && n == 0xa403
            ||| c == TagContext::Exif && n == 0x9209
            ||| c == TagContext::Exif && n == 0x9201
            ||| c == TagContext::Exif && n == 0x9202
            ||| c == TagContext::Exif && n == 0x9203
            ||| c == TagContext::Exif && n == 0x9205
            ||| c == TagContext::Exif && n == 0x9206
            ||| c == TagContext::Exif && n == 0xa404
            ||| c == TagContext::Exif && n == 0xa406
            ||| c == TagContext::Exif && n == 0xa408
            ||| c == TagContext::Exif && n == 0xa409
            ||| c == TagContext::Exif && n == 0xa40a
            ||| c == TagContext::Exif && n == 0xa407
            ||| c == TagContext::Exif && n == 0xa40c
            ||| c == TagContext::Exif && n == 0xa217
            ||| c == TagContext::Exif && n == 0x9208
            ||| c == TagContext::Exif && n == 0xa401
            ||| c == TagContext::Exif && n == 0xa300
            ||| c == TagContext::Exif && n == 0xa301
            ||| c == TagContext::Tiff && n == 0x0112
            ||| c == TagContext::Exif && n == 0xa001
            ||| c == TagContext::Exif && n == 0x9000
            ||| c == TagContext::Exif && n == 0xa000
            ||| c == TagContext::Exif && n == 0xa002
            ||| c == TagContext::Exif && n == 0xa003
            ||| c == TagContext::Exif && n == 0x9102
            ||| c == TagContext::Exif && n == 0x9101
            ||| c == TagContext::Exif && n == 0xa420
            ||| c == TagContext::Exif && n == 0x9286
            ||| c == TagContext::Gps && n == 0x0002
            ||| c == TagContext::Gps && n == 0x0001
            ||| c == TagContext::Gps && n == 0x0004
            ||| c == TagContext::Gps && n == 0x0003
            ||| c == TagContext::Gps && n == 0x0006
            ||| c == TagContext::Gps && n == 0x0005
            ||| c == TagContext::Gps && n == 0x0007
            ||| c == TagContext::Gps && n == 0x001d
        },
{
}

/// The character of `s` at `i`, or NUL outside it.
pub open spec fn char_or_nul(s: Seq<char>, i: int) -> char {
    if 0 <= i < s.len() {
        s[i]
    } else {
        '\0'
    }
}

/// A few characters of a key that, with its length, tell the exported keys apart.
pub open spec fn key_signature(s: Seq<char>) -> (nat, char, char, char) {
    (s.len(), char_or_nul(s, s.len() - 4), char_or_nul(s, 3), char_or_nul(s, 5))
}

/// Distinct tags are exported under distinct keys: a key names one tag.
pub proof fn lemma_tag_names_distinct(c1: TagContext, n1: u16, c2: TagContext, n2: u16)
    requires
        tag_name(c1, n1) is Some,
        tag_name(c1, n1) == tag_name(c2, n2),
    ensures
        c1 == c2,
        n1 == n2,
{
    reveal_strlit("DateTimeOriginal");
    reveal_strlit("DateTime");
    reveal_strlit("DateTimeDigitized");
    reveal_strlit("OffsetTime");
    reveal_strlit("OffsetTimeOriginal");
    reveal_strlit("OffsetTimeDigitized");
    reveal_strlit("Make");
    reveal_strlit("Model");
    reveal_strlit("LensMake");
    reveal_strlit("LensModel");
    reveal_strlit("LensSpecification");
    reveal_strlit("Software");
    reveal_strlit("Artist");
    reveal_strlit("Copyright");
    reveal_strlit("ImageDescription");
    reveal_strlit("CameraOwnerName");
    reveal_strlit("BodySerialNumber");
    reveal_strlit("LensSerialNumber");
    reveal_strlit("ISO");
    reveal_strlit("FocalLength");
    reveal_strlit("FocalLengthIn35mmFilm");
    reveal_strlit("ExposureTime");
    reveal_strlit("FNumber");
    reveal_strlit("ExposureBiasValue");
    reveal_strlit("ExposureProgram");
    reveal_strlit("ExposureMode");
    reveal_strlit("MeteringMode");
    reveal_strlit("WhiteBalance");
    reveal_strlit("Flash");
    reveal_strlit("ShutterSpeedValue");
    reveal_strlit("ApertureValue");
    reveal_strlit("BrightnessValue");
    reveal_strlit("MaxApertureValue");
    reveal_strlit("SubjectDistance");
    reveal_strlit("DigitalZoomRatio");
    reveal_strlit("SceneCaptureType");
    reveal_strlit("Contrast");
    reveal_strlit("Saturation");
    reveal_strlit("Sharpness");
    reveal_strlit("GainControl");
    reveal_strlit("SubjectDistanceRange");
    reveal_strlit("SensingMethod");
    reveal_strlit("LightSource");
    reveal_strlit("CustomRendered");
    reveal_strlit("FileSource");
    reveal_strlit("SceneType");
    reveal_strlit("Orientation");
    reveal_strlit("ColorSpace");
    reveal_strlit("ExifVersion");
    reveal_strlit("FlashpixVersion");
    reveal_strlit("PixelXDimension");
    reveal_strlit("PixelYDimension");
    reveal_strlit("CompressedBitsPerPixel");
    reveal_strlit("ComponentsConfiguration");
    reveal_strlit("ImageUniqueID");
    reveal_strlit("UserComment");
    reveal_strlit("GPSLatitude");
    reveal_strlit("GPSLatitudeRef");
    reveal_strlit("GPSLongitude");
    reveal_strlit("GPSLongitudeRef");
    reveal_strlit("GPSAltitude");
    reveal_strlit("GPSAltitudeRef");
    reveal_strlit("GPSTimeStamp");
    reveal_strlit("GPSDateStamp");
    assert(key_signature(tag_name(c1, n1).unwrap()) == key_signature(tag_name(c2, n2).unwrap()));
}

/// The exported key of a tag, or `None` for a tag that is not exported.
pub fn readable_tag_name(context: TagContext, number: u16) -> (r: Option<&'static str>)
    ensures
        match r {
            Some(k) => tag_name(context, number) == Some(k@),
            None => tag_name(context, number) is None,
        },
{
    match (context, number) {
        (TagContext::Exif, 0x9003) => Some("DateTimeOriginal"),
        (TagContext::Tiff, 0x0132) => Some("DateTime"),
        (TagContext::Exif, 0x9004) => Some("DateTimeDigitized"),
        (TagContext::Exif, 0x9010) => Some("OffsetTime"),
        (TagContext::Exif, 0x9011) => Some("OffsetTimeOriginal"),
        (TagContext::Exif, 0x9012) => Some("OffsetTimeDigitized"),
        (TagContext::Tiff, 0x010f) => Some("Make"),
        (TagContext::Tiff, 0x0110) => Some("Model"),
        (TagContext::Exif, 0xa433) => Some("LensMake"),
        (TagContext::Exif, 0xa434) => Some("LensModel"),
        (TagContext::Exif, 0xa432) => Some("LensSpecification"),
        (TagContext::Tiff, 0x0131) => Some("Software"),
        (TagContext::Tiff, 0x013b) => Some("Artist"),
        (TagContext::Tiff, 0x8298) => Some("Copyright"),
        (TagContext::Tiff, 0x010e) => Some("ImageDescription"),
        (TagContext::Exif, 0xa430) => Some("CameraOwnerName"),
        (TagContext::Exif, 0xa431) => Some("BodySerialNumber"),
        (TagContext::Exif, 0xa435) => Some("LensSerialNumber"),
        (TagContext::Exif, 0x8827) => Some("ISO"),  // PhotographicSensitivity
        (TagContext::Exif, 0x920a) => Some("FocalLength"),
        (TagContext::Exif, 0xa405) => Some("FocalLengthIn35mmFilm"),
        (TagContext::Exif, 0x829a) => Some("ExposureTime"),
        (TagContext::Exif, 0x829d) => Some("FNumber"),
        (TagContext::Exif, 0x9204) => Some("ExposureBiasValue"),
        (TagContext::Exif, 0x8822) => Some("ExposureProgram"),
        (TagContext::Exif, 0xa402) => Some("ExposureMode"),
        (TagContext::Exif, 0x9207) => Some("MeteringMode"),
        (TagContext::Exif, 0xa403) => Some("WhiteBalance"),
        (TagContext::Exif, 0x9209) => Some("Flash"),
        (TagContext::Exif, 0x9201) => Some("ShutterSpeedValue"),
        (TagContext::Exif, 0x9202) => Some("ApertureValue"),
        (TagContext::Exif, 0x9203) => Some("BrightnessValue"),
        (TagContext::Exif, 0x9205) => Some("MaxApertureValue"),
        (TagContext::Exif, 0x9206) => Some("SubjectDistance"),
        (TagContext::Exif, 0xa404) => Some("DigitalZoomRatio"),
        (TagContext::Exif, 0xa406) => Some("SceneCaptureType"),
        (TagContext::Exif, 0xa408) => Some("Contrast"),
        (TagContext::Exif, 0xa409) => Some("Saturation"),
        (TagContext::Exif, 0xa40a) => Some("Sharpness"),
        (TagContext::Exif, 0xa407) => Some("GainControl"),
        (TagContext::Exif, 0xa40c) => Some("SubjectDistanceRange"),
        (TagContext::Exif, 0xa217) => Some("SensingMethod"),
        (TagContext::Exif, 0x9208) => Some("LightSource"),
        (TagContext::Exif, 0xa401) => Some("CustomRendered"),
        (TagContext::Exif, 0xa300) => Some("FileSource"),
        (TagContext::Exif, 0xa301) => Some("SceneType"),
        (TagContext::Tiff, 0x0112) => Some("Orientation"),
        (TagContext::Exif, 0xa001) => Some("ColorSpace"),
        (TagContext::Exif, 0x9000) => Some("ExifVersion"),
        (TagContext::Exif, 0xa000) => Some("FlashpixVersion"),
        (TagContext::Exif, 0xa002) => Some("PixelXDimension"),
        (TagContext::Exif, 0xa003) => Some("PixelYDimension"),
        (TagContext::Exif, 0x9102) => Some("CompressedBitsPerPixel"),
        (TagContext::Exif, 0x9101) => Some("ComponentsConfiguration"),
        (TagContext::Exif, 0xa420) => Some("ImageUniqueID"),
        (TagContext::Exif, 0x9286) => Some("UserComment"),
        (TagContext::Gps, 0x0002) => Some("GPSLatitude"),
        (TagContext::Gps, 0x0001) => Some("GPSLatitudeRef"),
        (TagContext::Gps, 0x0004) => Some("GPSLongitude"),
        (TagContext::Gps, 0x0003) => Some("GPSLongitudeRef"),
        (TagContext::Gps, 0x0006) => Some("GPSAltitude"),
        (TagContext::Gps, 0x0005) => Some("GPSAltitudeRef"),
        (TagContext::Gps, 0x0007) => Some("GPSTimeStamp"),
        (TagContext::Gps, 0x001d) => Some("GPSDateStamp"),
        _ => None,
    }
}

/// Unicode `White_Space` (`char::is_whitespace`).
pub open spec fn is_white_space(c: char) -> bool {
    let u = c as u32;
    (9 <= u <= 13) || u == 0x20 || u == 0x85 || u == 0xa0 || u == 0x1680 || (0x2000 <= u
        <= 0x200a) || u == 0x2028 || u == 0x2029 || u == 0x202f || u == 0x205f || u == 0x3000
}

fn white_space(c: char) -> (r: bool)
    ensures
        r == is_white_space(c),
{
    let u = c as u32;
    (9 <= u && u <= 13) || u == 0x20 || u == 0x85 || u == 0xa0 || u == 0x1680 || (0x2000 <= u
        && u <= 0x200a) || u == 0x2028 || u == 0x2029 || u == 0x202f || u == 0x205f || u == 0x3000
}

/// A character removed by the trimming step `kind`: 0 is `\0`, 1 is white space.
pub open spec fn trimmed_by(c: char, kind: int) -> bool {
    if kind == 0 {
        c == '\0'
    } else {
        is_white_space(c)
    }
}

/// `s` without its leading characters removed by `kind`.
pub open spec fn drop_front(s: Seq<char>, kind: int) -> Seq<char>
    decreases s.len(),
{
    if s.len() > 0 && trimmed_by(s[0], kind) {
        drop_front(s.drop_first(), kind)
    } else {
        s
    }
}

/// `s` without its trailing characters removed by `kind`.
pub open spec fn drop_back(s: Seq<char>, kind: int) -> Seq<char>
    decreases s.len(),
{
    if s.len() > 0 && trimmed_by(s.last(), kind) {
        drop_back(s.drop_last(), kind)
    } else {
        s
    }
}

/// `s.trim_matches('\0').trim()`.
pub open spec fn clean_value(s: Seq<char>) -> Seq<char> {
    drop_back(drop_front(drop_back(drop_front(s, 0), 0), 1), 1)
}

fn trimmed_char(c: char, kind: u8) -> (r: bool)
    requires
        kind <= 1,
    ensures
        r == trimmed_by(c, kind as int),
{
    if kind == 0 {
        c == '\0'
    } else {
        white_space(c)
    }
}

/// Narrows `v[lo..hi]` by dropping the leading then trailing characters of `kind`.
fn trim_range(v: &Vec<char>, lo: usize, hi: usize, kind: u8) -> (r: (usize, usize))
    requires
        lo <= hi <= v.len(),
        kind <= 1,
    ensures
        lo <= r.0 <= r.1 <= hi,
        v@.subrange(r.0 as int, r.1 as int) == drop_back(
            drop_front(v@.subrange(lo as int, hi as int), kind as int),
            kind as int,
        ),
{
    let mut a = lo;
    while a < hi && trimmed_char(v[a], kind)
        invariant
            lo <= a <= hi <= v.len(),
            kind <= 1,
            drop_front(v@.subrange(lo as int, hi as int), kind as int) == drop_front(
                v@.subrange(a as int, hi as int),
                kind as int,
            ),
        decreases hi - a,
    {
        proof {
            assert(v@.subrange(a as int, hi as int).drop_first() =~= v@.subrange(a + 1, hi as int));
        }
        a = a + 1;
    }
    let mut b = hi;
    proof {
        assert(drop_front(v@.subrange(a as int, hi as int), kind as int) == v@.subrange(
            a as int,
            hi as int,
        ));
    }
    while b > a && trimmed_char(v[b - 1], kind)
        invariant
            lo <= a <= b <= hi <= v.len(),
            kind <= 1,
            drop_back(drop_front(v@.subrange(lo as int, hi as int), kind as int), kind as int)
                == drop_back(v@.subrange(a as int, b as int), kind as int),
        decreases b - a,
    {
        proof {
            assert(v@.subrange(a as int, b as int).drop_last() =~= v@.subrange(a as int, b - 1));
        }
        b = b - 1;
    }
    (a, b)
}

/// Cleans a displayed EXIF value: `\0` characters are removed from both ends, then
/// white space is (`trim_matches('\0').trim()`).
pub fn clean_exif_value(s: &str) -> (r: String)
    ensures
        r@ == clean_value(s@),
{
    let v = chars_of(s);
    let (a, b) = trim_range(&v, 0, v.len(), 0);
    let (c, d) = trim_range(&v, a, b, 1);
    proof {
        assert(v@.subrange(0, v.len() as int) =~= s@);
    }
    string_of(&v, c, d)
}

pub open spec fn pair_views(s: Seq<(String, String)>) -> Seq<(Seq<char>, Seq<char>)> {
    s.map_values(|e: (String, String)| (e.0@, e.1@))
}

/// The keys of the pairs are pairwise different.
pub open spec fn distinct_keys(s: Seq<(String, String)>) -> bool {
    forall|i: int, j: int| 0 <= i < j < s.len() ==> (#[trigger] s[i]).0@ != (#[trigger] s[j]).0@
}

/// The exported EXIF entries of a list of fields: for each exported tag, the cleaned
/// value of the first field that carries it.
pub open spec fn exif_entries(fields: Seq<(TagContext, u16, Seq<char>)>) -> Map<Seq<char>, Seq<char>>
    decreases fields.len(),
{
    if fields.len() == 0 {
        Map::empty()
    } else {
        let m = exif_entries(fields.drop_last());
        let f = fields.last();
        match tag_name(f.0, f.1) {
            Some(k) => if m.contains_key(k) {
                m
            } else {
                m.insert(k, clean_value(f.2))
            },
            None => m,
        }
    }
}

/// Keeps the exported fields, in order, first occurrence of each key only.
pub fn collect_exif(fields: &Vec<ExifField>) -> (r: Vec<(String, String)>)
    ensures
        distinct_keys(r@),
        map_of(pair_views(r@)) == exif_entries(fields@.map_values(|f: ExifField| field_view(f))),
{
    let ghost fv = fields@.map_values(|f: ExifField| field_view(f));
    let mut out: Vec<(String, String)> = Vec::new();
    let mut i: usize = 0;
    while i < fields.len()
        invariant
            i <= fields.len(),
            fv == fields@.map_values(|f: ExifField| field_view(f)),
            distinct_keys(out@),
            map_of(pair_views(out@)) == exif_entries(fv.take(i as int)),
        decreases fields.len() - i,
    {
        let f = &fields[i];
        proof {
            assert(fv.take(i + 1).drop_last() =~= fv.take(i as int));
            assert(fv.take(i + 1).last() == field_view(*f));
        }
        match readable_tag_name(f.context, f.number) {
            Some(k) => {
                let key = k.to_owned();
                let mut present = false;
                let mut j: usize = 0;
                while j < out.len()
                    invariant
                        j <= out.len(),
                        present == exists|t: int| 0 <= t < j && (#[trigger] out@[t]).0@ == key@,
                    decreases out.len() - j,
                {
                    if out[j].0 == key {
                        present = true;
                    }
                    j = j + 1;
                }
                proof {
                    lemma_map_of_keys(pair_views(out@), key@);
                    assert(present == exists|t: int|
                        0 <= t < pair_views(out@).len() && (#[trigger] pair_views(out@)[t]).0
                            == key@) by {
                        if present {
                            let t = choose|t: int| 0 <= t < out@.len() && (#[trigger] out@[t]).0@ == key@;
                            assert(pair_views(out@)[t].0 == key@);
                        }
                        if exists|t: int|
                            0 <= t < pair_views(out@).len() && (#[trigger] pair_views(out@)[t]).0
                                == key@ {
                            let t = choose|t: int|
                                0 <= t < pair_views(out@).len() && (#[trigger] pair_views(out@)[t]).0
                                    == key@;
                            assert(out@[t].0@ == key@);
                        }
                    }
                }
                if !present {
                    let value = clean_exif_value(f.text.as_str());
                    let ghost old_out = out@;
                    out.push((key, value));
                    proof {
                        assert(pair_views(out@).drop_last() =~= pair_views(old_out));
                        assert(pair_views(out@).last() == (key@, value@));
                        assert(distinct_keys(out@));
                    }
                }
            },
            None => {},
        }
        i = i + 1;
    }
    proof {
        assert(fv.take(fields.len() as int) =~= fv);
    }
    out
}

proof fn lemma_map_of_keys(s: Seq<(Seq<char>, Seq<char>)>, k: Seq<char>)
    ensures
        map_of(s).contains_key(k) <==> exists|t: int| 0 <= t < s.len() && (#[trigger] s[t]).0 == k,
    decreases s.len(),
{
    if s.len() > 0 {
        lemma_map_of_keys(s.drop_last(), k);
        if map_of(s.drop_last()).contains_key(k) {
            let t = choose|t: int| 0 <= t < s.drop_last().len() && (#[trigger] s.drop_last()[t]).0 == k;
            assert(s[t].0 == k);
        }
        if exists|t: int| 0 <= t < s.len() && (#[trigger] s[t]).0 == k {
            let t = choose|t: int| 0 <= t < s.len() && (#[trigger] s[t]).0 == k;
            if t < s.len() - 1 {
                assert(s.drop_last()[t].0 == k);
            }
        }
    }
}

/// The EXIF entries of an image file's bytes: exported key to cleaned value, the first
/// field of each key winning. A file whose EXIF data cannot be read gives no entry.
pub fn read_exif(data: &[u8]) -> (r: Vec<(String, String)>)
    ensures
        distinct_keys(r@),
        map_of(pair_views(r@)) == match exif_fields_of(data@) {
            Some(fs) => exif_entries(fs),
            None => Map::<Seq<char>, Seq<char>>::empty(),
        },
{
    match parse_exif_fields(data) {
        Some(fields) => collect_exif(&fields),
        None => {
            let out: Vec<(String, String)> = Vec::new();
            proof {
                assert(pair_views(out@) =~= Seq::<(Seq<char>, Seq<char>)>::empty());
            }
            out
        },
    }
}

} // verus!
