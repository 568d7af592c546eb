//! Thumbnails: which request gets one, how it is rendered (the longest side at most
//! `THUMB_SIZE`, lossless WebP), and the name of its cache file.
//!
//! The database queries, the reads and writes of files and the HEIF decoder are the
//! caller's; the decisions, the pixel work and the encoding are done here.
use vstd::prelude::*;
use image::DynamicImage;
use crate::text::{push_signed, push_str, push_decimal, signed_decimal, decimal};
use crate::images::ImageRow;
use crate::scanner::STATUS_MISSING;
use crate::metadata::{FormatKind, path_format, format_of_kind, unsupported_text, is_unsupported_text};
use crate::pathname::{extension, PathStyle};

verus! {

broadcast use vstd::string::group_string_axioms;

/// Longest side of a thumbnail, in pixels.
pub const THUMB_SIZE: u32 = 256;

/// Number of thumbnails decoded at the same time, at most.
pub const THUMB_DECODE_CONCURRENCY: usize = 4;

/// The count of free decoding permits, out of a fixed number. At every moment no
/// more permits are free than there are in all, so the permits taken plus the free
/// ones are the maximum.
pub struct Permits {
    free: usize,
    max: usize,
}

impl Permits {
    #[verifier::type_invariant]
    spec fn inv(self) -> bool {
        self.free <= self.max
    }

    pub closed spec fn free(&self) -> nat {
        self.free as nat
    }

    pub closed spec fn max(&self) -> nat {
        self.max as nat
    }

    /// The number of permits taken.
    pub open spec fn taken(&self) -> nat {
        (self.max() - self.free()) as nat
    }

    /// `max` free permits.
    pub fn new(max: usize) -> (r: Self)
        ensures
            r.free() == max,
            r.max() == max,
    {
        Permits { free: max, max }
    }

    /// The number of free permits, never more than the maximum.
    pub fn available(&self) -> (r: usize)
        ensures
            r == self.free(),
            self.free() <= self.max(),
            self.taken() + self.free() == self.max(),
    {
        proof {
            use_type_invariant(self);
        }
        self.free
    }

    /// The number of permits taken.
    pub fn taken_count(&self) -> (r: usize)
        ensures
            r == self.taken(),
            self.free() <= self.max(),
    {
        proof {
            use_type_invariant(self);
        }
        self.max - self.free
    }

    /// Takes a permit when one is free; `false` (nothing changed) when all are taken,
    /// in which case the caller waits for one to be given back.
    pub fn try_take(&mut self) -> (r: bool)
        ensures
            final(self).max() == old(self).max(),
            r == (old(self).free() > 0),
            r ==> final(self).free() == old(self).free() - 1,
            !r ==> final(self).free() == old(self).free(),
            final(self).free() <= final(self).max(),
    {
        proof {
            use_type_invariant(&*self);
        }
        if self.free == 0 {
            false
        } else {
            self.free = self.free - 1;
            true
        }
    }

    /// Gives back a taken permit.
    pub fn give_back(&mut self)
        requires
            old(self).taken() > 0,
        ensures
            final(self).max() == old(self).max(),
            final(self).free() == old(self).free() + 1,
            final(self).free() <= final(self).max(),
    {
        proof {
            use_type_invariant(&*self);
        }
        self.free = self.free + 1;
    }
}

/// Taking a permit and giving it back leaves the count as it was, and the permits
/// taken never exceed the maximum.
pub proof fn lemma_permits_balance(before: Permits, taken: Permits, back: Permits)
    requires
        before.free() <= before.max(),
        taken.max() == before.max(),
        taken.free() == before.free() - 1,
        back.max() == taken.max(),
        back.free() == taken.free() + 1,
    ensures
        back.free() == before.free(),
        back.taken() <= back.max(),
{
}

/// Name of the cache file of an image's thumbnail: `<id>.webp`.
pub fn cache_file_name(image_id: i64) -> (r: String)
    ensures
        r@ == signed_decimal(image_id as int) + ".webp"@,
{
    let mut s = String::new();
    push_signed(&mut s, image_id);
    push_str(&mut s, ".webp");
    s
}

/// What a thumbnail request does.
#[derive(Debug)]
pub enum ThumbnailPlan {
    /// There is no thumbnail to give: the image is unknown or its file is missing.
    Unavailable,
    /// The thumbnail cached at this path is on disk.
    Cached(String),
    /// A thumbnail is to be rendered from the image file at this path.
    Render(String),
}

/// Decides a thumbnail request from the image's index row, its status, and the
/// recorded cache file with whether that file exists. An unknown image or one whose
/// file is marked missing has no thumbnail; a recorded cache file that exists is
/// used; otherwise the thumbnail is rendered from the image file.
pub fn plan_thumbnail(
    row: Option<&ImageRow>,
    status: &str,
    cached: Option<String>,
    cached_is_file: bool,
) -> (r: ThumbnailPlan)
    ensures
        match row {
            None => r is Unavailable,
            Some(row) => if status@ == STATUS_MISSING@ {
                r is Unavailable
            } else {
                match cached {
                    Some(p) if cached_is_file => r matches ThumbnailPlan::Cached(q) && q@ == p@,
                    _ => r matches ThumbnailPlan::Render(s) && s@ == row.path@,
                }
            },
        },
{
    match row {
        None => ThumbnailPlan::Unavailable,
        Some(row) => {
            if status.to_owned() == STATUS_MISSING.to_owned() {
                return ThumbnailPlan::Unavailable;
            }
            match cached {
                Some(p) => if cached_is_file {
                    ThumbnailPlan::Cached(p)
                } else {
                    ThumbnailPlan::Render(row.path.clone())
                },
                None => ThumbnailPlan::Render(row.path.clone()),
            }
        },
    }
}

/// `image::DynamicImage`, carried as an opaque value.
#[verifier::external_type_specification]
#[verifier::external_body]
pub struct ExDynamicImage(DynamicImage);

/// The sample bytes that a `DynamicImage` holds (`DynamicImage::as_bytes`): its pixels
/// row by row, the channels of a pixel in order.
pub uninterp spec fn image_bytes(img: DynamicImage) -> Seq<u8>;

/// The pixel type of an image: the variants of `image::DynamicImage`.
#[derive(Debug, Clone, Copy, PartialEq, Eq, Structural)]
pub enum ColorKind {
    L8,
    La8,
    Rgb8,
    Rgba8,
    L16,
    La16,
    Rgb16,
    Rgba16,
    Rgb32F,
    Rgba32F,
}

/// Bytes per pixel of each pixel type.
pub open spec fn bytes_per_pixel(c: ColorKind) -> nat {
    match c {
        ColorKind::L8 => 1,
        ColorKind::La8 => 2,
        ColorKind::Rgb8 => 3,
        ColorKind::Rgba8 => 4,
        ColorKind::L16 => 2,
        ColorKind::La16 => 4,
        ColorKind::Rgb16 => 6,
        ColorKind::Rgba16 => 8,
        ColorKind::Rgb32F => 12,
        ColorKind::Rgba32F => 16,
    }
}

/// A decoded image with its width, height and pixel type as plain values.
pub struct Picture {
    image: DynamicImage,
    width: u32,
    height: u32,
    color: ColorKind,
}

impl Picture {
    /// Its sample buffer holds exactly its pixels.
    #[verifier::type_invariant]
    spec fn inv(self) -> bool {
        image_bytes(self.image).len() == bytes_per_pixel(self.color) * self.width * self.height
    }

    /// Width and height.
    pub closed spec fn dims(&self) -> (u32, u32) {
        (self.width, self.height)
    }

    /// Pixel type.
    pub closed spec fn kind(&self) -> ColorKind {
        self.color
    }

    /// Sample bytes.
    pub closed spec fn bytes(&self) -> Seq<u8> {
        image_bytes(self.image)
    }

    pub fn width(&self) -> (r: u32)
        ensures
            r == self.dims().0,
    {
        self.width
    }

    pub fn height(&self) -> (r: u32)
        ensures
            r == self.dims().1,
    {
        self.height
    }

    pub fn color(&self) -> (r: ColorKind)
        ensures
            r == self.kind(),
    {
        self.color
    }
}

/// The width, height and pixel type of the image that
/// `image::load_from_memory_with_format` decodes from `data` read as `kind`, or
/// `None` when it fails.
pub uninterp spec fn decoded_image(data: Seq<u8>, kind: FormatKind) -> Option<(u32, u32, ColorKind)>;

/// Decodes `bytes` as an image of format `kind` with
/// `image::load_from_memory_with_format`; an error gives its text. The result depends
/// on the bytes and the format alone and is named `decoded_image`. The crate's
/// decoders fill a buffer of exactly width × height pixels.
#[verifier::external_body]
fn decode_with_format(bytes: &[u8], kind: FormatKind) -> (r: Result<Picture, String>)
    ensures
        match r {
            Ok(p) => decoded_image(bytes@, kind) == Some((p.width, p.height, p.color)) && p.inv(),
            Err(_) => decoded_image(bytes@, kind) is None,
        },
{
    let img = image::load_from_memory_with_format(bytes, format_of_kind(kind)).map_err(|e| e.to_string())?;
    Ok(picture_of(img))
}

/// Wraps a `DynamicImage` with its width, height and variant (`DynamicImage` has
/// exactly the ten variants of `ColorKind`; the last arm is `ImageRgba32F`).
#[verifier::external_body]
fn picture_of(img: DynamicImage) -> Picture {
    let (width, height) = (img.width(), img.height());
    let color = match &img {
        DynamicImage::ImageLuma8(_) => ColorKind::L8, DynamicImage::ImageLumaA8(_) => ColorKind::La8,
        DynamicImage::ImageRgb8(_) => ColorKind::Rgb8, DynamicImage::ImageRgba8(_) => ColorKind::Rgba8,
        DynamicImage::ImageLuma16(_) => ColorKind::L16, DynamicImage::ImageLumaA16(_) => ColorKind::La16,
        DynamicImage::ImageRgb16(_) => ColorKind::Rgb16, DynamicImage::ImageRgba16(_) => ColorKind::Rgba16,
        DynamicImage::ImageRgb32F(_) => ColorKind::Rgb32F, _ => ColorKind::Rgba32F,
    };
    Picture { image: img, width, height, color }
}

pub open spec fn decode_error(e: Seq<char>) -> Seq<char> {
    "解码图片失败："@ + e
}

/// `m` is `解码图片失败：` followed by some error text.
pub open spec fn is_decode_error(m: Seq<char>) -> bool {
    exists|t: Seq<char>| m == #[trigger] decode_error(t)
}

/// The extension by which `image::open` picks a file's format: the path's extension
/// unless it is empty.
pub open spec fn open_extension(path: Seq<char>, style: PathStyle) -> Option<Seq<char>> {
    match extension(path, style) {
        Some(e) => if e.len() > 0 {
            Some(e)
        } else {
            None
        },
        None => None,
    }
}

/// Decodes the content of the image file at `path`, in the format that the path's
/// extension names (as `image::open` does). A path with no (or an empty) extension,
/// or one that names no format, gives `解码图片失败：<the image crate's error>`, and so
/// does a decoding failure.
pub fn decode_source(path: &str, style: PathStyle, bytes: &[u8]) -> (r: Result<Picture, String>)
    ensures
        match crate::metadata::format_of_path(path@, style) {
            None => r matches Err(m) && exists|t: Seq<char>|
                m@ == #[trigger] decode_error(t) && is_unsupported_text(t, open_extension(path@, style)),
            Some(k) => match decoded_image(bytes@, k) {
                Some((w, h, c)) => r matches Ok(p) && p.dims() == (w, h) && p.kind() == c,
                None => r matches Err(m) && is_decode_error(m@),
            },
        },
{
    match path_format(path, style) {
        (ext, None) => {
            let t = match &ext {
                Some(e) => if e.as_str().unicode_len() > 0 {
                    unsupported_text(Some(e.as_str()))
                } else {
                    unsupported_text(None)
                },
                None => unsupported_text(None),
            };
            let mut m = String::new();
            push_str(&mut m, "解码图片失败：");
            push_str(&mut m, t.as_str());
            assert(m@ =~= decode_error(t@));
            Err(m)
        },
        (_, Some(kind)) => match decode_with_format(bytes, kind) {
            Ok(p) => Ok(p),
            Err(e) => {
                let mut m = String::new();
                push_str(&mut m, "解码图片失败：");
                push_str(&mut m, e.as_str());
                assert(is_decode_error(m@)) by {
                    assert(m@ =~= decode_error(e@));
                }
                Err(m)
            },
        },
    }
}

/// What `DynamicImage::thumbnail(bound, bound)` gives for an image of `width` ×
/// `height` pixels of type `color` with samples `src`: its width, its height and its
/// samples. The size is the source's scaled, aspect ratio kept, by the smaller of the
/// two ratios `bound / width` and `bound / height`, each side rounded and at least 1;
/// the samples are averaged or interpolated from the source's (computed in floating
/// point by the crate).
pub uninterp spec fn thumbnail_of(
    src: Seq<u8>,
    width: u32,
    height: u32,
    color: ColorKind,
    bound: u32,
) -> (u32, u32, Seq<u8>);

/// `(tw, th)` keeps the aspect ratio of `(sw, sh)` up to the rounding of one side:
/// `|tw·sh − th·sw| ≤ max(sw, sh)`.
pub open spec fn keeps_aspect(sw: u32, sh: u32, tw: u32, th: u32) -> bool {
    let d = tw * sh - th * sw;
    -(if sw >= sh { sw as int } else { sh as int }) <= d <= if sw >= sh { sw as int } else { sh as int }
}

/// `t` is `num / den` rounded to the nearest integer (either way at an exact half),
/// and at least 1.
pub open spec fn rounds_to(t: int, num: int, den: int) -> bool {
    ||| t == 1 && 2 * num <= den
    ||| t >= 1 && -den <= 2 * t * den - 2 * num <= den
}

/// The size `(tw, th)` that `DynamicImage::thumbnail(bound, bound)` gives an image of
/// `sw` × `sh`: the longer side becomes `bound` and the other is scaled by the same
/// ratio and rounded (at least 1); an empty image gives 1 × 1.
pub open spec fn fitted_size(sw: u32, sh: u32, bound: u32, tw: u32, th: u32) -> bool {
    if sw == 0 && sh == 0 {
        tw == 1 && th == 1
    } else if sw >= sh {
        tw == bound && rounds_to(th as int, sh * bound, sw as int)
    } else {
        th == bound && rounds_to(tw as int, sw * bound, sh as int)
    }
}

/// A fitted size lies within the bound, reaches it on one side unless the image is
/// empty, and keeps the aspect ratio up to the rounding of one side.
pub proof fn lemma_fitted_size(sw: u32, sh: u32, bound: u32, tw: u32, th: u32)
    requires
        bound >= 1,
        fitted_size(sw, sh, bound, tw, th),
    ensures
        1 <= tw <= bound,
        1 <= th <= bound,
        (sw > 0 || sh > 0) ==> (tw == bound || th == bound),
        keeps_aspect(sw, sh, tw, th),
{
    if sw == 0 && sh == 0 {
    } else if sw >= sh {
        lemma_rounded_side(th as int, sh as int, sw as int, bound as int);
        assert(tw * sh == bound * sh);
    } else {
        lemma_rounded_side(tw as int, sw as int, sh as int, bound as int);
        assert(th * sw == bound * sw);
    }
}

/// The shorter side `a` of a `b`-long image, scaled so that `b` becomes `bound` and
/// rounded to `t`: `t` is at most `bound`, and `t·b` is within `b` of `a·bound`.
proof fn lemma_rounded_side(t: int, a: int, b: int, bound: int)
    requires
        0 <= a <= b,
        b > 0,
        bound >= 1,
        rounds_to(t, a * bound, b),
    ensures
        1 <= t <= bound,
        -b <= bound * a - t * b <= b,
{
    if t == 1 && 2 * (a * bound) <= b {
        assert(0 <= a * bound) by (nonlinear_arith)
            requires
                0 <= a,
                bound >= 1,
        ;
        assert(bound * a == a * bound) by (nonlinear_arith);
    } else {
        assert(t <= bound) by (nonlinear_arith)
            requires
                2 * t * b - 2 * (a * bound) <= b,
                a <= b,
                b > 0,
                bound >= 1,
        ;
        assert(bound * a == a * bound) by (nonlinear_arith);
        assert(2 * t * b == 2 * (t * b)) by (nonlinear_arith);
    }
}

/// Calls `DynamicImage::thumbnail(size, size)`. The result has the source's pixel type
/// and is `thumbnail_of` the source (a function of its samples, size and pixel type).
/// The crate computes its size (`resize_dimensions`) as each side of the source times
/// the smaller of `size / width` and `size / height` in `f64`, rounded half away from
/// zero, at least 1: the longer side becomes `size` (a smaller image is scaled up) and
/// the other is its exact quotient rounded, as `fitted_size` states. With `size` at
/// most 65536 the floating-point error is below 2^-35, smaller than the distance
/// (at least 1/(2·2^32)) between a half that is not exact and the next rounding
/// boundary, so only an exact half can round either way. The crate fills a buffer of
/// exactly the new size.
#[verifier::external_body]
fn thumbnail_within(img: &Picture, size: u32) -> (r: Picture)
    requires
        1 <= size <= 65536,
    ensures
        (r.width, r.height, image_bytes(r.image)) == thumbnail_of(
            image_bytes(img.image),
            img.width,
            img.height,
            img.color,
            size,
        ),
        r.color == img.color,
        r.inv(),
        fitted_size(img.width, img.height, size, r.width, r.height),
{
    picture_of(img.image.thumbnail(size, size))
}

/// A rendered thumbnail and the size of the image it was made from.
pub struct Thumbnail {
    picture: Picture,
    source_width: u32,
    source_height: u32,
}

impl Thumbnail {
    /// Width and height of the thumbnail.
    pub closed spec fn size(&self) -> (u32, u32) {
        self.picture.dims()
    }

    /// Width and height of the image it was made from.
    pub closed spec fn source(&self) -> (u32, u32) {
        (self.source_width, self.source_height)
    }

    /// Pixel type.
    pub closed spec fn kind(&self) -> ColorKind {
        self.picture.kind()
    }

    /// Samples.
    pub closed spec fn bytes(&self) -> Seq<u8> {
        self.picture.bytes()
    }

    pub fn width(&self) -> (r: u32)
        ensures
            r == self.size().0,
    {
        self.picture.width()
    }

    pub fn height(&self) -> (r: u32)
        ensures
            r == self.size().1,
    {
        self.picture.height()
    }

    pub fn source_width(&self) -> (r: u32)
        ensures
            r == self.source().0,
    {
        self.source_width
    }

    pub fn source_height(&self) -> (r: u32)
        ensures
            r == self.source().1,
    {
        self.source_height
    }

    /// The longest side, as recorded in the thumbnail index.
    pub fn longest_side(&self) -> (r: i64)
        ensures
            r == if self.size().0 >= self.size().1 {
                self.size().0
            } else {
                self.size().1
            },
    {
        let (w, h) = (self.width(), self.height());
        if w >= h {
            w as i64
        } else {
            h as i64
        }
    }
}

/// Scales an image to the largest size that fits within `THUMB_SIZE` × `THUMB_SIZE`,
/// aspect ratio kept: its longer side becomes `THUMB_SIZE`, also for a smaller image.
pub fn make_thumbnail(img: &Picture) -> (r: Thumbnail)
    ensures
        r.source() == img.dims(),
        r.kind() == img.kind(),
        (r.size().0, r.size().1, r.bytes()) == thumbnail_of(
            img.bytes(),
            img.dims().0,
            img.dims().1,
            img.kind(),
            THUMB_SIZE,
        ),
        1 <= r.size().0 <= THUMB_SIZE,
        1 <= r.size().1 <= THUMB_SIZE,
        (img.dims().0 > 0 || img.dims().1 > 0) ==> (r.size().0 == THUMB_SIZE || r.size().1
            == THUMB_SIZE),
        keeps_aspect(img.dims().0, img.dims().1, r.size().0, r.size().1),
        fitted_size(img.dims().0, img.dims().1, THUMB_SIZE, r.size().0, r.size().1),
{
    let picture = thumbnail_within(img, THUMB_SIZE);
    proof {
        lemma_fitted_size(img.width, img.height, THUMB_SIZE, picture.width, picture.height);
    }
    Thumbnail { picture, source_width: img.width, source_height: img.height }
}

/// The little-endian 32-bit number in `b` at `at`.
pub open spec fn le32(b: Seq<u8>, at: int) -> int {
    b[at] + 256 * b[at + 1] + 65536 * b[at + 2] + 16777216 * b[at + 3]
}

/// `b` is a WebP file in the simple container holding one lossless bitstream: `RIFF`,
/// the size of what follows, `WEBP`, then one `VP8L` chunk (its length, the bitstream
/// starting with the signature byte 0x2f, and a pad byte when the length is odd).
pub open spec fn is_lossless_webp(b: Seq<u8>) -> bool {
    &&& b.len() >= 25
    &&& b.subrange(0, 4) == seq![0x52u8, 0x49u8, 0x46u8, 0x46u8]
    &&& le32(b, 4) == b.len() - 8
    &&& b.subrange(8, 16) == seq![0x57u8, 0x45u8, 0x42u8, 0x50u8, 0x56u8, 0x50u8, 0x38u8, 0x4cu8]
    &&& b.len() == 20 + le32(b, 16) + le32(b, 16) % 2
    &&& b[20] == 0x2f
}

/// The width and height that the lossless bitstream header of `b` declares: 14 bits
/// each, less one, after the signature byte.
pub open spec fn webp_declared_size(b: Seq<u8>) -> (int, int) {
    (le32(b, 21) % 16384 + 1, (le32(b, 21) / 16384) % 16384 + 1)
}

/// 8-bit grey, grey and alpha, RGB or RGBA.
pub open spec fn is_8bit(c: ColorKind) -> bool {
    c == ColorKind::L8 || c == ColorKind::La8 || c == ColorKind::Rgb8 || c == ColorKind::Rgba8
}

/// Whether the lossless WebP encoder takes an image: 8-bit grey, grey and alpha, RGB
/// or RGBA, each side from 1 to 16384.
pub open spec fn webp_encodable(c: ColorKind, size: (u32, u32)) -> bool {
    &&& is_8bit(c)
    &&& 1 <= size.0 <= 16384
    &&& 1 <= size.1 <= 16384
}

/// The lossless WebP file that `image::codecs::webp::WebPEncoder::new_lossless` writes
/// for an image of `width` × `height` pixels of type `color` with samples `pixels`.
pub uninterp spec fn webp_of(pixels: Seq<u8>, width: u32, height: u32, color: ColorKind) -> Seq<u8>;

/// Encodes an image as lossless WebP with `image::codecs::webp::WebPEncoder` (which
/// asserts that the sample buffer is exactly width × height pixels, as every `Picture`'s
/// is); an error gives its text. It fails exactly on a pixel type other than 8-bit L,
/// LA, RGB or RGBA, or a side of 0 or over 16384 (writing to a `Vec` does not fail).
/// On success it writes (`image_webp::WebPEncoder::encode`, no metadata set) `RIFF`,
/// the size, `WEBP` and one `VP8L` chunk whose bitstream starts with the signature
/// 0x2f and the width and height less one in 14 bits each, least significant bit first.
/// The bytes depend on the samples, size and pixel type alone: `webp_of`.
#[verifier::external_body]
fn webp_lossless(img: &Picture) -> (r: Result<Vec<u8>, String>)
    requires
        img.inv(),
    ensures
        r is Ok <==> webp_encodable(img.color, (img.width, img.height)),
        r matches Ok(b) ==> b@ == webp_of(image_bytes(img.image), img.width, img.height, img.color)
            && is_lossless_webp(b@) && webp_declared_size(b@) == (img.width as int, img.height as int),
{
    let (mut out, i) = (Vec::new(), &img.image);
    image::codecs::webp::WebPEncoder::new_lossless(&mut out)
        .encode(i.as_bytes(), i.width(), i.height(), i.color().into())
        .map_err(|e| e.to_string())?;
    Ok(out)
}

pub open spec fn encode_error(e: Seq<char>) -> Seq<char> {
    "编码缩略图失败："@ + e
}

pub open spec fn is_encode_error(m: Seq<char>) -> bool {
    exists|t: Seq<char>| m == #[trigger] encode_error(t)
}

/// The thumbnail as a lossless WebP file of its size, or `编码缩略图失败：<error>` when
/// its pixel type is not 8-bit L, LA, RGB or RGBA.
pub fn encode_thumbnail(t: &Thumbnail) -> (r: Result<Vec<u8>, String>)
    ensures
        r is Ok <==> webp_encodable(t.kind(), t.size()),
        r matches Ok(b) ==> b@ == webp_of(t.bytes(), t.size().0, t.size().1, t.kind()),
        r matches Ok(b) ==> is_lossless_webp(b@) && webp_declared_size(b@) == (
            t.size().0 as int,
            t.size().1 as int,
        ),
        r matches Err(m) ==> is_encode_error(m@),
{
    proof {
        use_type_invariant(&t.picture);
    }
    match webp_lossless(&t.picture) {
        Ok(bytes) => Ok(bytes),
        Err(e) => {
            let mut m = String::new();
            push_str(&mut m, "编码缩略图失败：");
            push_str(&mut m, e.as_str());
            assert(is_encode_error(m@)) by {
                assert(m@ =~= encode_error(e@));
            }
            Err(m)
        },
    }
}

/// Renders the thumbnail of a decoded image as lossless WebP bytes with its longest
/// side. A source that could not be decoded gets no thumbnail (`Ok(None)`). The
/// thumbnail fits `THUMB_SIZE` × `THUMB_SIZE` with the longer side `THUMB_SIZE`, the
/// aspect ratio kept; it is encoded when its pixels are 8-bit, and otherwise the
/// encoding error is returned.
pub fn render_thumbnail(decoded: Result<Picture, String>) -> (r: Result<Option<(Vec<u8>, i64)>, String>)
    ensures
        match decoded {
            Err(_) => r matches Ok(None),
            Ok(p) => {
                let t = thumbnail_of(p.bytes(), p.dims().0, p.dims().1, p.kind(), THUMB_SIZE);
                &&& fitted_size(p.dims().0, p.dims().1, THUMB_SIZE, t.0, t.1)
                &&& 1 <= t.0 <= THUMB_SIZE
                &&& 1 <= t.1 <= THUMB_SIZE
                &&& (p.dims().0 > 0 || p.dims().1 > 0) ==> (t.0 == THUMB_SIZE || t.1 == THUMB_SIZE)
                &&& keeps_aspect(p.dims().0, p.dims().1, t.0, t.1)
                &&& if is_8bit(p.kind()) {
                    r matches Ok(Some((b, side))) && b@ == webp_of(t.2, t.0, t.1, p.kind())
                        && is_lossless_webp(b@) && webp_declared_size(b@) == (t.0 as int, t.1 as int)
                        && side == (if t.0 >= t.1 { t.0 } else { t.1 })
                } else {
                    r matches Err(m) && is_encode_error(m@)
                }
            },
        },
{
    match decoded {
        Err(_) => Ok(None),
        Ok(p) => {
            let t = make_thumbnail(&p);
            let bytes = encode_thumbnail(&t)?;
            Ok(Some((bytes, t.longest_side())))
        },
    }
}

/// Of a HEIF image with `thumbnail_count` embedded thumbnails, the first of whose ids
/// is `first_id`, the embedded thumbnail to decode in place of the primary image:
/// the first one, when there is one with a non-zero id.
pub fn heif_thumbnail_choice(thumbnail_count: usize, first_id: u32) -> (r: Option<u32>)
    ensures
        r == if thumbnail_count > 0 && first_id != 0 {
            Some(first_id)
        } else {
            None::<u32>
        },
{
    if thumbnail_count > 0 && first_id != 0 {
        Some(first_id)
    } else {
        None
    }
}

/// The interleaved plane of a decoded HEIF image.
pub struct HeifPlane<'a> {
    pub data: &'a [u8],
    pub stride: usize,
    pub storage_bits_per_pixel: u8,
}

/// The rows of a `height`-row image of `row_size` bytes per row, read from `data`
/// whose rows start `stride` bytes apart.
pub open spec fn packed_rows(data: Seq<u8>, stride: int, row_size: int, height: int) -> Seq<u8> {
    Seq::new(
        (height * row_size) as nat,
        |i: int| data[(i / row_size) * stride + i % row_size],
    )
}

/// A plane that passes the checks holds all the rows that are read from it.
pub open spec fn heif_plane_fits(width: u32, height: u32, plane: Option<&HeifPlane>) -> bool {
    match plane {
        Some(p) => heif_plane_ok(width, height, *p) ==> (height - 1) * p.stride + width * 4
            <= p.data@.len(),
        None => true,
    }
}

/// The plane can be read as `height` rows of `width` RGBA pixels.
pub open spec fn heif_plane_ok(width: u32, height: u32, plane: HeifPlane) -> bool {
    width > 0 && height > 0 && plane.storage_bits_per_pixel == 32 && width * 4 <= plane.stride
}

pub open spec fn heif_size_error(m: Seq<char>) -> bool {
    m == "HEIC 解码结果尺寸为 0"@
}

/// Packs the RGBA rows of a decoded HEIF image into one buffer without the row
/// padding. Fails when a dimension is zero (`HEIC 解码结果尺寸为 0`), when there is
/// no interleaved plane (`HEIC 解码结果不是交错格式`), when its pixels are not 32 bits
/// (`HEIC 位深不支持：<bits> bpp（仅支持 8 位 RGBA）`), or when a row is longer than the
/// stride (`HEIC 行宽大于 stride`).
pub fn heif_rgba_buffer(width: u32, height: u32, plane: Option<&HeifPlane>) -> (r: Result<
    Vec<u8>,
    String,
>)
    requires
        width * 4 * height <= usize::MAX,
        heif_plane_fits(width, height, plane),
    ensures
        if width == 0 || height == 0 {
            (r matches Err(m) && m@ == "HEIC 解码结果尺寸为 0"@)
        } else {
            match plane {
                None => (r matches Err(m) && m@ == "HEIC 解码结果不是交错格式"@),
                Some(p) => if p.storage_bits_per_pixel != 32 {
                    (r matches Err(m) && m@ == "HEIC 位深不支持："@ + decimal(
                        p.storage_bits_per_pixel as nat,
                    ) + " bpp（仅支持 8 位 RGBA）"@)
                } else if width * 4 > p.stride {
                    (r matches Err(m) && m@ == "HEIC 行宽大于 stride"@)
                } else {
                    (r matches Ok(buf) && buf@ == packed_rows(
                        p.data@,
                        p.stride as int,
                        width * 4,
                        height as int,
                    ))
                },
            }
        },
{
    if width == 0 || height == 0 {
        let mut m = String::new();
        push_str(&mut m, "HEIC 解码结果尺寸为 0");
        return Err(m);
    }
    let p = match plane {
        Some(p) => p,
        None => {
            let mut m = String::new();
            push_str(&mut m, "HEIC 解码结果不是交错格式");
            return Err(m);
        },
    };
    if p.storage_bits_per_pixel != 32 {
        let mut m = String::new();
        push_str(&mut m, "HEIC 位深不支持：");
        push_decimal(&mut m, p.storage_bits_per_pixel as u64);
        push_str(&mut m, " bpp（仅支持 8 位 RGBA）");
        return Err(m);
    }
    proof {
        assert(width * 4 <= width * 4 * height) by (nonlinear_arith)
            requires
                height >= 1,
        ;
    }
    let row_size = width as usize * 4;
    if row_size > p.stride {
        let mut m = String::new();
        push_str(&mut m, "HEIC 行宽大于 stride");
        return Err(m);
    }
    let h = height as usize;
    let data_len = p.data.len();
    let mut buf: Vec<u8> = Vec::new();
    let mut y: usize = 0;
    proof {
        assert(buf@ =~= packed_rows(p.data@, p.stride as int, row_size as int, 0));
    }
    while y < h
        invariant
            row_size == width * 4,
            h == height,
            row_size <= p.stride,
            row_size > 0,
            y <= h,
            row_size * h <= usize::MAX,
            (h - 1) * p.stride + row_size <= p.data@.len(),
            p.data@.len() == data_len,
            buf@ == packed_rows(p.data@, p.stride as int, row_size as int, y as int),
        decreases h - y,
    {
        proof {
            assert(y * p.stride + row_size <= (h - 1) * p.stride + row_size) by (nonlinear_arith)
                requires
                    y < h,
            ;
            assert(y * row_size + row_size <= row_size * h) by (nonlinear_arith)
                requires
                    y < h,
            ;
        }
        let base = y * p.stride;
        let mut x: usize = 0;
        while x < row_size
            invariant
                row_size == width * 4,
                row_size <= p.stride,
                row_size > 0,
                y < h,
                x <= row_size,
                base == y * p.stride,
                base + row_size <= p.data@.len(),
                p.data@.len() == data_len,
                y * row_size + row_size <= usize::MAX,
                buf@.len() == y * row_size + x,
                forall|i: int|
                    0 <= i < y * row_size + x ==> #[trigger] buf@[i] == p.data@[(i / row_size as int)
                        * p.stride + i % row_size as int],
            decreases row_size - x,
        {
            proof {
                let i = y * row_size + x;
                assert(i / row_size as int == y && i % row_size as int == x) by {
                    vstd::arithmetic::div_mod::lemma_fundamental_div_mod(i as int, row_size as int);
                    vstd::arithmetic::div_mod::lemma_div_multiples_vanish_fancy(
                        y as int,
                        x as int,
                        row_size as int,
                    );
                    vstd::arithmetic::div_mod::lemma_mod_multiples_vanish(
                        y as int,
                        x as int,
                        row_size as int,
                    );
                    vstd::arithmetic::div_mod::lemma_small_mod(x as nat, row_size as nat);
                    vstd::arithmetic::mul::lemma_mul_is_commutative(y as int, row_size as int);
                }
            }
            buf.push(p.data[base + x]);
            x = x + 1;
        }
        proof {
            assert((y + 1) * row_size == y * row_size + row_size) by (nonlinear_arith);
        }
        y = y + 1;
        proof {
            assert(buf@ =~= packed_rows(p.data@, p.stride as int, row_size as int, y as int));
        }
    }
    Ok(buf)
}

/// Wraps an RGBA buffer of exactly `4 * width * height` bytes as an image with
/// `image::RgbaImage::from_raw`, which computes `4 * width`, then that times `height`,
/// with checked `usize` arithmetic and gives `None` exactly when either overflows (the
/// buffer is long enough otherwise). The image holds the buffer as its samples.
#[verifier::external_body]
fn rgba_image(width: u32, height: u32, buf: Vec<u8>) -> (r: Option<Picture>)
    requires
        buf@.len() == 4 * width * height,
    ensures
        r is Some <==> (4 * width <= usize::MAX && 4 * width * height <= usize::MAX),
        r matches Some(p) ==> p.width == width && p.height == height && p.color == ColorKind::Rgba8
            && image_bytes(p.image) == buf@ && p.inv(),
{
    image::RgbaImage::from_raw(width, height, buf).map(|i| picture_of(DynamicImage::ImageRgba8(i)))
}

/// Builds an 8-bit RGBA image from a decoded HEIF image (see `heif_rgba_buffer`): of
/// `width` × `height` pixels, its samples the packed rows of the plane.
pub fn heif_to_image(width: u32, height: u32, plane: Option<&HeifPlane>) -> (r: Result<
    Picture,
    String,
>)
    requires
        width * 4 * height <= usize::MAX,
        heif_plane_fits(width, height, plane),
    ensures
        r is Ok <==> match plane {
            Some(p) => heif_plane_ok(width, height, *p),
            None => false,
        },
        r matches Ok(pic) ==> pic.dims() == (width, height) && pic.kind() == ColorKind::Rgba8
            && match plane {
            Some(p) => pic.bytes() == packed_rows(p.data@, p.stride as int, width * 4, height as int),
            None => false,
        },
{
    let buf = heif_rgba_buffer(width, height, plane)?;
    proof {
        assert(4 * width * height == height * (width * 4)) by (nonlinear_arith);
        assert(width * 4 * height == height * (width * 4)) by (nonlinear_arith);
        assert(width * 4 <= width * 4 * height) by (nonlinear_arith)
            requires
                height >= 1,
        ;
    }
    match rgba_image(width, height, buf) {
        Some(img) => Ok(img),
        None => {
            let mut m = String::new();
            push_str(&mut m, "HEIC 像素缓冲构造失败");
            Err(m)
        },
    }
}

} // verus!
