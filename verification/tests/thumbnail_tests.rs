use image_organizer::images::{count_from_query, detail_row, ImageRow};
use image_organizer::library::{check_library_path, LibraryError, LIBRARY_PATH_KEY};
use image_organizer::thumbnail::{
    cache_file_name, decode_source, encode_thumbnail, heif_rgba_buffer, heif_thumbnail_choice,
    heif_to_image, make_thumbnail, plan_thumbnail, render_thumbnail, ColorKind, HeifPlane, Permits,
    ThumbnailPlan, THUMB_SIZE,
};
use image_organizer::pathname::PathStyle;
use std::io::Cursor;

fn png_bytes(w: u32, h: u32) -> Vec<u8> {
    let img = image::RgbaImage::from_pixel(w, h, image::Rgba([10u8, 200, 30, 255]));
    let mut out = Cursor::new(Vec::new());
    img.write_to(&mut out, image::ImageFormat::Png).unwrap();
    out.into_inner()
}

fn row(id: i64, path: &str) -> ImageRow {
    ImageRow {
        id,
        path: path.to_string(),
        width: Some(4),
        height: Some(4),
        format: Some("png".to_string()),
        file_size: Some(100),
        mtime: Some(1000),
    }
}

#[test]
fn thumbnail_keeps_aspect_and_fits() {
    let img = decode_source("a.png", PathStyle::Unix, &png_bytes(640, 480)).unwrap();
    let t = make_thumbnail(&img);
    assert_eq!((t.width(), t.height()), (256, 192));
    assert_eq!(t.longest_side(), 256);
    let webp = encode_thumbnail(&t).unwrap();
    let back = image::load_from_memory_with_format(&webp, image::ImageFormat::WebP).unwrap();
    assert_eq!((back.width(), back.height()), (256, 192));
    assert!(t.width() <= THUMB_SIZE && t.height() <= THUMB_SIZE);
    assert_eq!((t.source_width(), t.source_height()), (640, 480));
}

#[test]
fn small_image_is_scaled_up_to_the_bound() {
    let img = decode_source("s.png", PathStyle::Unix, &png_bytes(16, 8)).unwrap();
    let t = make_thumbnail(&img);
    assert_eq!((t.source_width(), t.source_height()), (16, 8));
    assert_eq!((t.width(), t.height()), (256, 128));
    let tall = make_thumbnail(&decode_source("t.png", PathStyle::Unix, &png_bytes(3, 1000)).unwrap());
    assert_eq!((tall.width(), tall.height()), (1, 256));
}

#[test]
fn decoded_picture_reports_size_and_pixel_type() {
    let p = decode_source("a.PNG", PathStyle::Unix, &png_bytes(7, 5)).unwrap();
    assert_eq!((p.width(), p.height(), p.color()), (7, 5, ColorKind::Rgba8));
}

#[test]
fn sixteen_bit_thumbnail_is_not_encoded() {
    let img = image::DynamicImage::ImageRgba16(image::ImageBuffer::new(4, 4));
    let mut out = Cursor::new(Vec::new());
    img.write_to(&mut out, image::ImageFormat::Png).unwrap();
    let p = decode_source("deep.png", PathStyle::Unix, &out.into_inner()).unwrap();
    assert_eq!(p.color(), ColorKind::Rgba16);
    let e = encode_thumbnail(&make_thumbnail(&p)).err().unwrap();
    assert!(e.starts_with("编码缩略图失败："));
    assert!(render_thumbnail(Ok(p)).is_err());
}

#[test]
fn undecodable_source_renders_nothing() {
    assert_eq!(render_thumbnail(Err("bad".to_string())), Ok(None));
    let p = decode_source("a.png", PathStyle::Unix, &png_bytes(640, 480)).unwrap();
    let (bytes, side) = render_thumbnail(Ok(p)).unwrap().unwrap();
    assert_eq!(side, 256);
    let back = image::load_from_memory_with_format(&bytes, image::ImageFormat::WebP).unwrap();
    assert_eq!((back.width(), back.height()), (256, 192));
}

#[test]
fn encoded_thumbnail_is_a_lossless_webp_file() {
    let img = decode_source("a.png", PathStyle::Unix, &png_bytes(30, 20)).unwrap();
    let webp = encode_thumbnail(&make_thumbnail(&img)).unwrap();
    assert_eq!(&webp[0..4], b"RIFF");
    assert_eq!(&webp[8..16], b"WEBPVP8L");
    let riff = u32::from_le_bytes([webp[4], webp[5], webp[6], webp[7]]) as usize;
    assert_eq!(riff, webp.len() - 8);
    let chunk = u32::from_le_bytes([webp[16], webp[17], webp[18], webp[19]]) as usize;
    assert_eq!(webp.len(), 20 + chunk + chunk % 2);
    assert_eq!(webp[20], 0x2f);
    let header = u32::from_le_bytes([webp[21], webp[22], webp[23], webp[24]]);
    assert_eq!((header % 16384 + 1, (header / 16384) % 16384 + 1), (256, 171));
}

#[test]
fn corrupt_source_is_not_decoded() {
    let e = decode_source("broken.png", PathStyle::Unix, b"this is not a png").err().unwrap();
    assert!(e.starts_with("解码图片失败："));
    assert_eq!(
        decode_source("a.unknown", PathStyle::Unix, &png_bytes(2, 2)).err().unwrap(),
        "解码图片失败：The file extension `.\"unknown\"` was not recognized as an image format"
    );
    assert_eq!(
        decode_source("noext", PathStyle::Unix, &png_bytes(2, 2)).err().unwrap(),
        "解码图片失败：The image format could not be determined"
    );
    assert_eq!(
        decode_source("a.", PathStyle::Unix, &png_bytes(2, 2)).err().unwrap(),
        "解码图片失败：The image format could not be determined"
    );
}

#[test]
fn cache_file_is_named_by_id() {
    assert_eq!(cache_file_name(42), "42.webp");
    assert_eq!(cache_file_name(-3), "-3.webp");
}

#[test]
fn thumbnail_plans() {
    let r = row(1, "C:/photos/a.png");
    assert!(matches!(plan_thumbnail(None, "ok", None, false), ThumbnailPlan::Unavailable));
    assert!(matches!(plan_thumbnail(Some(&r), "missing", None, false), ThumbnailPlan::Unavailable));
    match plan_thumbnail(Some(&r), "ok", Some("cache/1.webp".into()), true) {
        ThumbnailPlan::Cached(p) => assert_eq!(p, "cache/1.webp"),
        _ => panic!("expected the cached file"),
    }
    match plan_thumbnail(Some(&r), "ok", Some("cache/1.webp".into()), false) {
        ThumbnailPlan::Render(p) => assert_eq!(p, "C:/photos/a.png"),
        _ => panic!("expected a render"),
    }
    assert!(matches!(plan_thumbnail(Some(&r), "ok", None, false), ThumbnailPlan::Render(_)));
}

#[test]
fn heif_rows_are_packed_without_padding() {
    // 2x2 RGBA, stride 12 (4 padding bytes per row)
    let mut data = Vec::new();
    for y in 0..2u8 {
        for x in 0..8u8 {
            data.push(y * 10 + x);
        }
        data.extend_from_slice(&[0xee; 4]);
    }
    let plane = HeifPlane { data: &data, stride: 12, storage_bits_per_pixel: 32 };
    let buf = heif_rgba_buffer(2, 2, Some(&plane)).unwrap();
    assert_eq!(buf, vec![0, 1, 2, 3, 4, 5, 6, 7, 10, 11, 12, 13, 14, 15, 16, 17]);
    let img = heif_to_image(2, 2, Some(&plane)).unwrap();
    assert_eq!((img.width(), img.height()), (2, 2));
}

#[test]
fn heif_plane_errors() {
    let ok = HeifPlane { data: &[0; 64], stride: 16, storage_bits_per_pixel: 32 };
    assert_eq!(heif_rgba_buffer(0, 2, Some(&ok)).err().unwrap(), "HEIC 解码结果尺寸为 0");
    assert_eq!(heif_rgba_buffer(2, 2, None).err().unwrap(), "HEIC 解码结果不是交错格式");
    let deep = HeifPlane { data: &[0; 64], stride: 16, storage_bits_per_pixel: 64 };
    assert_eq!(
        heif_rgba_buffer(2, 2, Some(&deep)).err().unwrap(),
        "HEIC 位深不支持：64 bpp（仅支持 8 位 RGBA）"
    );
    let narrow = HeifPlane { data: &[0; 64], stride: 4, storage_bits_per_pixel: 32 };
    assert_eq!(heif_rgba_buffer(2, 2, Some(&narrow)).err().unwrap(), "HEIC 行宽大于 stride");
    assert!(heif_to_image(2, 2, None).is_err());
}

#[test]
fn heif_embedded_thumbnail_choice() {
    assert_eq!(heif_thumbnail_choice(1, 7), Some(7));
    assert_eq!(heif_thumbnail_choice(1, 0), None);
    assert_eq!(heif_thumbnail_choice(0, 7), None);
}

#[test]
fn permits_limit_concurrent_decodes() {
    let mut p = Permits::new(2);
    assert!(p.try_take());
    assert!(p.try_take());
    assert!(!p.try_take());
    assert_eq!((p.available(), p.taken_count()), (0, 2));
    p.give_back();
    assert_eq!((p.available(), p.taken_count()), (1, 1));
    assert!(p.try_take());
    p.give_back();
    p.give_back();
    assert_eq!((p.available(), p.taken_count()), (2, 0));
}

#[test]
fn image_detail_and_count() {
    let r = row(5, "a.png");
    assert_eq!(detail_row(Some(r.clone()), 5).unwrap().path, "a.png");
    assert_eq!(detail_row(None, 999).err().unwrap(), "图片不存在：id=999");
    assert_eq!(count_from_query(2), 2);
}

#[test]
fn library_path_checks() {
    assert_eq!(LIBRARY_PATH_KEY, "library_path");
    assert_eq!(check_library_path("C:/我的 照片", true).unwrap(), "C:/我的 照片");
    let err = check_library_path("Z:/does/not/exist", false).unwrap_err();
    assert!(matches!(err, LibraryError::InvalidPath(_)));
    assert_eq!(err.message(), "图库目录不存在或不是目录：Z:/does/not/exist");
    let db = LibraryError::from(rusqlite::Error::QueryReturnedNoRows);
    assert!(db.message().starts_with("数据库错误："));
}
