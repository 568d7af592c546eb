use image_organizer::metadata::{
    clean_exif_value, collect_exif, probe_image, read_exif, readable_tag_name, ExifField,
    TagContext,
};
use image_organizer::pathname::PathStyle;
use std::io::Cursor;
use exif::experimental::Writer;
use exif::{Field, In, Tag, Value};

fn png_bytes(w: u32, h: u32) -> Vec<u8> {
    let img = image::RgbaImage::from_pixel(w, h, image::Rgba([1u8, 2, 3, 255]));
    let mut out = Cursor::new(Vec::new());
    img.write_to(&mut out, image::ImageFormat::Png).unwrap();
    out.into_inner()
}

#[test]
fn probe_reports_dimensions_and_format() {
    let p = probe_image("dir/t.png", PathStyle::Unix, Ok((16, 9))).unwrap();
    assert_eq!((p.width, p.height), (16, 9));
    assert_eq!(p.format, "png");
    let j = probe_image("dir/t.JPG", PathStyle::Unix, Ok((8, 6))).unwrap();
    assert_eq!(j.format, "jpeg");
    let t = probe_image("x.tif", PathStyle::Unix, Ok((1, 1))).unwrap();
    assert_eq!(t.format, "tiff");
}

#[test]
fn probe_errors_carry_their_prefix() {
    let e = probe_image("t.png", PathStyle::Unix, Err("boom".to_string())).err().unwrap();
    assert_eq!(e, "读取图片尺寸失败：boom");
    let f = probe_image("t.heic", PathStyle::Unix, Ok((1, 1))).err().unwrap();
    let crate_text = image::ImageFormat::from_path("t.heic").unwrap_err().to_string();
    assert_eq!(f, format!("识别图片格式失败：{crate_text}"));
    assert_eq!(f, "识别图片格式失败：The file extension `.\"heic\"` was not recognized as an image format");
    let g = probe_image("dir/noext", PathStyle::Unix, Ok((1, 1))).err().unwrap();
    let crate_text = image::ImageFormat::from_path("dir/noext").unwrap_err().to_string();
    assert_eq!(g, format!("识别图片格式失败：{crate_text}"));
    let h = probe_image("dir/a.", PathStyle::Unix, Ok((1, 1))).err().unwrap();
    let crate_text = image::ImageFormat::from_path("dir/a.").unwrap_err().to_string();
    assert_eq!(h, format!("识别图片格式失败：{crate_text}"));
}

#[test]
fn tag_whitelist_names() {
    assert_eq!(readable_tag_name(TagContext::Exif, 0x9003), Some("DateTimeOriginal"));
    assert_eq!(readable_tag_name(TagContext::Exif, 0x8827), Some("ISO"));
    assert_eq!(readable_tag_name(TagContext::Gps, 0x2), Some("GPSLatitude"));
    assert_eq!(readable_tag_name(TagContext::Tiff, 0x10f), Some("Make"));
    // ImageWidth and the Exif IFD pointer are not exported
    assert_eq!(readable_tag_name(TagContext::Tiff, 0x100), None);
    assert_eq!(readable_tag_name(TagContext::Tiff, 0x8769), None);
    // the same number in another context is another tag
    assert_eq!(readable_tag_name(TagContext::Gps, 0x9003), None);
}

#[test]
fn exif_values_are_trimmed() {
    assert_eq!(clean_exif_value("\0 50 mm \0"), "50 mm");
    assert_eq!(clean_exif_value("Canon\0\0"), "Canon");
    assert_eq!(clean_exif_value("  f/2.8\t\n"), "f/2.8");
    assert_eq!(clean_exif_value(" \0x"), "\0x");
    assert_eq!(clean_exif_value("\0\0"), "");
}

#[test]
fn first_field_of_a_key_wins() {
    let f = |c, n, t: &str| ExifField { context: c, number: n, text: t.to_string() };
    let fields = vec![
        f(TagContext::Tiff, 0x100, "4000"),
        f(TagContext::Tiff, 0x132, "2024:01:01 10:00:00\0"),
        f(TagContext::Tiff, 0x132, "2030:01:01 00:00:00"),
        f(TagContext::Exif, 0x829d, "f/2.8"),
    ];
    let out = collect_exif(&fields);
    assert_eq!(out.len(), 2);
    assert_eq!(out[0], ("DateTime".to_string(), "2024:01:01 10:00:00".to_string()));
    assert_eq!(out[1], ("FNumber".to_string(), "f/2.8".to_string()));
}

#[test]
fn no_exif_gives_no_entries() {
    assert!(read_exif(&png_bytes(4, 4)).is_empty());
    assert!(read_exif(b"not an image").is_empty());
    assert!(read_exif(&[]).is_empty());
}

fn tiff_with_exif() -> Vec<u8> {
    let make = Field { tag: Tag::Make, ifd_num: In::PRIMARY, value: Value::Ascii(vec![b"Canon".to_vec()]) };
    let model = Field { tag: Tag::Model, ifd_num: In::PRIMARY, value: Value::Ascii(vec![b"EOS R5".to_vec()]) };
    let width = Field { tag: Tag::ImageWidth, ifd_num: In::PRIMARY, value: Value::Short(vec![4000]) };
    let mut writer = Writer::new();
    writer.push_field(&make);
    writer.push_field(&model);
    writer.push_field(&width);
    let mut buf = Cursor::new(Vec::new());
    writer.write(&mut buf, false).unwrap();
    buf.into_inner()
}

#[test]
fn exif_of_a_tiff_keeps_the_whitelisted_tags() {
    let entries: std::collections::HashMap<String, String> =
        read_exif(&tiff_with_exif()).into_iter().collect();
    assert!(entries.get("Make").unwrap().contains("Canon"));
    assert!(entries.get("Model").unwrap().contains("EOS R5"));
    assert!(!entries.contains_key("ImageWidth"));
    assert_eq!(entries.len(), 2);
}

#[test]
fn exported_keys_name_one_tag_each() {
    let mut seen = std::collections::HashSet::new();
    let mut count = 0;
    for ctx in [TagContext::Tiff, TagContext::Exif, TagContext::Gps, TagContext::Interop, TagContext::Other] {
        for n in 0..=u16::MAX {
            if let Some(k) = readable_tag_name(ctx, n) {
                count += 1;
                assert!(seen.insert(k), "key {k} names two tags");
            }
        }
    }
    assert_eq!(count, 64);
}
