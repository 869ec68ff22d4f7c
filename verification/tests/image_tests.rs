use codex_skin_workshop::image_tools::{
    check_import_source, decode_for_import, extract_palette, import_format, import_image,
    palette_from_rgb, resolve_imported_image, ImageKind,
};
use codex_skin_workshop::codex::HostOs;
use codex_skin_workshop::store::ThemeStore;
use codex_skin_workshop::theme::is_image_ref;
use codex_skin_workshop::AppError;
use std::path::Path;

fn validation_message<T: std::fmt::Debug>(r: Result<T, AppError>) -> String {
    match r {
        Err(AppError::Validation(m)) => m,
        other => panic!("expected a validation error, got {other:?}"),
    }
}

fn png_bytes(w: u32, h: u32, rgb: [u8; 3]) -> Vec<u8> {
    let img = image::RgbImage::from_pixel(w, h, image::Rgb(rgb));
    let mut out = std::io::Cursor::new(Vec::new());
    image::DynamicImage::ImageRgb8(img).write_to(&mut out, image::ImageFormat::Png).unwrap();
    out.into_inner()
}

#[test]
fn palette_prefers_dominant_color() {
    let mut img = image::RgbImage::new(10, 10);
    for p in img.pixels_mut() {
        *p = image::Rgb([250, 5, 5]);
    }
    let palette = extract_palette(&image::DynamicImage::ImageRgb8(img), 3);
    assert_eq!(palette[0], "#ff0000");
}

#[test]
fn imported_path_cannot_escape() {
    assert!(resolve_imported_image(HostOs::Other, Path::new("/safe").to_str().unwrap(), "images/../../x").is_err());
}

#[test]
fn resolve_joins_valid_paths() {
    assert_eq!(resolve_imported_image(HostOs::Other, "/safe", "images/a.png").unwrap(), "/safe/images/a.png");
    assert_eq!(resolve_imported_image(HostOs::Other, "/safe/", "images/a.png").unwrap(), "/safe/images/a.png");
    for bad in ["images\\a", "imag/a", "images/a\0", "x/images/a"] {
        assert_eq!(validation_message(resolve_imported_image(HostOs::Other, "/safe", bad)), "导入图片路径无效", "{bad}");
    }
}

#[test]
fn palette_orders_buckets_by_frequency() {
    let mut px = Vec::new();
    for _ in 0..5 {
        px.extend_from_slice(&[0x10, 0x20, 0x30]);
    }
    for _ in 0..3 {
        px.extend_from_slice(&[0xff, 0xff, 0xff]);
    }
    px.extend_from_slice(&[0x00, 0x00, 0x0f]);
    px.push(0xaa); // an incomplete pixel is ignored
    assert_eq!(palette_from_rgb(&px, 6), vec!["#112233", "#ffffff", "#000000"]);
    assert_eq!(palette_from_rgb(&px, 1), vec!["#112233"]);
    assert!(palette_from_rgb(&px, 0).is_empty());
    assert!(palette_from_rgb(&[], 6).is_empty());
}

#[test]
fn source_file_checks() {
    assert!(check_import_source(true, 25 * 1024 * 1024).is_ok());
    assert_eq!(
        validation_message(check_import_source(true, 25 * 1024 * 1024 + 1)),
        "图片必须是普通文件，且不能超过 25 MiB"
    );
    assert!(check_import_source(false, 1).is_err());
}

#[test]
fn format_comes_from_content_then_extension() {
    let png = png_bytes(2, 2, [1, 2, 3]);
    assert_eq!(import_format(&png, "photo.gif").unwrap(), ImageKind::Png);
    assert_eq!(import_format(&[0xff, 0xd8, 0xff, 0xe0], "x").unwrap(), ImageKind::Jpeg);
    assert_eq!(import_format(b"GIF89a....", "x").unwrap(), ImageKind::Gif);
    assert_eq!(import_format(b"RIFF\0\0\0\0WEBPVP8 ", "x").unwrap(), ImageKind::WebP);
    assert_eq!(import_format(b"unknown", "photo.JPEG").unwrap(), ImageKind::Jpeg);
    assert_eq!(validation_message(import_format(b"unknown", "photo")), "无法识别图片格式");
    assert_eq!(validation_message(import_format(b"unknown", ".png")), "无法识别图片格式");
    assert_eq!(validation_message(import_format(b"BM....", "a.png")), "仅支持 PNG、JPEG、WebP 和 GIF 图片");
    assert_eq!(validation_message(import_format(b"unknown", "a.tiff")), "仅支持 PNG、JPEG、WebP 和 GIF 图片");
}

#[test]
fn decoding_reports_dimensions_and_errors() {
    let png = png_bytes(3, 2, [9, 9, 9]);
    let d = decode_for_import(&png, "a.png").unwrap();
    assert_eq!((d.width, d.height, d.kind), (3, 2, ImageKind::Png));
    match decode_for_import(b"\x89PNG\r\n\x1a\ntruncated", "a.png") {
        Err(AppError::Image(_)) => {}
        Err(other) => panic!("{other:?}"),
        Ok(_) => panic!("truncated PNG decoded"),
    }
}

#[test]
fn import_names_a_valid_stored_copy() {
    let store = ThemeStore::new("/data".into(), HostOs::Other);
    let png = png_bytes(4, 4, [250, 5, 5]);
    let (info, decoded) = import_image(&store, &png, "背景.png").unwrap();
    assert_eq!(decoded.kind, ImageKind::Png);
    assert_eq!((info.width, info.height), (4, 4));
    assert!(info.relative_path.starts_with("images/"));
    assert!(info.relative_path.ends_with(".png"));
    assert_eq!(info.relative_path.len(), "images/".len() + 36 + ".png".len());
    assert!(is_image_ref(&info.relative_path));
    assert_eq!(info.absolute_path, format!("/data/{}", info.relative_path));
    assert_eq!(info.palette, vec!["#ff0000"]);
    let (again, _) = import_image(&store, &png, "背景.png").unwrap();
    assert_ne!(again.relative_path, info.relative_path);
}

fn is_uuid_v4(u: &str) -> bool {
    let b: Vec<char> = u.chars().collect();
    b.len() == 36
        && b.iter().enumerate().all(|(i, c)| {
            if [8, 13, 18, 23].contains(&i) { *c == '-' } else { c.is_ascii_digit() || ('a'..='f').contains(c) }
        })
        && b[14] == '4'
        && "89ab".contains(b[19])
}

#[test]
fn import_refuses_large_inputs_and_uses_v4_names() {
    let store = ThemeStore::new("/data".into(), HostOs::Other);
    let mut big = png_bytes(4, 4, [1, 2, 3]);
    big.resize(25 * 1024 * 1024 + 1, 0);
    match import_image(&store, &big, "a.png") {
        Err(AppError::Validation(m)) => assert_eq!(m, "图片必须是普通文件，且不能超过 25 MiB"),
        _ => panic!("expected a validation error"),
    }
    let png = png_bytes(2, 2, [1, 2, 3]);
    let (info, _) = import_image(&store, &png, "a.png").unwrap();
    let uuid = &info.relative_path["images/".len().."images/".len() + 36];
    assert!(is_uuid_v4(uuid), "{uuid}");
}

#[test]
fn palette_size_is_count_or_the_colors_in_use() {
    let two_colors = [250u8, 5, 5, 250, 5, 5, 1, 2, 200];
    assert_eq!(palette_from_rgb(&two_colors, 6).len(), 2);
    assert_eq!(palette_from_rgb(&two_colors, 1), vec!["#ff0000"]);
    let many: Vec<u8> = (0..40u8).flat_map(|i| [i * 6, 0, 0]).collect();
    assert_eq!(palette_from_rgb(&many, 6).len(), 6);
    assert!(palette_from_rgb(&[], 6).is_empty());
}

#[test]
fn paths_join_as_the_host_does() {
    assert_eq!(resolve_imported_image(HostOs::Windows, "C:\\data", "images/a.png").unwrap(), "C:\\data\\images/a.png");
    assert_eq!(resolve_imported_image(HostOs::Windows, "C:", "images/a.png").unwrap(), "C:images/a.png");
    assert_eq!(resolve_imported_image(HostOs::Windows, "C:\\data/", "images/a.png").unwrap(), "C:\\data/images/a.png");
    let store = ThemeStore::new("C:\\data".into(), HostOs::Windows);
    let (info, _) = import_image(&store, &png_bytes(2, 2, [9, 9, 9]), "a.png").unwrap();
    assert_eq!(info.absolute_path, format!("C:\\data\\{}", info.relative_path));
}
