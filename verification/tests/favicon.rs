use std::io::Cursor;

use image::{ImageBuffer, Rgb, Rgba};

use mountie::favicon::{
    collect_html_icon_links, favicon_candidates, favicon_plan, icon_png, icon_png_sized,
    themed_icon_png,
    resolve_link, themed_icon_targets, FaviconError,
};
use mountie::weburl::{host_from_url, normalize_url, UrlError, UrlParts};

#[test]
fn normalize_adds_https() {
    let u = normalize_url("example.com/path").unwrap();
    assert_eq!(u.scheme(), "https");
    assert_eq!(u.host_str(), Some("example.com"));
}

#[test]
fn normalize_keeps_scheme() {
    let u = normalize_url("http://example.com").unwrap();
    assert_eq!(u.scheme(), "http");
}

#[test]
fn normalize_errors() {
    assert_eq!(normalize_url("   ").unwrap_err(), UrlError::Empty);
    assert_eq!(normalize_url("http://").unwrap_err(), UrlError::Invalid);
    assert_eq!(normalize_url(" example.com ").unwrap().as_str(), "https://example.com/");
}

#[test]
fn hosts() {
    assert_eq!(host_from_url("https://Web.WhatsApp.com/").as_deref(), Some("web.whatsapp.com"));
    assert_eq!(host_from_url("nonsense"), None);
}

fn red_png(side: u32) -> Vec<u8> {
    let img: ImageBuffer<Rgba<u8>, Vec<u8>> =
        ImageBuffer::from_fn(side, side, |_, _| Rgba([255, 0, 0, 255]));
    let mut png = Vec::new();
    img.write_to(&mut Cursor::new(&mut png), image::ImageFormat::Png).unwrap();
    png
}

#[test]
fn png_roundtrip_from_minimal() {
    let out = icon_png(&red_png(8)).unwrap();
    assert!(!out.is_empty());
    let decoded = image::load_from_memory(&out).unwrap();
    assert_eq!(decoded.width(), 128);
    assert_eq!(decoded.height(), 128);
    assert_ne!(out, red_png(8));
    let small = icon_png_sized(&red_png(8), 16).unwrap();
    assert_eq!(image::load_from_memory(&small).unwrap().width(), 16);
}

#[test]
fn png_rejects_garbage() {
    assert_eq!(icon_png(b"not an image").unwrap_err(), FaviconError::Image);
}

#[test]
fn html_links_in_order() {
    let html = r#"<html><head>
<link rel="icon" href="/icon.png">
<link rel="icon">
<link rel="apple-touch-icon" href="/touch.png">
<meta property="og:image" content="https://cdn.example/og.png">
<link rel="shortcut icon" href="favicon.ico">
</head></html>"#;
    assert_eq!(
        collect_html_icon_links(html),
        vec!["/touch.png", "/icon.png", "favicon.ico", "https://cdn.example/og.png"]
    );
    assert!(collect_html_icon_links("<p>none</p>").is_empty());
}

#[test]
fn favicon_fallbacks() {
    let plan = favicon_plan("example.com/some/page").unwrap();
    assert_eq!(plan.origin.as_str(), "https://example.com/");
    let c = favicon_candidates(vec!["/a.png".to_string()], &plan.page);
    assert_eq!(
        c,
        vec![
            "/a.png".to_string(),
            "/favicon.ico".to_string(),
            "https://www.google.com/s2/favicons?domain=example.com&sz=128".to_string(),
        ]
    );
    assert!(matches!(favicon_plan(""), Err(FaviconError::Url(UrlError::Empty))));
}

#[test]
fn links_resolve_against_origin() {
    let base = UrlParts::parse("https://example.com/").unwrap();
    assert_eq!(resolve_link(&base, "/favicon.ico").unwrap().as_str(), "https://example.com/favicon.ico");
    assert_eq!(resolve_link(&base, "http://cdn.x/i.png").unwrap().as_str(), "http://cdn.x/i.png");
    assert_eq!(resolve_link(&base, "img/i.png").unwrap().as_str(), "https://example.com/img/i.png");
}

#[test]
fn themed_targets() {
    let t = themed_icon_targets("/b", "brave-x");
    assert_eq!(t.len(), 6);
    assert_eq!(t[0], (16, "/b/icons/hicolor/16x16/apps/brave-x.png".to_string()));
    assert_eq!(t[5].0, 256);
    assert!(themed_icon_targets("/b", "a/b").is_empty());
    assert!(themed_icon_targets("/b", "").is_empty());
}

fn header_size(png: &[u8]) -> (u32, u32) {
    assert_eq!(&png[..8], &[137, 80, 78, 71, 13, 10, 26, 10]);
    assert_eq!(&png[12..16], b"IHDR");
    (
        u32::from_be_bytes([png[16], png[17], png[18], png[19]]),
        u32::from_be_bytes([png[20], png[21], png[22], png[23]]),
    )
}

#[test]
fn icon_header_gives_the_size() {
    let out = icon_png(&red_png(8)).unwrap();
    assert_eq!(header_size(&out), (128, 128));
    assert_eq!(out[25], 6); // RGBA
    let small = icon_png_sized(&red_png(8), 16).unwrap();
    assert_eq!(header_size(&small), (16, 16));
    assert_eq!(icon_png_sized(&red_png(8), 0).unwrap_err(), FaviconError::Image);
}

#[test]
fn themed_copy_keeps_colour_type() {
    let img: ImageBuffer<Rgb<u8>, Vec<u8>> = ImageBuffer::from_fn(8, 8, |_, _| Rgb([0, 0, 255]));
    let mut png = Vec::new();
    img.write_to(&mut Cursor::new(&mut png), image::ImageFormat::Png).unwrap();
    let out = themed_icon_png(&png, "png", 48).unwrap();
    assert_eq!(header_size(&out), (48, 48));
    assert_eq!(out[25], 2); // RGB, as the source
    assert_eq!(header_size(&themed_icon_png(&png, "PNG", 16).unwrap()), (16, 16));
    assert_eq!(themed_icon_png(b"garbage", "png", 48).unwrap_err(), FaviconError::Image);
}

#[test]
fn themed_copy_reads_the_format_its_extension_names() {
    let png = red_png(8);
    // A PNG behind another image extension is read as that format, and fails.
    assert_eq!(themed_icon_png(&png, "jpg", 32).unwrap_err(), FaviconError::Image);
    // No extension, or one that names no image format.
    assert_eq!(themed_icon_png(&png, "", 32).unwrap_err(), FaviconError::Image);
    assert_eq!(themed_icon_png(&png, "txt", 32).unwrap_err(), FaviconError::Image);
}
