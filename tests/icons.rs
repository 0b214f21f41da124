use volume_controller::icons::{
    add_grayscale_filter_to_svg, choose_icon_path, data_uri, icon_uris_from_file, mime_type_for, DEFAULT_ICON_PATH,
};

#[test]
fn svg_gets_opacity_on_its_first_tag() {
    let svg = "<svg width=\"1\"><path d=\"M0\"/></svg>".to_string();
    assert_eq!(add_grayscale_filter_to_svg(svg), "<svg opacity=\"0.4\" width=\"1\"><path d=\"M0\"/></svg>");
}

#[test]
fn svg_with_opacity_or_without_tag_is_kept() {
    let svg = "<svg opacity=\"1\"><g/></svg>".to_string();
    assert_eq!(add_grayscale_filter_to_svg(svg.clone()), svg);
    assert_eq!(add_grayscale_filter_to_svg("no tag here".to_string()), "no tag here");
    let xml = "<?xml version=\"1.0\"?><svg></svg>".to_string();
    assert_eq!(add_grayscale_filter_to_svg(xml.clone()), xml);
}

#[test]
fn mime_types_by_extension() {
    assert_eq!(mime_type_for(&Some("svg".to_string())), "image/svg+xml");
    assert_eq!(mime_type_for(&Some("xpm".to_string())), "image/x-xpm");
    assert_eq!(mime_type_for(&Some("png".to_string())), "image/png");
    assert_eq!(mime_type_for(&Some("jpg".to_string())), "image/png");
    assert_eq!(mime_type_for(&None), "image/png");
    assert_eq!(data_uri("image/png", "QQ=="), "data:image/png;base64,QQ==");
}

#[test]
fn svg_icon_file_becomes_two_data_uris() {
    let data = b"<svg>".to_vec();
    let uris = icon_uris_from_file(data, &Some("svg".to_string()), false);
    assert_eq!(uris.icon_uri, "data:image/svg+xml;base64,PHN2Zz4=");
    assert_eq!(uris.icon_uri_mute, "data:image/svg+xml;base64,PHN2ZyBvcGFjaXR5PSIwLjQiPg==");
    assert!(!uris.uses_default_icon);
}

#[test]
fn unreadable_raster_keeps_its_image_when_muted() {
    let uris = icon_uris_from_file(vec![1, 2, 3], &Some("png".to_string()), true);
    assert_eq!(uris.icon_uri, "data:image/png;base64,AQID");
    assert_eq!(uris.icon_uri_mute, uris.icon_uri);
    assert!(uris.uses_default_icon);
}

#[test]
fn png_icon_gets_a_grey_variant() {
    let img = image::RgbaImage::from_pixel(2, 2, image::Rgba([200, 10, 10, 255]));
    let mut buffer = std::io::Cursor::new(Vec::new());
    img.write_to(&mut buffer, image::ImageFormat::Png).unwrap();
    let uris = icon_uris_from_file(buffer.into_inner(), &Some("png".to_string()), false);
    assert!(uris.icon_uri_mute.starts_with("data:image/png;base64,"));
    assert_ne!(uris.icon_uri_mute, uris.icon_uri);
}

#[test]
fn icon_path_fallback_chain() {
    let c = choose_icon_path(true, None, Some("/icons/app.png".to_string()));
    assert_eq!(c.path, "/icons/app.png");
    assert!(!c.uses_default_icon);
    let c = choose_icon_path(true, None, None);
    assert_eq!(c.path, DEFAULT_ICON_PATH);
    assert!(!c.uses_default_icon);
    let c = choose_icon_path(false, None, None);
    assert_eq!(c.path, DEFAULT_ICON_PATH);
    assert!(c.uses_default_icon);
    let c = choose_icon_path(true, Some("/icons/hint.svg".to_string()), Some("/icons/app.png".to_string()));
    assert_eq!(c.path, "/icons/hint.svg");
}
