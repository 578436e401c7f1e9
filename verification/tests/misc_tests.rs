//! Tests for the cache, the renderer descriptions and the optimizer's
//! format classification.

use mdm_core::cache::Cache;
use mdm_core::hwpdoc::{ImageData, MdmDocument, Metadata};
use mdm_core::optimizer::ImageType;
use mdm_core::renderer::{OutputFormat, Renderer, ResponsivePresets};

#[test]
fn test_cache_operations() {
    let mut cache = Cache::new(10);
    cache.set("key1".to_string(), vec![1, 2, 3]);
    assert!(cache.get("key1").is_some());
    assert_eq!(cache.len(), 1);
}

#[test]
fn cache_evicts_oldest_when_full() {
    let mut cache = Cache::new(1);
    cache.set("a".to_string(), vec![1]);
    cache.set("b".to_string(), vec![2]);
    assert_eq!(cache.len(), 1);
    assert!(cache.get("a").is_none());
    assert_eq!(cache.get("b"), Some(&vec![2u8]));
    cache.clear();
    assert!(cache.is_empty());
}

#[test]
fn test_render_svg() {
    let renderer = Renderer::new();
    let svg = renderer.render_svg("Test Image", "image/png");
    assert!(svg.contains("Test Image"));
    assert!(svg.contains("<svg"));
}

#[test]
fn test_output_format() {
    assert_eq!(OutputFormat::Png.extension(), "png");
    assert_eq!(OutputFormat::WebP.mime_type(), "image/webp");
    assert_eq!(OutputFormat::from_extension("jpg"), Some(OutputFormat::Jpeg));
}

#[test]
fn image_type_extension_round_trip() {
    for t in [ImageType::Jpeg, ImageType::Png, ImageType::WebP, ImageType::Gif] {
        assert_eq!(ImageType::from_extension(t.extension()), t);
    }
}

#[test]
fn output_format_extension_round_trip() {
    for f in [OutputFormat::Png, OutputFormat::Jpeg, OutputFormat::WebP, OutputFormat::Svg] {
        assert_eq!(OutputFormat::from_extension(f.extension()), Some(f));
    }
}

#[test]
fn output_format_extension_is_case_insensitive() {
    // goes through the real lowercase mapping
    assert_eq!(OutputFormat::from_extension("WEBP"), Some(OutputFormat::WebP));
    assert_eq!(OutputFormat::from_extension("tiff"), None);
}

#[test]
fn test_responsive_presets() {
    let web = ResponsivePresets::web();
    assert_eq!(web.len(), 4);
    assert_eq!(web[0].width, 320);

    let retina = ResponsivePresets::retina();
    assert_eq!(retina.len(), 3);
    assert_eq!(retina[1].descriptor, "2x");
}

#[test]
fn test_image_type_detection() {
    assert_eq!(ImageType::from_bytes(&[0xFF, 0xD8, 0xFF, 0xE0]), ImageType::Jpeg);
    assert_eq!(ImageType::from_bytes(&[0x89, 0x50, 0x4E, 0x47]), ImageType::Png);
    assert_eq!(ImageType::from_bytes(b"GIF8"), ImageType::Gif);
    assert_eq!(ImageType::from_bytes(&[0x00, 0x00]), ImageType::Unknown);
}

#[test]
fn test_image_type_from_extension() {
    assert_eq!(ImageType::from_extension("jpg"), ImageType::Jpeg);
    assert_eq!(ImageType::from_extension("JPEG"), ImageType::Jpeg);
    assert_eq!(ImageType::from_extension("png"), ImageType::Png);
    assert_eq!(ImageType::from_extension("webp"), ImageType::WebP);
    assert_eq!(ImageType::from_extension("gif"), ImageType::Gif);
    assert_eq!(ImageType::from_extension("xyz"), ImageType::Unknown);
}

#[test]
fn test_image_type_properties() {
    assert_eq!(ImageType::Jpeg.extension(), "jpg");
    assert_eq!(ImageType::Jpeg.mime_type(), "image/jpeg");
    assert_eq!(ImageType::Png.extension(), "png");
    assert_eq!(ImageType::WebP.mime_type(), "image/webp");
}

#[test]
fn mdm_document_mdx_front_matter() {
    let doc = MdmDocument {
        content: "Hello".to_string(),
        images: vec![ImageData {
            name: "a.png".to_string(),
            original_name: "a".to_string(),
            format: "png".to_string(),
            data: vec![],
        }],
        tables: vec![],
        metadata: Metadata {
            version: "HWP 5.0.3.2".to_string(),
            compressed: true,
            encrypted: false,
            section_count: 2,
            bin_data_count: 1,
        },
    };
    let mdx = doc.to_mdx();
    assert!(mdx.starts_with("---\n"));
    assert!(mdx.contains("version: \"HWP 5.0.3.2\"\n"));
    assert!(mdx.contains("sections: 2\n"));
    assert!(mdx.contains("images: 1\n"));
    assert!(mdx.contains("tables: 0\n"));
    assert!(mdx.ends_with("---\n\nHello"));
}
