use multitool_core::raster_format::RasterFormat;
use multitool_core::shell::supported_raster_formats;

#[test]
fn all_variants_listed() {
    let all = RasterFormat::all();
    assert_eq!(all.len(), 5);
    assert!(all.contains(&RasterFormat::Png));
    assert!(all.contains(&RasterFormat::Jpeg));
    assert!(all.contains(&RasterFormat::Webp));
    assert!(all.contains(&RasterFormat::Bmp));
    assert!(all.contains(&RasterFormat::Tiff));
}

#[test]
fn default_extension_is_first_listed() {
    for fmt in RasterFormat::all() {
        assert_eq!(fmt.default_extension(), fmt.extensions()[0]);
    }
}

#[test]
fn supports_alpha_split() {
    assert!(RasterFormat::Png.supports_alpha());
    assert!(RasterFormat::Webp.supports_alpha());
    assert!(RasterFormat::Tiff.supports_alpha());
    assert!(!RasterFormat::Jpeg.supports_alpha());
    assert!(!RasterFormat::Bmp.supports_alpha());
}

#[test]
fn from_extension_is_case_insensitive() {
    assert_eq!(RasterFormat::from_extension("png"), Some(RasterFormat::Png));
    assert_eq!(RasterFormat::from_extension("PNG"), Some(RasterFormat::Png));
    assert_eq!(RasterFormat::from_extension("jpeg"), Some(RasterFormat::Jpeg));
    assert_eq!(RasterFormat::from_extension("jpg"), Some(RasterFormat::Jpeg));
    assert_eq!(RasterFormat::from_extension("JPG"), Some(RasterFormat::Jpeg));
    assert_eq!(RasterFormat::from_extension("tiff"), Some(RasterFormat::Tiff));
    assert_eq!(RasterFormat::from_extension("tif"), Some(RasterFormat::Tiff));
}

#[test]
fn from_extension_rejects_decode_only_and_unknown() {
    assert_eq!(RasterFormat::from_extension("gif"), None);
    assert_eq!(RasterFormat::from_extension("ico"), None);
    assert_eq!(RasterFormat::from_extension("svg"), None);
    assert_eq!(RasterFormat::from_extension(""), None);
    assert_eq!(RasterFormat::from_extension("xyz"), None);
}

#[test]
fn image_format_round_trip_via_from_extension() {
    for fmt in RasterFormat::all() {
        assert_eq!(RasterFormat::from_extension(fmt.default_extension()), Some(*fmt));
    }
}

#[test]
fn descriptor_list_is_built_for_every_format_with_unique_ids() {
    let descriptors: Vec<_> = RasterFormat::all().iter().map(|f| f.descriptor()).collect();
    assert_eq!(descriptors.len(), RasterFormat::all().len());
    let unique_ids: std::collections::HashSet<_> = descriptors.iter().map(|d| d.id).collect();
    assert_eq!(unique_ids.len(), descriptors.len());
}

#[test]
fn jpeg_descriptor_has_the_wire_values() {
    let d = RasterFormat::Jpeg.descriptor();
    assert_eq!(d.id, "jpeg");
    assert_eq!(d.name, "JPEG");
    assert_eq!(d.extensions, &["jpg", "jpeg"]);
    assert!(!d.supports_alpha);
}

#[test]
fn image_format_maps_each_variant() {
    assert_eq!(RasterFormat::Png.image_format(), image::ImageFormat::Png);
    assert_eq!(RasterFormat::Jpeg.image_format(), image::ImageFormat::Jpeg);
    assert_eq!(RasterFormat::Webp.image_format(), image::ImageFormat::WebP);
    assert_eq!(RasterFormat::Bmp.image_format(), image::ImageFormat::Bmp);
    assert_eq!(RasterFormat::Tiff.image_format(), image::ImageFormat::Tiff);
}

#[test]
fn shell_lists_descriptors_in_display_order() {
    let ids: Vec<&str> = supported_raster_formats().iter().map(|d| d.id).collect();
    assert_eq!(ids, vec!["png", "jpeg", "webp", "bmp", "tiff"]);
}

#[test]
fn image_format_is_what_the_first_extension_names() {
    for f in RasterFormat::all() {
        let first = f.extensions()[0];
        assert_eq!(image::ImageFormat::from_extension(first), Some(f.image_format()));
    }
}

#[test]
fn every_extension_in_any_case_finds_its_format() {
    for f in RasterFormat::all() {
        for x in f.extensions() {
            assert_eq!(RasterFormat::from_extension(x), Some(*f));
            assert_eq!(RasterFormat::from_extension(&x.to_ascii_uppercase()), Some(*f));
        }
    }
}
