use webgal_craft::fingerprints::hash_path;
use webgal_craft::thumbnail::{
    cache_file_name, thumbnail_cache_name, thumbnail_dimensions, ThumbnailSize,
};

#[test]
fn default_size_is_a_256_square() {
    assert_eq!(ThumbnailSize::default(), ThumbnailSize::Single(256));
}

#[test]
fn dimensions_of_a_single_edge_are_square() {
    assert_eq!(thumbnail_dimensions(&ThumbnailSize::Single(64)), (64, 64));
}

#[test]
fn dimensions_of_a_custom_size_are_kept() {
    assert_eq!(
        thumbnail_dimensions(&ThumbnailSize::Custom { width: 320, height: 180 }),
        (320, 180)
    );
}

#[test]
fn cache_file_name_is_digest_and_dimensions() {
    assert_eq!(cache_file_name("abc", 256, 128), "abc_256x128.thumb");
    assert_eq!(cache_file_name("abc", 0, 0), "abc_0x0.thumb");
}

#[test]
fn content_addressed_cache_name() {
    let name = thumbnail_cache_name(Some(&Vec::new()), "/img/a.png", 16, 16);
    assert_eq!(
        name,
        "af1349b9f5f9a1a6a0404dea36dcc9499bcb25c9adc112b7cc9a93cae41f3262_16x16.thumb"
    );
}

#[test]
fn unreadable_content_falls_back_to_the_path_digest() {
    let name = thumbnail_cache_name(None, "/img/a.png", 16, 16);
    let expected = format!("{}_16x16.thumb", hash_path("/img/a.png"));
    assert_eq!(name, expected);
}
