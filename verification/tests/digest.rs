use klipo::clipboard::{ClipboardImage, ClipboardSnapshot};
use klipo::digest::{hash_image, hash_text};
use klipo::preview::{generate_preview, thumbnail_dimensions, THUMBNAIL_MAX_SIZE};
use klipo::self_write::{same_signature, signature_for_content, signature_for_snapshot};

#[test]
fn text_hashes_are_md5_of_the_prefixed_text() {
    assert_eq!(hash_text("hello"), "text:98381d9d9f80490f7c3dd0b69cb8a14e");
    assert_ne!(hash_text("hello"), hash_text("hellp"));
}

#[test]
fn image_hashes_are_md5_of_dimensions_and_pixels() {
    assert_eq!(
        hash_image(1, 1, &[1, 2, 3, 4]),
        "image:143d874205e2f585ce4cf7cf0ae2e996"
    );
    assert_ne!(hash_image(1, 1, &[1, 2, 3, 4]), hash_image(1, 1, &[1, 2, 3, 5]));
}

#[test]
fn text_signatures_are_md5_of_the_framed_text() {
    let signature = signature_for_content(None, Some("hello"));

    assert_eq!(
        signature.0,
        [28, 34, 251, 1, 196, 243, 162, 243, 9, 78, 121, 223, 81, 104, 42, 180]
    );
}

#[test]
fn snapshot_signatures_match_the_written_content() {
    let image = ClipboardImage::from_rgba(vec![1, 2, 3, 4], 1, 1).unwrap();
    let written = signature_for_content(Some(&image), Some("fallback"));
    let snapshot = ClipboardSnapshot {
        image: Some(image.clone()),
        text: Some("fallback".into()),
    };

    let seen = signature_for_snapshot(&snapshot).unwrap();

    assert!(same_signature(&written, &seen));
    assert!(!same_signature(
        &written,
        &signature_for_content(Some(&image), None)
    ));
    assert!(signature_for_snapshot(&ClipboardSnapshot::default()).is_none());
}

#[test]
fn thumbnails_keep_small_images_and_scale_the_longer_side() {
    assert_eq!(thumbnail_dimensions(4, 2), Some((4, 2)));
    assert_eq!(thumbnail_dimensions(200, 100), Some((THUMBNAIL_MAX_SIZE, 10)));
    assert_eq!(thumbnail_dimensions(100, 400), Some((5, THUMBNAIL_MAX_SIZE)));
    assert_eq!(thumbnail_dimensions(1000, 1), Some((THUMBNAIL_MAX_SIZE, 1)));
    assert_eq!(thumbnail_dimensions(50, 50), Some((THUMBNAIL_MAX_SIZE, THUMBNAIL_MAX_SIZE)));
}

#[test]
fn previews_are_base64_png_data_urls() {
    let image = ClipboardImage::from_rgba(vec![0xab; 4 * 2 * 4], 4, 2).unwrap();

    let preview = generate_preview(&image).expect("a small image has a preview");

    assert!(preview.starts_with("data:image/png;base64,iVBORw0KGgo"));
    assert!(preview.len() > "data:image/png;base64,".len() + 20);
}

#[test]
fn a_short_pixel_buffer_has_no_preview() {
    let image = ClipboardImage {
        rgba: vec![0; 3],
        width: 1,
        height: 1,
    };

    assert!(generate_preview(&image).is_none());
}
