use anki_forge::product::media_registry::{
    media_source_path, observe_bytes, validate_media_filename, MediaFingerprint, MediaRegistry, ObservedMedia, ProductMediaSource,
    INLINE_MEDIA_LIMIT_BYTES,
};
use base64::Engine;
use sha1::Digest;

fn error_code<T>(result: Result<T, anki_forge::product::media_registry::MediaError>) -> &'static str {
    match result {
        Ok(_) => panic!("expected an error"),
        Err(e) => e.code,
    }
}

#[test]
fn export_names_must_be_bare_and_safe() {
    assert!(validate_media_filename("photo-1_a.PNG").is_ok());
    assert_eq!(error_code(validate_media_filename("  ")), "MEDIA.EXPORT_NAME_EMPTY");
    assert_eq!(error_code(validate_media_filename("a/b.png")), "MEDIA.EXPORT_NAME_CONTAINS_SEPARATOR");
    assert_eq!(error_code(validate_media_filename("a\\b.png")), "MEDIA.EXPORT_NAME_CONTAINS_SEPARATOR");
    assert_eq!(error_code(validate_media_filename("..")), "MEDIA.EXPORT_NAME_NOT_BARE_FILENAME");
    assert_eq!(error_code(validate_media_filename("a b.png")), "MEDIA.EXPORT_NAME_UNSAFE_CHARACTER");
}

#[test]
fn inline_bytes_are_fingerprinted_and_registered() {
    let mut registry = MediaRegistry::new();
    let bytes = b"hello media".to_vec();
    let pending = registry.add_bytes("label", bytes.clone()).unwrap();
    let media_ref = pending.export_as(&mut registry, "hello.MP3").unwrap();
    assert_eq!(media_ref.filename(), "hello.MP3");

    let media = registry.media().get("hello.MP3").expect("registered");
    assert_eq!(media.id, "media:hello.MP3");
    assert_eq!(media.export_filename, "hello.MP3");
    assert_eq!(media.declared_mime.as_deref(), Some("audio/mpeg"));
    assert_eq!(media.sha1_hex, hex::encode(sha1::Sha1::digest(&bytes)));
    assert_eq!(media.observed_fingerprint.blake3_hex, hex::encode(blake3::hash(&bytes).as_bytes()));
    assert_eq!(media.observed_fingerprint.size_bytes, bytes.len() as u64);
    match &media.source {
        ProductMediaSource::InlineBytes { source_label, data_base64 } => {
            assert_eq!(source_label, "label");
            assert_eq!(data_base64, &base64::engine::general_purpose::STANDARD.encode(&bytes));
        }
        ProductMediaSource::File { .. } => panic!("inline media expected"),
    }
}

#[test]
fn inline_bytes_are_refused_for_bad_labels_and_sizes() {
    let registry = MediaRegistry::new();
    assert_eq!(error_code(registry.add_bytes(" ", vec![1])), "MEDIA.INVALID_SOURCE_LABEL");
    assert_eq!(error_code(registry.add_bytes("a\nb", vec![1])), "MEDIA.INVALID_SOURCE_LABEL");
    assert_eq!(error_code(registry.add_bytes("label", Vec::new())), "MEDIA.EMPTY_SOURCE");
    assert_eq!(
        error_code(registry.add_bytes("label", vec![0; INLINE_MEDIA_LIMIT_BYTES + 1])),
        "MEDIA.INLINE_TOO_LARGE"
    );
    assert!(registry.add_bytes("label", vec![0; INLINE_MEDIA_LIMIT_BYTES]).is_ok());
}

fn observed(hex: &str, size: u64) -> ObservedMedia {
    ObservedMedia {
        fingerprint: MediaFingerprint { blake3_hex: hex.to_string(), size_bytes: size },
        sha1_hex: "00".to_string(),
    }
}

#[test]
fn same_name_with_same_content_reuses_and_other_content_conflicts() {
    let mut registry = MediaRegistry::new();
    let first = registry.add_file("a.png", Ok(vec![1, 2, 3])).unwrap();
    first.export_as(&mut registry, "a.png").unwrap();
    let again = registry.add_file("copy/a.png", Ok(vec![1, 2, 3])).unwrap();
    assert_eq!(again.export_as(&mut registry, "a.png").unwrap().filename(), "a.png");
    assert_eq!(registry.media().len(), 1);

    let other = registry.add_file("b.png", Ok(vec![1, 2, 4])).unwrap();
    assert_eq!(error_code(other.export_as(&mut registry, "a.png")), "MEDIA.DUPLICATE_FILENAME_CONFLICT");
    assert_eq!(registry.media().len(), 1);

    let bad = registry.add_file("c.png", Ok(vec![9])).unwrap();
    assert_eq!(error_code(bad.export_as(&mut registry, "c/d.png")), "MEDIA.EXPORT_NAME_CONTAINS_SEPARATOR");
    assert_eq!(registry.media().len(), 1);
}

#[test]
fn empty_files_are_refused() {
    let registry = MediaRegistry::new();
    assert_eq!(error_code(registry.add_file("a.png", Ok(Vec::new()))), "MEDIA.EMPTY_SOURCE");
    let unreadable = registry.add_file(
        "gone.png",
        Err(anki_forge::product::media_registry::MediaError { code: "MEDIA.SOURCE_MISSING", message: "gone".to_string() }),
    );
    assert_eq!(error_code(unreadable), "MEDIA.SOURCE_MISSING");
}

#[test]
fn registered_files_are_checked_against_later_observations() {
    let mut registry = MediaRegistry::new();
    let pending = registry.add_file("a.png", Ok(vec![1, 2, 3])).unwrap();
    pending.export_as(&mut registry, "a.png").unwrap();
    let media = registry.media().get("a.png").unwrap();
    assert!(media.verify_registered_source(None).is_ok());
    assert!(media.verify_registered_source(Some(Ok(observe_bytes(&[1, 2, 3])))).is_ok());
    let changed = media.verify_registered_source(Some(Ok(observed("ab", 3)))).unwrap_err();
    assert_eq!(changed.code, "MEDIA.SOURCE_CHANGED");
    assert_eq!(changed.source_path, "project.media[\"a.png\"]");
    let missing = media
        .verify_registered_source(Some(Err(anki_forge::product::media_registry::MediaError {
            code: "MEDIA.SOURCE_MISSING",
            message: "gone".to_string(),
        })))
        .unwrap_err();
    assert_eq!(missing.code, "MEDIA.SOURCE_MISSING");
    assert_eq!(missing.message, "gone");
    let other = media
        .verify_registered_source(Some(Err(anki_forge::product::media_registry::MediaError {
            code: "IO.OTHER",
            message: "boom".to_string(),
        })))
        .unwrap_err();
    assert_eq!(other.code, "MEDIA.SOURCE_READ_FAILED");
}

#[test]
fn media_source_paths_quote_the_name() {
    assert_eq!(media_source_path("a \"b\".png"), "project.media[\"a \\\"b\\\".png\"]");
}

#[test]
fn media_references_render_as_sound_and_image_html() {
    let mut registry = MediaRegistry::new();
    let pending = registry.add_bytes("label", vec![1, 2, 3]).unwrap();
    let media_ref = pending.export_as(&mut registry, "x.wav").unwrap();
    assert_eq!(media_ref.sound().render(), "[sound:x.wav]");
    assert_eq!(media_ref.image().render(), "<img src=\"x.wav\">");
    assert_eq!(registry.media().get("x.wav").unwrap().declared_mime.as_deref(), Some("audio/wav"));
}

#[test]
fn observed_bytes_are_known_by_their_digests() {
    let o = observe_bytes(b"abc");
    assert_eq!(o.sha1_hex, "a9993e364706816aba3e25717850c26c9cd0d89d");
    assert_eq!(o.fingerprint.blake3_hex, "6437b3ac38465133ffb63b75273a8db548c558465d79db03fd359c6cd5bd9d85");
    assert_eq!(o.fingerprint.size_bytes, 3);
    let registry = MediaRegistry::new();
    let pending = registry.add_file("abc.txt", Ok(b"abc".to_vec())).unwrap();
    let mut registry = registry;
    pending.export_as(&mut registry, "abc.txt").unwrap();
    let media = registry.media().get("abc.txt").unwrap();
    assert_eq!(media.sha1_hex, "a9993e364706816aba3e25717850c26c9cd0d89d");
    assert!(matches!(media.source, ProductMediaSource::File { ref path } if path == "abc.txt"));
}

fn error_message<T>(result: Result<T, anki_forge::product::media_registry::MediaError>) -> String {
    match result {
        Ok(_) => panic!("expected an error"),
        Err(e) => e.message,
    }
}

#[test]
fn refused_media_say_why() {
    let registry = MediaRegistry::new();
    assert_eq!(error_message(registry.add_file("a.png", Ok(Vec::new()))), "MEDIA.EMPTY_SOURCE: a.png");
    assert_eq!(error_message(registry.add_bytes("label", Vec::new())), "MEDIA.EMPTY_SOURCE: label");
    assert_eq!(
        error_message(registry.add_bytes("big", vec![0; INLINE_MEDIA_LIMIT_BYTES + 1])),
        format!("MEDIA.INLINE_TOO_LARGE: big has {} bytes, above inline limit {}", INLINE_MEDIA_LIMIT_BYTES + 1, INLINE_MEDIA_LIMIT_BYTES)
    );
    assert_eq!(
        error_message(registry.add_bytes("  ", vec![1])),
        "MEDIA.INVALID_SOURCE_LABEL: source label must not be empty"
    );
    assert_eq!(
        error_message(registry.add_bytes("a\u{7}b", vec![1])),
        "MEDIA.INVALID_SOURCE_LABEL: source label contains a control character"
    );
}
