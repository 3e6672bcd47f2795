use anki_forge::diagnostics::{Diagnostic, Severity};
use anki_forge::product::authoring::AuthoringMediaSource;
use anki_forge::product::media_registry::{
    MediaError, MediaFingerprint, ObservedMedia, ProductMedia, ProductMediaSource, ProductMediaSourceDiagnostic,
};
use anki_forge::product::project::media_prepare::{
    finish_inline_media, finish_path_backed_media, product_media_item_to_authoring_media,
    product_media_item_to_path_backed_authoring_media, product_media_to_authoring_media, InlineMediaStep,
    PathBackedMediaStep, ProductMediaPrepareError, SourceReadError, StagingOutcome,
};

fn file_media(name: &str, size: u64) -> ProductMedia {
    ProductMedia {
        id: format!("media:{name}"),
        export_filename: name.to_string(),
        source: ProductMediaSource::File { path: format!("/data/{name}") },
        declared_mime: Some("image/png".to_string()),
        sha1_hex: "00".to_string(),
        observed_fingerprint: MediaFingerprint { blake3_hex: "abc".to_string(), size_bytes: size },
    }
}

#[test]
fn inline_media_is_ready_as_it_is() {
    let media = ProductMedia {
        id: "media:a".to_string(),
        export_filename: "a.bin".to_string(),
        source: ProductMediaSource::InlineBytes { source_label: "inline".to_string(), data_base64: "AQI=".to_string() },
        declared_mime: None,
        sha1_hex: "00".to_string(),
        observed_fingerprint: MediaFingerprint { blake3_hex: "abc".to_string(), size_bytes: 2 },
    };
    match product_media_item_to_authoring_media(&media, None) {
        InlineMediaStep::Ready(a) => {
            assert_eq!(a.id, "media:a");
            assert_eq!(a.desired_filename, "a.bin");
            assert!(matches!(a.source, AuthoringMediaSource::InlineBytes { ref data_base64 } if data_base64 == "AQI="));
        },
        other => panic!("unexpected {other:?}"),
    }
}

#[test]
fn file_media_is_checked_then_read() {
    let media = file_media("cat.png", 3);
    match product_media_item_to_authoring_media(&media, None) {
        InlineMediaStep::ReadSource { path } => assert_eq!(path, "/data/cat.png"),
        other => panic!("unexpected {other:?}"),
    }
    let fresh = ObservedMedia { fingerprint: MediaFingerprint { blake3_hex: "abc".to_string(), size_bytes: 3 }, sha1_hex: "00".to_string() };
    assert!(matches!(product_media_item_to_authoring_media(&media, Some(Ok(fresh))), InlineMediaStep::ReadSource { .. }));

    let ready = finish_inline_media(&media, Ok(vec![1, 2, 3])).unwrap();
    assert!(matches!(ready.source, AuthoringMediaSource::InlineBytes { ref data_base64 } if data_base64 == "AQID"));
    assert_eq!(ready.declared_mime.as_deref(), Some("image/png"));

    let missing = finish_inline_media(&media, Err(SourceReadError { not_found: true, detail: "gone".to_string() })).unwrap_err();
    assert_eq!(missing.code(), "MEDIA.SOURCE_MISSING");
    assert_eq!(missing.diagnostics[0].message, "read media source file /data/cat.png: gone");
    assert_eq!(missing.diagnostics[0].source.as_deref(), Some("project.media[\"cat.png\"]"));
    let failed = finish_inline_media(&media, Err(SourceReadError { not_found: false, detail: "denied".to_string() })).unwrap_err();
    assert_eq!(failed.code(), "MEDIA.SOURCE_READ_FAILED");
}

#[test]
fn changed_or_oversized_sources_fail_before_reading() {
    let media = file_media("cat.png", 3);
    let changed = ObservedMedia { fingerprint: MediaFingerprint { blake3_hex: "def".to_string(), size_bytes: 3 }, sha1_hex: "00".to_string() };
    match product_media_item_to_authoring_media(&media, Some(Ok(changed))) {
        InlineMediaStep::Failed(e) => {
            assert_eq!(e.code(), "MEDIA.SOURCE_CHANGED");
            assert_eq!(e.diagnostics[0].message, "media source /data/cat.png changed after registration");
            assert!(e.diagnostics[0].help.is_some());
        },
        other => panic!("unexpected {other:?}"),
    }
    let gone = MediaError { code: "MEDIA.SOURCE_MISSING", message: "no such file".to_string() };
    match product_media_item_to_authoring_media(&media, Some(Err(gone))) {
        InlineMediaStep::Failed(e) => assert_eq!(e.summary(), "prepare product media: MEDIA.SOURCE_MISSING: no such file"),
        other => panic!("unexpected {other:?}"),
    }
    let big = file_media("big.bin", 70000);
    match product_media_item_to_authoring_media(&big, None) {
        InlineMediaStep::Failed(e) => {
            assert_eq!(e.code(), "MEDIA.INLINE_TOO_LARGE");
            assert_eq!(e.diagnostics[0].message, "project.media[\"big.bin\"] has 70000 bytes, above inline limit 65536");
        },
        other => panic!("unexpected {other:?}"),
    }
}

#[test]
fn gathering_reports_every_failed_item_or_returns_all_media() {
    let media = file_media("cat.png", 3);
    let ok = finish_inline_media(&media, Ok(vec![0])).unwrap();
    let ok2 = finish_inline_media(&media, Ok(vec![1])).unwrap();
    let all = product_media_to_authoring_media(vec![Ok(ok), Ok(ok2)]).unwrap();
    assert_eq!(all.len(), 2);

    let first = ProductMediaPrepareError::single("MEDIA.SOURCE_MISSING", "first".to_string(), "a.png");
    let second = ProductMediaPrepareError::from_prepare_error("second".to_string());
    let ok3 = finish_inline_media(&media, Ok(vec![2])).unwrap();
    let error = product_media_to_authoring_media(vec![Err(first), Ok(ok3), Err(second)]).unwrap_err();
    let messages: Vec<&str> = error.diagnostics.iter().map(|d| d.message.as_str()).collect();
    assert_eq!(messages, vec!["first", "second"]);
    assert_eq!(error.message, "prepare product media");
}

#[test]
fn a_prepare_error_is_known_by_its_first_error() {
    let warning = Diagnostic {
        code: "MEDIA.NOTE".to_string(),
        severity: Severity::Warning,
        domain: None,
        stage: None,
        message: "note".to_string(),
        source: None,
        help: None,
    };
    let mut error = ProductMediaPrepareError::staging_collision("/in/a.png", "/out/a.png", "a.png");
    assert_eq!(
        error.diagnostics[0].message,
        "Product media staging target already exists for export filename \"a.png\"; source /in/a.png would overwrite target /out/a.png"
    );
    error.diagnostics.insert(0, warning);
    assert_eq!(error.code(), "PROJECT.PRODUCT_MEDIA_STAGING_COLLISION");
    let empty = ProductMediaPrepareError { message: "prepare product media".to_string(), diagnostics: Vec::new() };
    assert_eq!(empty.code(), "PROJECT.PRODUCT_MEDIA_FAILED");
    assert_eq!(empty.summary(), "prepare product media");
    let source = ProductMediaSourceDiagnostic {
        code: "MEDIA.UNKNOWN_CODE",
        message: "odd".to_string(),
        source_path: "project.media[\"x\"]".to_string(),
    };
    let from_source = ProductMediaPrepareError::from_source_diagnostic(source);
    assert_eq!(from_source.diagnostics[0].help.as_deref(), Some("inspect product media registrations and source files"));
}

#[test]
fn file_media_is_staged_under_its_export_name() {
    let media = file_media("cat.png", 3);
    match product_media_item_to_path_backed_authoring_media(&media, None) {
        PathBackedMediaStep::Stage { source } => assert_eq!(source, "/data/cat.png"),
        other => panic!("unexpected {other:?}"),
    }
    let changed = ObservedMedia { fingerprint: MediaFingerprint { blake3_hex: "def".to_string(), size_bytes: 3 }, sha1_hex: "00".to_string() };
    assert!(matches!(
        product_media_item_to_path_backed_authoring_media(&media, Some(Ok(changed))),
        PathBackedMediaStep::Failed(_)
    ));

    let staged = finish_path_backed_media(&media, StagingOutcome::Staged).unwrap();
    assert!(matches!(staged.source, AuthoringMediaSource::Path { ref path } if path == "cat.png"));
    assert_eq!(staged.desired_filename, "cat.png");

    let refused = finish_path_backed_media(&media, StagingOutcome::Refused { message: "media input dir is a symlink".to_string() }).unwrap_err();
    assert_eq!(refused.code(), "PROJECT.PRODUCT_MEDIA_FAILED");
    assert_eq!(refused.diagnostics[0].source.as_deref(), Some("project.media"));

    let collision = finish_path_backed_media(&media, StagingOutcome::Collision { target: "/in/cat.png".to_string() }).unwrap_err();
    assert_eq!(collision.code(), "PROJECT.PRODUCT_MEDIA_STAGING_COLLISION");
    assert_eq!(
        collision.diagnostics[0].message,
        "Product media staging target already exists for export filename \"cat.png\"; source /data/cat.png would overwrite target /in/cat.png"
    );

    let missing = finish_path_backed_media(
        &media,
        StagingOutcome::CopyFailed { not_found: true, target: "/in/cat.png".to_string(), detail: "gone".to_string() },
    )
    .unwrap_err();
    assert_eq!(missing.code(), "MEDIA.SOURCE_MISSING");
    assert_eq!(missing.diagnostics[0].message, "copy media source /data/cat.png to /in/cat.png: gone");
    let failed = finish_path_backed_media(
        &media,
        StagingOutcome::CopyFailed { not_found: false, target: "/in/cat.png".to_string(), detail: "full".to_string() },
    )
    .unwrap_err();
    assert_eq!(failed.code(), "PROJECT.PRODUCT_MEDIA_FAILED");
}
