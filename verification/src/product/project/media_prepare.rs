//! Preparing registered media for an authoring document: inline media as it
//! is, file media checked against its registration, kept under the inline
//! limit, and embedded as Base64 once its bytes are read.

use vstd::prelude::*;

use crate::diagnostics::{diagnostic_views, Diagnostic, DiagnosticModel, Severity};
use crate::product::authoring::{AuthoringMedia, AuthoringMediaSource, MediaModel, MediaSourceModel, media_models};
use crate::product::digest::{base64_encode, base64_standard};
use crate::product::media_registry::{
    media_source_path_of, registration_code, MediaError, ObservedMedia, ProductMedia, ProductMediaSource,
    ProductMediaSourceDiagnostic, INLINE_MEDIA_LIMIT_BYTES,
};
use crate::product::metadata::copy_text;
use crate::product::model::opt_seq;
use crate::product::project::{help_text, product_diagnostic_help};
use crate::text::{concat3, debug_quote, debug_quoted, decimal, decimal_string, decimal_string_u64, owned};

verus! {

/// Why media could not be prepared: a summary and the diagnostics.
#[derive(Debug)]
pub struct ProductMediaPrepareError {
    pub message: String,
    pub diagnostics: Vec<Diagnostic>,
}

pub open spec fn media_error_at(code: Seq<char>, message: Seq<char>, source: Seq<char>, help: Seq<char>) -> DiagnosticModel {
    DiagnosticModel {
        code,
        severity: Severity::Error,
        domain: None,
        stage: None,
        message,
        source: Some(source),
        help: Some(help),
    }
}

/// The diagnostic an error is known by: its first error, else its first
/// diagnostic.
pub open spec fn leading_diagnostic(ds: Seq<DiagnosticModel>) -> Option<DiagnosticModel> {
    if exists|i: int| 0 <= i < ds.len() && ds[i].severity == Severity::Error {
        let i = choose|i: int|
            0 <= i < ds.len() && ds[i].severity == Severity::Error && forall|j: int|
                0 <= j < i ==> ds[j].severity != Severity::Error;
        Some(ds[i])
    } else if ds.len() > 0 {
        Some(ds[0])
    } else {
        None
    }
}

/// The help of a source problem: its product help, else a general hint.
pub open spec fn source_help(code: Seq<char>, source: Seq<char>) -> Seq<char> {
    match help_text(code, Some(source)) {
        Some(h) => h,
        None => "inspect product media registrations and source files"@,
    }
}

pub open spec fn prepare_message() -> Seq<char> {
    "prepare product media"@
}

fn first_error_index(diagnostics: &Vec<Diagnostic>) -> (r: Option<usize>)
    ensures
        match r {
            Some(i) => i < diagnostics@.len() && diagnostics@[i as int].severity == Severity::Error && forall|j: int|
                0 <= j < i ==> diagnostics@[j].severity != Severity::Error,
            None => forall|j: int| 0 <= j < diagnostics@.len() ==> diagnostics@[j].severity != Severity::Error,
        },
{
    let mut i: usize = 0;
    while i < diagnostics.len()
        invariant
            i <= diagnostics@.len(),
            forall|j: int| 0 <= j < i ==> diagnostics@[j].severity != Severity::Error,
        decreases diagnostics.len() - i,
    {
        if diagnostics[i].severity == Severity::Error {
            return Some(i);
        }
        i += 1;
    }
    None
}

impl ProductMediaPrepareError {
    fn leading(&self) -> (r: Option<&Diagnostic>)
        ensures
            match r {
                Some(d) => leading_diagnostic(diagnostic_views(self.diagnostics@)) == Some(d@),
                None => leading_diagnostic(diagnostic_views(self.diagnostics@)) is None,
            },
    {
        let ghost ds = diagnostic_views(self.diagnostics@);
        match first_error_index(&self.diagnostics) {
            Some(i) => {
                proof {
                    assert(ds[i as int].severity == Severity::Error);
                    let c = choose|c: int|
                        0 <= c < ds.len() && ds[c].severity == Severity::Error && forall|j: int|
                            0 <= j < c ==> ds[j].severity != Severity::Error;
                    if c < i {
                        assert(ds[c].severity != Severity::Error);
                    } else if c > i {
                        assert(ds[i as int].severity != Severity::Error);
                    }
                }
                Some(&self.diagnostics[i])
            },
            None => {
                proof {
                    assert forall|i: int| 0 <= i < ds.len() implies ds[i].severity != Severity::Error by {
                        assert(ds[i] == self.diagnostics@[i]@);
                    }
                }
                if self.diagnostics.len() > 0 {
                    Some(&self.diagnostics[0])
                } else {
                    None
                }
            },
        }
    }

    /// The code the error is known by: that of its leading diagnostic, else
    /// `PROJECT.PRODUCT_MEDIA_FAILED`.
    pub fn code(&self) -> (r: &str)
        ensures
            r@ == match leading_diagnostic(diagnostic_views(self.diagnostics@)) {
                Some(d) => d.code,
                None => "PROJECT.PRODUCT_MEDIA_FAILED"@,
            },
    {
        match self.leading() {
            Some(d) => d.code.as_str(),
            None => "PROJECT.PRODUCT_MEDIA_FAILED",
        }
    }

    /// The one-line description of the error: its summary, then the code
    /// and message of its leading diagnostic.
    pub fn summary(&self) -> (r: String)
        ensures
            r@ == match leading_diagnostic(diagnostic_views(self.diagnostics@)) {
                Some(d) => self.message@ + ": "@ + d.code + ": "@ + d.message,
                None => self.message@,
            },
    {
        match self.leading() {
            Some(d) => {
                let mut r = concat3(self.message.as_str(), ": ", d.code.as_str());
                r.append(": ");
                r.append(d.message.as_str());
                r
            },
            None => owned(self.message.as_str()),
        }
    }

    /// The error for a registered source that no longer matches.
    pub fn from_source_diagnostic(diagnostic: ProductMediaSourceDiagnostic) -> (e: Self)
        ensures
            e.message@ == prepare_message(),
            diagnostic_views(e.diagnostics@) == seq![
                media_error_at(
                    diagnostic.code@,
                    diagnostic.message@,
                    diagnostic.source_path@,
                    source_help(diagnostic.code@, diagnostic.source_path@),
                ),
            ],
    {
        let help = match product_diagnostic_help(diagnostic.code, Some(diagnostic.source_path.as_str())) {
            Some(h) => h,
            None => owned("inspect product media registrations and source files"),
        };
        let mut diagnostics: Vec<Diagnostic> = Vec::new();
        diagnostics.push(
            Diagnostic {
                code: owned(diagnostic.code),
                severity: Severity::Error,
                domain: None,
                stage: None,
                message: diagnostic.message,
                source: Some(diagnostic.source_path),
                help: Some(help),
            },
        );
        let e = ProductMediaPrepareError { message: owned("prepare product media"), diagnostics };
        assert(diagnostic_views(e.diagnostics@) =~= seq![
            media_error_at(
                diagnostic.code@,
                diagnostic.message@,
                diagnostic.source_path@,
                source_help(diagnostic.code@, diagnostic.source_path@),
            ),
        ]);
        e
    }

    /// The error for a failure to stage media, with its message.
    pub fn from_prepare_error(message: String) -> (e: Self)
        ensures
            e.message@ == prepare_message(),
            diagnostic_views(e.diagnostics@) == seq![
                media_error_at(
                    "PROJECT.PRODUCT_MEDIA_FAILED"@,
                    message@,
                    "project.media"@,
                    "inspect product media registrations and media paths"@,
                ),
            ],
    {
        let ghost mv = message@;
        let mut diagnostics: Vec<Diagnostic> = Vec::new();
        diagnostics.push(
            Diagnostic {
                code: owned("PROJECT.PRODUCT_MEDIA_FAILED"),
                severity: Severity::Error,
                domain: None,
                stage: None,
                message,
                source: Some(owned("project.media")),
                help: Some(owned("inspect product media registrations and media paths")),
            },
        );
        let e = ProductMediaPrepareError { message: owned("prepare product media"), diagnostics };
        assert(diagnostic_views(e.diagnostics@) =~= seq![
            media_error_at(
                "PROJECT.PRODUCT_MEDIA_FAILED"@,
                mv,
                "project.media"@,
                "inspect product media registrations and media paths"@,
            ),
        ]);
        e
    }

    /// An error about one registered media item, at its source.
    pub fn single(code: &str, message: String, export_filename: &str) -> (e: Self)
        ensures
            e.message@ == prepare_message(),
            diagnostic_views(e.diagnostics@) == seq![
                media_error_at(
                    code@,
                    message@,
                    media_source_path_of(export_filename@),
                    "inspect product media registrations and source files"@,
                ),
            ],
    {
        let ghost mv = message@;
        let q = debug_quote(export_filename);
        let mut diagnostics: Vec<Diagnostic> = Vec::new();
        diagnostics.push(
            Diagnostic {
                code: owned(code),
                severity: Severity::Error,
                domain: None,
                stage: None,
                message,
                source: Some(concat3("project.media[", q.as_str(), "]")),
                help: Some(owned("inspect product media registrations and source files")),
            },
        );
        let e = ProductMediaPrepareError { message: owned("prepare product media"), diagnostics };
        assert(diagnostic_views(e.diagnostics@) =~= seq![
            media_error_at(
                code@,
                mv,
                media_source_path_of(export_filename@),
                "inspect product media registrations and source files"@,
            ),
        ]);
        e
    }

    /// The error for staging that would overwrite a different file.
    pub fn staging_collision(source: &str, target: &str, export_filename: &str) -> (e: Self)
        ensures
            e.message@ == prepare_message(),
            diagnostic_views(e.diagnostics@) == seq![
                media_error_at(
                    "PROJECT.PRODUCT_MEDIA_STAGING_COLLISION"@,
                    "Product media staging target already exists for export filename "@ + debug_quoted(export_filename@)
                        + "; source "@ + source@ + " would overwrite target "@ + target@,
                    media_source_path_of(export_filename@),
                    "inspect product media registrations and source files"@,
                ),
            ],
    {
        let q = debug_quote(export_filename);
        let mut message = concat3("Product media staging target already exists for export filename ", q.as_str(), "; source ");
        message.append(source);
        message.append(" would overwrite target ");
        message.append(target);
        Self::single("PROJECT.PRODUCT_MEDIA_STAGING_COLLISION", message, export_filename)
    }
}

// ---------------------------------------------------------------------------
// Embedding registered media inline
// ---------------------------------------------------------------------------

/// What preparing a registered media item for inline embedding needs next:
/// nothing more, the bytes of its source file, or nothing, having failed.
#[derive(Debug)]
pub enum InlineMediaStep {
    Ready(AuthoringMedia),
    ReadSource { path: String },
    Failed(ProductMediaPrepareError),
}

/// How reading a media source file failed.
#[derive(Debug)]
pub struct SourceReadError {
    pub not_found: bool,
    pub detail: String,
}

/// The authoring form of registered media with the given source.
pub open spec fn authoring_media_of(m: ProductMedia, source: MediaSourceModel) -> MediaModel {
    MediaModel { id: m.id@, desired_filename: m.export_filename@, source, declared_mime: opt_seq(m.declared_mime) }
}

/// What checking a file source against its registration reports, as code,
/// message and source path; nothing when it was not observed or matches.
pub open spec fn verification_failure(m: ProductMedia, observed: Option<Result<ObservedMedia, MediaError>>) -> Option<
    (Seq<char>, Seq<char>, Seq<char>),
> {
    match m.source {
        ProductMediaSource::File { path } => match observed {
            None => None,
            Some(Err(e)) => Some((registration_code(e.code@), e.message@, media_source_path_of(m.export_filename@))),
            Some(Ok(o)) => if o.fingerprint.same(&m.observed_fingerprint) {
                None
            } else {
                Some(
                    (
                        "MEDIA.SOURCE_CHANGED"@,
                        "media source "@ + path@ + " changed after registration"@,
                        media_source_path_of(m.export_filename@),
                    ),
                )
            },
        },
        ProductMediaSource::InlineBytes { .. } => None,
    }
}

pub open spec fn too_large_message(export_filename: Seq<char>, size: u64) -> Seq<char> {
    "project.media["@ + debug_quoted(export_filename) + "] has "@ + decimal(size as nat) + " bytes, above inline limit "@
        + decimal(INLINE_MEDIA_LIMIT_BYTES as nat)
}

fn authoring_media(media: &ProductMedia, source: AuthoringMediaSource) -> (a: AuthoringMedia)
    ensures
        a@ == authoring_media_of(
            *media,
            match source {
                AuthoringMediaSource::Path { path } => MediaSourceModel::Path(path@),
                AuthoringMediaSource::InlineBytes { data_base64 } => MediaSourceModel::InlineBytes(data_base64@),
            },
        ),
{
    AuthoringMedia {
        id: owned(media.id.as_str()),
        desired_filename: owned(media.export_filename.as_str()),
        source,
        declared_mime: copy_text(&media.declared_mime),
    }
}

/// The first step of embedding registered media: inline media is ready;
/// file media is checked against a fresh observation of its source, then
/// against the inline limit, and then its file is to be read.
pub fn product_media_item_to_authoring_media(
    media: &ProductMedia,
    observed: Option<Result<ObservedMedia, MediaError>>,
) -> (r: InlineMediaStep)
    ensures
        match media.source {
            ProductMediaSource::InlineBytes { data_base64, .. } => r matches InlineMediaStep::Ready(a) && a@
                == authoring_media_of(*media, MediaSourceModel::InlineBytes(data_base64@)),
            ProductMediaSource::File { path } => match verification_failure(*media, observed) {
                Some((code, message, source)) => r matches InlineMediaStep::Failed(e) && e.message@ == prepare_message()
                    && diagnostic_views(e.diagnostics@) == seq![
                    media_error_at(code, message, source, source_help(code, source)),
                ],
                None => if media.observed_fingerprint.size_bytes > INLINE_MEDIA_LIMIT_BYTES {
                    r matches InlineMediaStep::Failed(e) && e.message@ == prepare_message() && diagnostic_views(
                        e.diagnostics@,
                    ) == seq![
                        media_error_at(
                            "MEDIA.INLINE_TOO_LARGE"@,
                            too_large_message(media.export_filename@, media.observed_fingerprint.size_bytes),
                            media_source_path_of(media.export_filename@),
                            "inspect product media registrations and source files"@,
                        ),
                    ]
                } else {
                    r matches InlineMediaStep::ReadSource { path: p } && p@ == path@
                },
            },
        },
{
    match &media.source {
        ProductMediaSource::InlineBytes { data_base64, .. } => {
            InlineMediaStep::Ready(authoring_media(media, AuthoringMediaSource::InlineBytes { data_base64: owned(data_base64.as_str()) }))
        },
        ProductMediaSource::File { path } => {
            match media.verify_registered_source(observed) {
                Err(d) => {
                    return InlineMediaStep::Failed(ProductMediaPrepareError::from_source_diagnostic(d));
                },
                Ok(()) => {},
            }
            let size = media.observed_fingerprint.size_bytes;
            if size > INLINE_MEDIA_LIMIT_BYTES as u64 {
                let q = debug_quote(media.export_filename.as_str());
                let mut message = concat3("project.media[", q.as_str(), "] has ");
                let digits = decimal_string_u64(size);
                message.append(digits.as_str());
                message.append(" bytes, above inline limit ");
                let limit = decimal_string(INLINE_MEDIA_LIMIT_BYTES);
                message.append(limit.as_str());
                return InlineMediaStep::Failed(
                    ProductMediaPrepareError::single("MEDIA.INLINE_TOO_LARGE", message, media.export_filename.as_str()),
                );
            }
            InlineMediaStep::ReadSource { path: owned(path.as_str()) }
        },
    }
}

/// The last step of embedding file media: its bytes as Base64, or the
/// error of reading its source file.
pub fn finish_inline_media(media: &ProductMedia, read: Result<Vec<u8>, SourceReadError>) -> (r: Result<
    AuthoringMedia,
    ProductMediaPrepareError,
>)
    requires
        media.source is File,
    ensures
        match media.source {
            ProductMediaSource::File { path } => match read {
                Ok(bytes) => r matches Ok(a) && a@ == authoring_media_of(
                    *media,
                    MediaSourceModel::InlineBytes(base64_standard(bytes@)),
                ),
                Err(e) => r matches Err(x) && x.message@ == prepare_message() && diagnostic_views(x.diagnostics@) == seq![
                    media_error_at(
                        if e.not_found {
                            "MEDIA.SOURCE_MISSING"@
                        } else {
                            "MEDIA.SOURCE_READ_FAILED"@
                        },
                        "read media source file "@ + path@ + ": "@ + e.detail@,
                        media_source_path_of(media.export_filename@),
                        "inspect product media registrations and source files"@,
                    ),
                ],
            },
            _ => false,
        },
{
    let path = match &media.source {
        ProductMediaSource::File { path } => path.as_str(),
        ProductMediaSource::InlineBytes { .. } => "",
    };
    match read {
        Ok(bytes) => {
            let data = base64_encode(bytes.as_slice());
            Ok(authoring_media(media, AuthoringMediaSource::InlineBytes { data_base64: data }))
        },
        Err(e) => {
            let code: &str = if e.not_found {
                "MEDIA.SOURCE_MISSING"
            } else {
                "MEDIA.SOURCE_READ_FAILED"
            };
            let mut message = concat3("read media source file ", path, ": ");
            message.append(e.detail.as_str());
            Err(ProductMediaPrepareError::single(code, message, media.export_filename.as_str()))
        },
    }
}

// ---------------------------------------------------------------------------
// Staging registered media as files
// ---------------------------------------------------------------------------

/// What preparing a registered media item as a staged file needs next:
/// nothing more, staging its source file under its export name, or
/// nothing, having failed.
#[derive(Debug)]
pub enum PathBackedMediaStep {
    Ready(AuthoringMedia),
    Stage { source: String },
    Failed(ProductMediaPrepareError),
}

/// How staging a media source file into the media input directory ended.
#[derive(Debug)]
pub enum StagingOutcome {
    /// The source is at the target: copied there, or already the same file.
    Staged,
    /// The input directory or target is unsafe, or inspecting them failed.
    Refused { message: String },
    /// A different file already exists at `target`.
    Collision { target: String },
    /// Copying the source to `target` failed.
    CopyFailed { not_found: bool, target: String, detail: String },
}

/// The first step of staging registered media: inline media is kept as it
/// is; file media is checked against its registration and then staged.
pub fn product_media_item_to_path_backed_authoring_media(
    media: &ProductMedia,
    observed: Option<Result<ObservedMedia, MediaError>>,
) -> (r: PathBackedMediaStep)
    ensures
        match media.source {
            ProductMediaSource::InlineBytes { data_base64, .. } => r matches PathBackedMediaStep::Ready(a) && a@
                == authoring_media_of(*media, MediaSourceModel::InlineBytes(data_base64@)),
            ProductMediaSource::File { path } => match verification_failure(*media, observed) {
                Some((code, message, source)) => r matches PathBackedMediaStep::Failed(e) && e.message@
                    == prepare_message() && diagnostic_views(e.diagnostics@) == seq![
                    media_error_at(code, message, source, source_help(code, source)),
                ],
                None => r matches PathBackedMediaStep::Stage { source: p } && p@ == path@,
            },
        },
{
    match &media.source {
        ProductMediaSource::InlineBytes { data_base64, .. } => {
            PathBackedMediaStep::Ready(
                authoring_media(media, AuthoringMediaSource::InlineBytes { data_base64: owned(data_base64.as_str()) }),
            )
        },
        ProductMediaSource::File { path } => match media.verify_registered_source(observed) {
            Err(d) => PathBackedMediaStep::Failed(ProductMediaPrepareError::from_source_diagnostic(d)),
            Ok(()) => PathBackedMediaStep::Stage { source: owned(path.as_str()) },
        },
    }
}

/// The last step of staging file media: media read from its export name in
/// the input directory, or the error that staging ended with.
pub fn finish_path_backed_media(media: &ProductMedia, staging: StagingOutcome) -> (r: Result<
    AuthoringMedia,
    ProductMediaPrepareError,
>)
    requires
        media.source is File,
    ensures
        match media.source {
            ProductMediaSource::File { path } => match staging {
                StagingOutcome::Staged => r matches Ok(a) && a@ == authoring_media_of(
                    *media,
                    MediaSourceModel::Path(media.export_filename@),
                ),
                StagingOutcome::Refused { message } => r matches Err(x) && x.message@ == prepare_message()
                    && diagnostic_views(x.diagnostics@) == seq![
                    media_error_at(
                        "PROJECT.PRODUCT_MEDIA_FAILED"@,
                        message@,
                        "project.media"@,
                        "inspect product media registrations and media paths"@,
                    ),
                ],
                StagingOutcome::Collision { target } => r matches Err(x) && x.message@ == prepare_message()
                    && diagnostic_views(x.diagnostics@) == seq![
                    media_error_at(
                        "PROJECT.PRODUCT_MEDIA_STAGING_COLLISION"@,
                        "Product media staging target already exists for export filename "@ + debug_quoted(
                            media.export_filename@,
                        ) + "; source "@ + path@ + " would overwrite target "@ + target@,
                        media_source_path_of(media.export_filename@),
                        "inspect product media registrations and source files"@,
                    ),
                ],
                StagingOutcome::CopyFailed { not_found, target, detail } => r matches Err(x) && x.message@
                    == prepare_message() && diagnostic_views(x.diagnostics@) == seq![
                    media_error_at(
                        if not_found {
                            "MEDIA.SOURCE_MISSING"@
                        } else {
                            "PROJECT.PRODUCT_MEDIA_FAILED"@
                        },
                        "copy media source "@ + path@ + " to "@ + target@ + ": "@ + detail@,
                        media_source_path_of(media.export_filename@),
                        "inspect product media registrations and source files"@,
                    ),
                ],
            },
            _ => false,
        },
{
    let path = match &media.source {
        ProductMediaSource::File { path } => path.as_str(),
        ProductMediaSource::InlineBytes { .. } => "",
    };
    match staging {
        StagingOutcome::Staged => Ok(
            authoring_media(media, AuthoringMediaSource::Path { path: owned(media.export_filename.as_str()) }),
        ),
        StagingOutcome::Refused { message } => Err(ProductMediaPrepareError::from_prepare_error(message)),
        StagingOutcome::Collision { target } => Err(
            ProductMediaPrepareError::staging_collision(path, target.as_str(), media.export_filename.as_str()),
        ),
        StagingOutcome::CopyFailed { not_found, target, detail } => {
            let code: &str = if not_found {
                "MEDIA.SOURCE_MISSING"
            } else {
                "PROJECT.PRODUCT_MEDIA_FAILED"
            };
            let mut message = concat3("copy media source ", path, " to ");
            message.append(target.as_str());
            message.append(": ");
            message.append(detail.as_str());
            Err(ProductMediaPrepareError::single(code, message, media.export_filename.as_str()))
        },
    }
}

/// The media of prepared items, in order.
pub open spec fn prepared_media(os: Seq<Result<AuthoringMedia, ProductMediaPrepareError>>) -> Seq<MediaModel>
    decreases os.len(),
{
    if os.len() == 0 {
        Seq::empty()
    } else {
        prepared_media(os.drop_last()) + match os.last() {
            Ok(a) => seq![a@],
            Err(_) => Seq::empty(),
        }
    }
}

/// The diagnostics of the items that failed, in order.
pub open spec fn preparation_diagnostics(os: Seq<Result<AuthoringMedia, ProductMediaPrepareError>>) -> Seq<
    DiagnosticModel,
>
    decreases os.len(),
{
    if os.len() == 0 {
        Seq::empty()
    } else {
        preparation_diagnostics(os.drop_last()) + match os.last() {
            Ok(_) => Seq::empty(),
            Err(e) => diagnostic_views(e.diagnostics@),
        }
    }
}

/// Gathers prepared items: their media when none failed with diagnostics,
/// else one error with the diagnostics of all that failed.
pub fn product_media_to_authoring_media(outcomes: Vec<Result<AuthoringMedia, ProductMediaPrepareError>>) -> (r: Result<
    Vec<AuthoringMedia>,
    ProductMediaPrepareError,
>)
    ensures
        match r {
            Ok(v) => preparation_diagnostics(outcomes@).len() == 0 && media_models(v@) == prepared_media(outcomes@),
            Err(e) => preparation_diagnostics(outcomes@).len() > 0 && e.message@ == prepare_message()
                && diagnostic_views(e.diagnostics@) == preparation_diagnostics(outcomes@),
        },
{
    let ghost os = outcomes@;
    let mut prepared: Vec<AuthoringMedia> = Vec::new();
    let mut diagnostics: Vec<Diagnostic> = Vec::new();
    let mut rest = outcomes;
    let ghost n = os.len();
    assert(os.take(0) =~= Seq::<Result<AuthoringMedia, ProductMediaPrepareError>>::empty());
    assert(media_models(prepared@) =~= Seq::<MediaModel>::empty());
    assert(diagnostic_views(diagnostics@) =~= Seq::<DiagnosticModel>::empty());
    while rest.len() > 0
        invariant
            rest@.len() <= n,
            n == os.len(),
            rest@ == os.subrange(n - rest@.len(), n as int),
            media_models(prepared@) == prepared_media(os.take(n - rest@.len())),
            diagnostic_views(diagnostics@) == preparation_diagnostics(os.take(n - rest@.len())),
        decreases rest@.len(),
    {
        let ghost k = n - rest@.len();
        assert(os.take(k + 1).drop_last() =~= os.take(k));
        assert(os.take(k + 1).last() == rest@[0]);
        let outcome = rest.remove(0);
        assert(rest@ =~= os.subrange(n - rest@.len(), n as int));
        let ghost before_media = media_models(prepared@);
        let ghost before_diags = diagnostic_views(diagnostics@);
        match outcome {
            Ok(a) => {
                let ghost av = a@;
                prepared.push(a);
                assert(media_models(prepared@) =~= before_media + seq![av]);
                assert(before_diags + Seq::<DiagnosticModel>::empty() =~= before_diags);
            },
            Err(e) => {
                let ghost ev = diagnostic_views(e.diagnostics@);
                let mut more = e.diagnostics;
                diagnostics.append(&mut more);
                assert(diagnostic_views(diagnostics@) =~= before_diags + ev);
                assert(before_media + Seq::<MediaModel>::empty() =~= before_media);
            },
        }
    }
    assert(os.take(n as int) =~= os);
    if diagnostics.len() == 0 {
        Ok(prepared)
    } else {
        Err(ProductMediaPrepareError { message: owned("prepare product media"), diagnostics })
    }
}

} // verus!
