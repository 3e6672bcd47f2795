//! Media registered with a project: export names, sources and fingerprints.

use vstd::prelude::*;

use crate::product::content::{Content, ContentModel};
use crate::product::digest::{base64_encode, base64_standard, blake3_digest, blake3_hash, hex_encode, hex_lower, sha1_digest, sha1_hash};
use crate::str_map::StrMap;
use crate::text::{chars_of, concat2, concat3, decimal, decimal_string, debug_quote, debug_quoted, is_ascii_alnum, ascii_alnum, ascii_lower, to_ascii_lower, is_blank, trim_ws, has_control, contains_control, owned, str_eq, push_char};

verus! {

/// The most bytes that inline media may hold.
pub const INLINE_MEDIA_LIMIT_BYTES: usize = 65536;

/// A reference to registered media by its export file name.
#[derive(Debug, Clone)]
pub struct MediaRef {
    filename: String,
}

impl View for MediaRef {
    type V = Seq<char>;

    closed spec fn view(&self) -> Seq<char> {
        self.filename@
    }
}

impl MediaRef {
    pub(crate) fn new(filename: &str) -> (r: Self)
        ensures
            r@ == filename@,
    {
        MediaRef { filename: owned(filename) }
    }

    pub fn filename(&self) -> (s: &str)
        ensures
            s@ == self@,
    {
        self.filename.as_str()
    }

    /// A sound tag for the media, as field HTML.
    pub fn sound(&self) -> (c: Content)
        ensures
            c@ == ContentModel::Html("[sound:"@ + self@ + "]"@),
    {
        Content::Html(concat3("[sound:", self.filename.as_str(), "]"))
    }

    /// An image tag for the media, as field HTML.
    pub fn image(&self) -> (c: Content)
        ensures
            c@ == ContentModel::Html("<img src=\""@ + self@ + "\">"@),
    {
        Content::Html(concat3("<img src=\"", self.filename.as_str(), "\">"))
    }

    pub fn duplicate(&self) -> (r: Self)
        ensures
            r@ == self@,
    {
        MediaRef::new(self.filename.as_str())
    }
}

/// Where registered media bytes come from.
#[derive(Debug)]
pub enum ProductMediaSource {
    File { path: String },
    InlineBytes { source_label: String, data_base64: String },
}

/// The identity of media content: its BLAKE3 digest in hex and its size.
#[derive(Debug)]
pub struct MediaFingerprint {
    pub blake3_hex: String,
    pub size_bytes: u64,
}

impl MediaFingerprint {
    pub open spec fn same(&self, other: &MediaFingerprint) -> bool {
        self.blake3_hex@ == other.blake3_hex@ && self.size_bytes == other.size_bytes
    }

    pub fn matches(&self, other: &MediaFingerprint) -> (r: bool)
        ensures
            r == self.same(other),
    {
        self.size_bytes == other.size_bytes && str_eq(self.blake3_hex.as_str(), other.blake3_hex.as_str())
    }
}

/// Registered media.
#[derive(Debug)]
pub struct ProductMedia {
    pub id: String,
    pub export_filename: String,
    pub source: ProductMediaSource,
    pub declared_mime: Option<String>,
    pub sha1_hex: String,
    pub observed_fingerprint: MediaFingerprint,
}

/// Why media could not be registered or exported.
#[derive(Debug)]
pub struct MediaError {
    pub code: &'static str,
    pub message: String,
}

/// What reading a media file reported: its fingerprint and SHA-1, or an error.
#[derive(Debug)]
pub struct ObservedMedia {
    pub fingerprint: MediaFingerprint,
    pub sha1_hex: String,
}

/// A problem with a registered media source found when it is used.
#[derive(Debug)]
pub struct ProductMediaSourceDiagnostic {
    pub code: &'static str,
    pub message: String,
    pub source_path: String,
}

/// Media read or given, waiting for its export name.
#[derive(Debug)]
pub struct PendingMedia {
    source: ProductMediaSource,
    fingerprint: MediaFingerprint,
    sha1_hex: String,
}

/// The media of a project, keyed by export file name.
#[derive(Debug)]
pub struct MediaRegistry {
    media: StrMap<ProductMedia>,
}

/// A source label is usable when it is not blank and has no control character.
pub open spec fn source_label_ok(label: Seq<char>) -> bool {
    trim_ws(label).len() > 0 && !has_control(label)
}

/// Why a source label is refused: blank, else a control character in it.
pub open spec fn source_label_message(label: Seq<char>) -> Seq<char> {
    if trim_ws(label).len() == 0 {
        "MEDIA.INVALID_SOURCE_LABEL: source label must not be empty"@
    } else {
        "MEDIA.INVALID_SOURCE_LABEL: source label contains a control character"@
    }
}

fn validate_source_label(source_label: &str) -> (r: Result<(), MediaError>)
    ensures
        r is Ok <==> source_label_ok(source_label@),
        r matches Err(e) ==> e.code@ == "MEDIA.INVALID_SOURCE_LABEL"@ && e.message@ == source_label_message(
            source_label@,
        ),
{
    if is_blank(source_label) {
        return Err(MediaError {
            code: "MEDIA.INVALID_SOURCE_LABEL",
            message: owned("MEDIA.INVALID_SOURCE_LABEL: source label must not be empty"),
        });
    }
    if contains_control(source_label) {
        return Err(MediaError {
            code: "MEDIA.INVALID_SOURCE_LABEL",
            message: owned("MEDIA.INVALID_SOURCE_LABEL: source label contains a control character"),
        });
    }
    Ok(())
}

/// A character that an export file name may hold.
pub open spec fn export_name_char(c: char) -> bool {
    is_ascii_alnum(c) || c == '.' || c == '-' || c == '_'
}

/// Why an export file name is refused, in the order the checks run.
pub open spec fn export_name_error(name: Seq<char>) -> Option<Seq<char>> {
    if trim_ws(name).len() == 0 {
        Some("MEDIA.EXPORT_NAME_EMPTY"@)
    } else if name.contains('/') || name.contains('\\') {
        Some("MEDIA.EXPORT_NAME_CONTAINS_SEPARATOR"@)
    } else if name == seq!['.'] || name == seq!['.', '.'] {
        Some("MEDIA.EXPORT_NAME_NOT_BARE_FILENAME"@)
    } else if exists|i: int| 0 <= i < name.len() && !export_name_char(#[trigger] name[i]) {
        Some("MEDIA.EXPORT_NAME_UNSAFE_CHARACTER"@)
    } else {
        None
    }
}

/// An export file name is accepted exactly when it is not blank, is neither
/// `.` nor `..`, and holds only ASCII letters and digits, `.`, `-` and `_`;
/// so an accepted name never holds a path separator.
pub proof fn law_accepted_export_names_are_bare_and_safe(name: Seq<char>)
    ensures
        export_name_error(name) is None <==> trim_ws(name).len() > 0 && name != seq!['.'] && name != seq!['.', '.']
            && forall|i: int|
            0 <= i < name.len() ==> {
                let c = #[trigger] name[i];
                ||| 'a' <= c <= 'z'
                ||| 'A' <= c <= 'Z'
                ||| '0' <= c <= '9'
                ||| c == '.'
                ||| c == '-'
                ||| c == '_'
            },
        export_name_error(name) is None ==> !name.contains('/') && !name.contains('\\'),
{
    if name.contains('/') || name.contains('\\') {
        let k = choose|k: int| 0 <= k < name.len() && (name[k] == '/' || name[k] == '\\');
        assert(!export_name_char(name[k]));
    }
}

fn media_error(code: &'static str) -> (e: MediaError)
    ensures
        e.code == code,
        e.message@ == code@,
{
    MediaError { code, message: owned(code) }
}

/// Checks that `filename` is a bare, safe file name.
pub fn validate_media_filename(filename: &str) -> (r: Result<(), MediaError>)
    ensures
        match r {
            Ok(()) => export_name_error(filename@) is None,
            Err(e) => export_name_error(filename@) == Some(e.code@),
        },
{
    if is_blank(filename) {
        return Err(media_error("MEDIA.EXPORT_NAME_EMPTY"));
    }
    let cs = chars_of(filename);
    let mut i: usize = 0;
    while i < cs.len()
        invariant
            i <= cs@.len(),
            cs@ == filename@,
            forall|k: int| 0 <= k < i ==> cs@[k] != '/' && cs@[k] != '\\',
            trim_ws(filename@).len() != 0,
        decreases cs.len() - i,
    {
        if cs[i] == '/' || cs[i] == '\\' {
            proof {
                if cs@[i as int] == '/' {
                    assert(filename@[i as int] == '/');
                    assert(filename@.contains('/'));
                } else {
                    assert(filename@[i as int] == '\\');
                    assert(filename@.contains('\\'));
                }
            }
            return Err(media_error("MEDIA.EXPORT_NAME_CONTAINS_SEPARATOR"));
        }
        i += 1;
    }
    if (cs.len() == 1 && cs[0] == '.') || (cs.len() == 2 && cs[0] == '.' && cs[1] == '.') {
        proof {
            if cs@.len() == 1 {
                assert(filename@ =~= seq!['.']);
            } else {
                assert(filename@ =~= seq!['.', '.']);
            }
        }
        return Err(media_error("MEDIA.EXPORT_NAME_NOT_BARE_FILENAME"));
    }
    proof {
        assert(!filename@.contains('/')) by {
            if filename@.contains('/') {
                let k = choose|k: int| 0 <= k < filename@.len() && filename@[k] == '/';
                assert(cs@[k] != '/');
            }
        }
        assert(!filename@.contains('\\')) by {
            if filename@.contains('\\') {
                let k = choose|k: int| 0 <= k < filename@.len() && filename@[k] == '\\';
                assert(cs@[k] != '\\');
            }
        }
        assert(filename@ != seq!['.']) by {
            if filename@ == seq!['.'] {
                assert(cs@.len() == 1 && cs@[0] == '.');
            }
        }
        assert(filename@ != seq!['.', '.']) by {
            if filename@ == seq!['.', '.'] {
                assert(cs@.len() == 2 && cs@[0] == '.' && cs@[1] == '.');
            }
        }
    }
    let mut j: usize = 0;
    while j < cs.len()
        invariant
            j <= cs@.len(),
            cs@ == filename@,
            forall|k: int| 0 <= k < j ==> export_name_char(#[trigger] cs@[k]),
            trim_ws(filename@).len() != 0,
            !filename@.contains('/'),
            !filename@.contains('\\'),
            filename@ != seq!['.'],
            filename@ != seq!['.', '.'],
        decreases cs.len() - j,
    {
        let c = cs[j];
        if !(ascii_alnum(c) || c == '.' || c == '-' || c == '_') {
            assert(!export_name_char(filename@[j as int]));
            return Err(media_error("MEDIA.EXPORT_NAME_UNSAFE_CHARACTER"));
        }
        j += 1;
    }
    Ok(())
}

/// The text after the last `.` of a name (the whole name if it has none).
pub open spec fn last_segment(name: Seq<char>) -> Seq<char>
    decreases name.len(),
{
    if name.len() == 0 {
        name
    } else if name.last() == '.' {
        Seq::empty()
    } else {
        last_segment(name.drop_last()).push(name.last())
    }
}

/// The MIME type guessed from a file name's extension.
pub open spec fn mime_for(name: Seq<char>) -> Seq<char> {
    let ext = last_segment(name).map_values(|c: char| ascii_lower(c));
    if ext == "png"@ {
        "image/png"@
    } else if ext == "jpg"@ || ext == "jpeg"@ {
        "image/jpeg"@
    } else if ext == "mp3"@ {
        "audio/mpeg"@
    } else if ext == "wav"@ {
        "audio/wav"@
    } else {
        "application/octet-stream"@
    }
}

proof fn lemma_last_segment_after_dot(stem: Seq<char>, ext: Seq<char>)
    requires
        !ext.contains('.'),
    ensures
        last_segment(stem + "."@ + ext) == ext,
    decreases ext.len(),
{
    reveal_strlit(".");
    if ext.len() == 0 {
        assert(stem + "."@ + ext =~= stem.push('.'));
        assert((stem + "."@ + ext).last() == '.');
    } else {
        lemma_last_segment_after_dot(stem, ext.drop_last());
        assert((stem + "."@ + ext).drop_last() =~= stem + "."@ + ext.drop_last());
        assert(ext.last() == ext[ext.len() - 1]);
        assert(ext.drop_last().push(ext.last()) =~= ext);
    }
}

/// Media registered under `stem.ext`, where `ext` has no `.`, is declared by
/// its extension in any letter case: `png` as `image/png`, `jpg` and `jpeg` as
/// `image/jpeg`, `mp3` as `audio/mpeg`, `wav` as `audio/wav`, and any other
/// extension as `application/octet-stream`.
pub proof fn law_declared_mime_follows_extension(stem: Seq<char>, ext: Seq<char>)
    requires
        !ext.contains('.'),
    ensures
        ({
            let e = ext.map_values(|c: char| ascii_lower(c));
            let mime = mime_for(stem + "."@ + ext);
            &&& e == "png"@ ==> mime == "image/png"@
            &&& e == "jpg"@ || e == "jpeg"@ ==> mime == "image/jpeg"@
            &&& e == "mp3"@ ==> mime == "audio/mpeg"@
            &&& e == "wav"@ ==> mime == "audio/wav"@
            &&& !(e == "png"@ || e == "jpg"@ || e == "jpeg"@ || e == "mp3"@ || e == "wav"@) ==> mime
                == "application/octet-stream"@
        }),
{
    lemma_last_segment_after_dot(stem, ext);
    let e = ext.map_values(|c: char| ascii_lower(c));
    assert(last_segment(stem + "."@ + ext).map_values(|c: char| ascii_lower(c)) =~= e);
    reveal_strlit("png");
    reveal_strlit("jpg");
    reveal_strlit("jpeg");
    reveal_strlit("mp3");
    reveal_strlit("wav");
    assert("jpg"@[0] != "png"@[0]);
    assert("jpeg"@.len() != "png"@.len());
    assert("mp3"@[0] != "png"@[0] && "mp3"@[0] != "jpg"@[0]);
    assert("mp3"@.len() != "jpeg"@.len());
    assert("wav"@[0] != "png"@[0] && "wav"@[0] != "jpg"@[0] && "wav"@[0] != "mp3"@[0]);
    assert("wav"@.len() != "jpeg"@.len());
}

fn mime_from_name(name: &str) -> (r: String)
    ensures
        r@ == mime_for(name@),
{
    let cs = chars_of(name);
    let mut start: usize = 0;
    let mut i: usize = 0;
    let mut ext = String::new();
    while i < cs.len()
        invariant
            i <= cs@.len(),
            cs@ == name@,
            ext@ == last_segment(cs@.subrange(0, i as int)).map_values(|c: char| ascii_lower(c)),
        decreases cs.len() - i,
    {
        let ghost prefix = cs@.subrange(0, i as int);
        assert(cs@.subrange(0, i + 1).drop_last() =~= prefix);
        if cs[i] == '.' {
            ext = String::new();
            assert(ext@ =~= Seq::<char>::empty().map_values(|c: char| ascii_lower(c)));
        } else {
            push_char(&mut ext, to_ascii_lower(cs[i]));
            assert(ext@ =~= last_segment(cs@.subrange(0, i + 1)).map_values(|c: char| ascii_lower(c)));
        }
        i += 1;
    }
    assert(cs@.subrange(0, cs@.len() as int) =~= cs@);
    let e = ext.as_str();
    if str_eq(e, "png") {
        owned("image/png")
    } else if str_eq(e, "jpg") || str_eq(e, "jpeg") {
        owned("image/jpeg")
    } else if str_eq(e, "mp3") {
        owned("audio/mpeg")
    } else if str_eq(e, "wav") {
        owned("audio/wav")
    } else {
        owned("application/octet-stream")
    }
}

/// The source path of registered media: `project.media[<quoted name>]`.
pub open spec fn media_source_path_of(name: Seq<char>) -> Seq<char> {
    "project.media["@ + debug_quoted(name) + "]"@
}

pub fn media_source_path(value: &str) -> (r: String)
    ensures
        r@ == media_source_path_of(value@),
{
    let quoted = debug_quote(value);
    concat3("project.media[", quoted.as_str(), "]")
}

/// The fingerprint of in-memory bytes.
fn fingerprint_bytes(bytes: &[u8]) -> (f: MediaFingerprint)
    ensures
        f.blake3_hex@ == hex_lower(blake3_digest(bytes@)),
        f.size_bytes == bytes@.len(),
{
    let digest = blake3_hash(bytes);
    let hex = hex_encode(digest.as_slice());
    MediaFingerprint { blake3_hex: hex, size_bytes: bytes.len() as u64 }
}

/// What the bytes of a media file are known by: their BLAKE3 fingerprint
/// and size, and their SHA-1, both in lowercase hex.
pub fn observe_bytes(bytes: &[u8]) -> (o: ObservedMedia)
    ensures
        o.fingerprint.blake3_hex@ == hex_lower(blake3_digest(bytes@)),
        o.fingerprint.size_bytes == bytes@.len(),
        o.sha1_hex@ == hex_lower(sha1_digest(bytes@)),
{
    let fingerprint = fingerprint_bytes(bytes);
    let sha1 = sha1_hash(bytes);
    let sha1_hex = hex_encode(sha1.as_slice());
    ObservedMedia { fingerprint, sha1_hex }
}

/// The code under which a failed read of a registered file is reported.
pub open spec fn registration_code(error_code: Seq<char>) -> Seq<char> {
    if error_code == "MEDIA.SOURCE_MISSING"@ {
        "MEDIA.SOURCE_MISSING"@
    } else if error_code == "MEDIA.SOURCE_NOT_REGULAR_FILE"@ {
        "MEDIA.SOURCE_NOT_REGULAR_FILE"@
    } else if error_code == "MEDIA.EMPTY_SOURCE"@ {
        "MEDIA.EMPTY_SOURCE"@
    } else {
        "MEDIA.SOURCE_READ_FAILED"@
    }
}

fn registration_error_to_diagnostic(error: MediaError, export_filename: &str) -> (d: ProductMediaSourceDiagnostic)
    ensures
        d.code@ == registration_code(error.code@),
        d.message@ == error.message@,
        d.source_path@ == media_source_path_of(export_filename@),
{
    let code: &'static str = if str_eq(error.code, "MEDIA.SOURCE_MISSING") {
        "MEDIA.SOURCE_MISSING"
    } else if str_eq(error.code, "MEDIA.SOURCE_NOT_REGULAR_FILE") {
        "MEDIA.SOURCE_NOT_REGULAR_FILE"
    } else if str_eq(error.code, "MEDIA.EMPTY_SOURCE") {
        "MEDIA.EMPTY_SOURCE"
    } else {
        "MEDIA.SOURCE_READ_FAILED"
    };
    ProductMediaSourceDiagnostic {
        code,
        message: error.message,
        source_path: media_source_path(export_filename),
    }
}

impl ProductMedia {
    /// Checks a fresh observation of a file source against the fingerprint taken
    /// at registration; inline sources need no check.
    pub fn verify_registered_source(&self, observed: Option<Result<ObservedMedia, MediaError>>) -> (r: Result<(), ProductMediaSourceDiagnostic>)
        ensures
            match self.source {
                ProductMediaSource::InlineBytes { .. } => r is Ok,
                ProductMediaSource::File { path } => match observed {
                    None => r is Ok,
                    Some(Err(e)) => r matches Err(d) && d.code@ == registration_code(e.code@)
                        && d.message@ == e.message@ && d.source_path@ == media_source_path_of(self.export_filename@),
                    Some(Ok(o)) => if o.fingerprint.same(&self.observed_fingerprint) {
                        r is Ok
                    } else {
                        r matches Err(d) && d.code@ == "MEDIA.SOURCE_CHANGED"@
                            && d.message@ == "media source "@ + path@ + " changed after registration"@
                            && d.source_path@ == media_source_path_of(self.export_filename@)
                    },
                },
            },
    {
        match &self.source {
            ProductMediaSource::InlineBytes { .. } => Ok(()),
            ProductMediaSource::File { path } => match observed {
                None => Ok(()),
                Some(Err(e)) => Err(registration_error_to_diagnostic(e, self.export_filename.as_str())),
                Some(Ok(o)) => {
                    if o.fingerprint.matches(&self.observed_fingerprint) {
                        Ok(())
                    } else {
                        Err(ProductMediaSourceDiagnostic {
                            code: "MEDIA.SOURCE_CHANGED",
                            message: concat3("media source ", path.as_str(), " changed after registration"),
                            source_path: media_source_path(self.export_filename.as_str()),
                        })
                    }
                },
            },
        }
    }
}

impl PendingMedia {
    pub closed spec fn fingerprint_spec(&self) -> (Seq<char>, u64) {
        (self.fingerprint.blake3_hex@, self.fingerprint.size_bytes)
    }

    pub closed spec fn sha1_spec(&self) -> Seq<char> {
        self.sha1_hex@
    }

    pub closed spec fn source_spec(&self) -> MediaSourceView {
        source_view(self.source)
    }

    /// Registers the media under `filename`. A name already registered with the
    /// same fingerprint gives the existing reference; one registered with other
    /// content is refused. A refused export leaves the registry as it was.
    pub fn export_as(self, registry: &mut MediaRegistry, filename: &str) -> (r: Result<MediaRef, MediaError>)
        ensures
            match r {
                Ok(m) => m@ == filename@ && export_name_error(filename@) is None
                    && final(registry)@.contains_key(filename@)
                    && if old(registry)@.contains_key(filename@) {
                        old(registry)@[filename@].0 == self.fingerprint_spec() && final(registry)@ == old(registry)@
                    } else {
                        final(registry)@ == old(registry)@.insert(filename@, (
                            self.fingerprint_spec(),
                            "media:"@ + filename@,
                            mime_for(filename@),
                            self.sha1_spec(),
                            self.source_spec(),
                        ))
                    },
                Err(e) => final(registry)@ == old(registry)@ && (export_name_error(filename@) == Some(e.code@)
                    || (export_name_error(filename@) is None && old(registry)@.contains_key(filename@)
                    && old(registry)@[filename@].0 != self.fingerprint_spec()
                    && e.code@ == "MEDIA.DUPLICATE_FILENAME_CONFLICT"@)),
            },
    {
        match validate_media_filename(filename) {
            Err(e) => {
                return Err(e);
            },
            Ok(()) => {},
        }
        match registry.media.get(filename) {
            Some(existing) => {
                proof {
                    assert(registry@.contains_key(filename@));
                }
                if !existing.observed_fingerprint.matches(&self.fingerprint) {
                    return Err(MediaError {
                        code: "MEDIA.DUPLICATE_FILENAME_CONFLICT",
                        message: concat2("MEDIA.DUPLICATE_FILENAME_CONFLICT: ", filename),
                    });
                }
                return Ok(MediaRef::new(filename));
            },
            None => {},
        }
        let ghost ghost_source = source_view(self.source);
        let media = ProductMedia {
            id: concat2("media:", filename),
            export_filename: owned(filename),
            source: self.source,
            declared_mime: Some(mime_from_name(filename)),
            sha1_hex: self.sha1_hex,
            observed_fingerprint: self.fingerprint,
        };
        registry.media.insert(owned(filename), media);
        proof {
            assert(registry@ =~= old(registry)@.insert(filename@, (
                (self.fingerprint.blake3_hex@, self.fingerprint.size_bytes),
                "media:"@ + filename@,
                mime_for(filename@),
                self.sha1_hex@,
                ghost_source,
            )));
        }
        Ok(MediaRef::new(filename))
    }
}

/// Where registered media comes from: a file path, or a source label and
/// the Base64 of the bytes.
pub enum MediaSourceView {
    File(Seq<char>),
    InlineBytes(Seq<char>, Seq<char>),
}

pub open spec fn source_view(s: ProductMediaSource) -> MediaSourceView {
    match s {
        ProductMediaSource::File { path } => MediaSourceView::File(path@),
        ProductMediaSource::InlineBytes { source_label, data_base64 } => MediaSourceView::InlineBytes(
            source_label@,
            data_base64@,
        ),
    }
}

/// The model of one registered media item: fingerprint, id, MIME type,
/// SHA-1 and source.
pub type MediaEntry = ((Seq<char>, u64), Seq<char>, Seq<char>, Seq<char>, MediaSourceView);

pub open spec fn media_model(m: ProductMedia) -> MediaEntry {
    (
        (m.observed_fingerprint.blake3_hex@, m.observed_fingerprint.size_bytes),
        m.id@,
        match m.declared_mime {
            Some(s) => s@,
            None => Seq::empty(),
        },
        m.sha1_hex@,
        source_view(m.source),
    )
}

impl View for MediaRegistry {
    type V = Map<Seq<char>, MediaEntry>;

    closed spec fn view(&self) -> Self::V {
        self.media.as_map().map_values(|m: ProductMedia| media_model(m))
    }
}

impl MediaRegistry {
    /// An empty registry.
    pub fn new() -> (r: Self)
        ensures
            r@ == Map::<Seq<char>, MediaEntry>::empty(),
    {
        let r = MediaRegistry { media: StrMap::new() };
        assert(r@ =~= Map::<Seq<char>, MediaEntry>::empty());
        r
    }

    /// Media of a file, from what reading it gave: the error of a file that
    /// could not be read, refused when it was empty, else its bytes observed.
    pub fn add_file(&self, path: &str, read: Result<Vec<u8>, MediaError>) -> (r: Result<PendingMedia, MediaError>)
        ensures
            match read {
                Err(e) => r matches Err(x) && x.code == e.code && x.message@ == e.message@,
                Ok(bytes) => match r {
                    Ok(p) => bytes@.len() > 0 && p.fingerprint_spec() == (
                        hex_lower(blake3_digest(bytes@)),
                        bytes@.len() as u64,
                    ) && p.sha1_spec() == hex_lower(sha1_digest(bytes@)) && p.source_spec() == MediaSourceView::File(
                        path@,
                    ),
                    Err(e) => bytes@.len() == 0 && e.code@ == "MEDIA.EMPTY_SOURCE"@ && e.message@
                        == "MEDIA.EMPTY_SOURCE: "@ + path@,
                },
            },
    {
        let bytes = match read {
            Err(e) => {
                return Err(e);
            },
            Ok(bytes) => bytes,
        };
        if bytes.len() == 0 {
            return Err(MediaError { code: "MEDIA.EMPTY_SOURCE", message: concat2("MEDIA.EMPTY_SOURCE: ", path) });
        }
        let observed = observe_bytes(bytes.as_slice());
        Ok(PendingMedia {
            source: ProductMediaSource::File { path: owned(path) },
            fingerprint: observed.fingerprint,
            sha1_hex: observed.sha1_hex,
        })
    }

    /// Inline media: refused when the label is blank or has a control character,
    /// when there are no bytes, or when there are more than the inline limit.
    pub fn add_bytes(&self, source_label: &str, bytes: Vec<u8>) -> (r: Result<PendingMedia, MediaError>)
        ensures
            match r {
                Ok(p) => source_label_ok(source_label@) && 0 < bytes@.len() <= INLINE_MEDIA_LIMIT_BYTES
                    && p.fingerprint_spec() == (hex_lower(blake3_digest(bytes@)), bytes@.len() as u64)
                    && p.sha1_spec() == hex_lower(sha1_digest(bytes@)) && p.source_spec()
                    == MediaSourceView::InlineBytes(source_label@, base64_standard(bytes@)),
                Err(e) => if !source_label_ok(source_label@) {
                    e.code@ == "MEDIA.INVALID_SOURCE_LABEL"@ && e.message@ == source_label_message(source_label@)
                } else if bytes@.len() == 0 {
                    e.code@ == "MEDIA.EMPTY_SOURCE"@ && e.message@ == "MEDIA.EMPTY_SOURCE: "@ + source_label@
                } else {
                    bytes@.len() > INLINE_MEDIA_LIMIT_BYTES && e.code@ == "MEDIA.INLINE_TOO_LARGE"@ && e.message@
                        == "MEDIA.INLINE_TOO_LARGE: "@ + source_label@ + " has "@ + decimal(bytes@.len())
                        + " bytes, above inline limit "@ + decimal(INLINE_MEDIA_LIMIT_BYTES as nat)
                },
            },
    {
        match validate_source_label(source_label) {
            Err(e) => {
                return Err(e);
            },
            Ok(()) => {},
        }
        if bytes.len() == 0 {
            return Err(MediaError { code: "MEDIA.EMPTY_SOURCE", message: concat2("MEDIA.EMPTY_SOURCE: ", source_label) });
        }
        if bytes.len() > INLINE_MEDIA_LIMIT_BYTES {
            let mut message = concat3("MEDIA.INLINE_TOO_LARGE: ", source_label, " has ");
            let size = decimal_string(bytes.len());
            message.append(size.as_str());
            message.append(" bytes, above inline limit ");
            let limit = decimal_string(INLINE_MEDIA_LIMIT_BYTES);
            message.append(limit.as_str());
            return Err(MediaError { code: "MEDIA.INLINE_TOO_LARGE", message });
        }
        let fingerprint = fingerprint_bytes(bytes.as_slice());
        let sha1 = sha1_hash(bytes.as_slice());
        let sha1_hex = hex_encode(sha1.as_slice());
        let data_base64 = base64_encode(bytes.as_slice());
        Ok(PendingMedia {
            source: ProductMediaSource::InlineBytes { source_label: owned(source_label), data_base64 },
            fingerprint,
            sha1_hex,
        })
    }

    /// The registered media items in ascending order of export file name.
    pub closed spec fn items(&self) -> Seq<ProductMedia> {
        self.media.vals()
    }

    /// The registered media, keyed by export file name in ascending order.
    pub fn media(&self) -> (m: &StrMap<ProductMedia>)
        ensures
            m.as_map().map_values(|p: ProductMedia| media_model(p)) == self@,
            m.vals() == self.items(),
    {
        &self.media
    }
}

} // verus!
