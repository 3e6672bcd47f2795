//! Template bundles: a manifest naming a note type's fields, the files of
//! its templates and stylesheet, and its assets; and the errors of loading
//! one.

use vstd::prelude::*;

use crate::product::identity::IdentityRecipe;
use crate::product::model::opt_seq;
use crate::product::notetype::{Field, FieldModel, NoteType, NoteTypeModel, Template, TemplateModel};
use crate::str_map::{strictly_sorted, StrMap};
use crate::text::{concat3, is_blank, owned, str_eq, trim_ws};

verus! {

/// The model of a template-bundle error: its code, message and path.
pub struct TemplateBundleErrorModel {
    pub code: Seq<char>,
    pub message: Seq<char>,
    pub path: Option<Seq<char>>,
}

/// Why a template bundle could not be loaded: a code, a message and the
/// path concerned, when there is one.
#[derive(Debug)]
pub struct TemplateBundleError {
    code: String,
    message: String,
    path: Option<String>,
}

impl View for TemplateBundleError {
    type V = TemplateBundleErrorModel;

    closed spec fn view(&self) -> TemplateBundleErrorModel {
        TemplateBundleErrorModel { code: self.code@, message: self.message@, path: opt_seq(self.path) }
    }
}

impl TemplateBundleError {
    pub fn new(code: &str, message: &str, path: Option<String>) -> (e: Self)
        ensures
            e@ == (TemplateBundleErrorModel { code: code@, message: message@, path: opt_seq(path) }),
    {
        TemplateBundleError { code: owned(code), message: owned(message), path }
    }

    pub fn code(&self) -> (r: &str)
        ensures
            r@ == self@.code,
    {
        self.code.as_str()
    }

    pub fn path(&self) -> (r: Option<&str>)
        ensures
            match r {
                Some(p) => self@.path == Some(p@),
                None => self@.path is None,
            },
    {
        match &self.path {
            Some(p) => Some(p.as_str()),
            None => None,
        }
    }

    /// `<code>: <message>`.
    pub fn describe(&self) -> (r: String)
        ensures
            r@ == self@.code + ": "@ + self@.message,
    {
        concat3(self.code.as_str(), ": ", self.message.as_str())
    }
}

// ---------------------------------------------------------------------------
// The manifest
// ---------------------------------------------------------------------------

/// The largest manifest read, in bytes.
pub const MANIFEST_LIMIT: u64 = 262144;

/// The largest template or stylesheet file read, in bytes.
pub const TEXT_FILE_LIMIT: u64 = 2097152;

/// The largest asset file accepted, in bytes.
pub const ASSET_FILE_LIMIT: u64 = 67108864;

/// A template bundle's manifest.
#[derive(Debug)]
pub struct TemplateBundleManifest {
    pub format_version: String,
    pub note_type: BundleNoteType,
    pub css_file: Option<String>,
    pub assets: Vec<BundleAsset>,
}

/// The note type a manifest declares; `kind` is `normal` unless given.
#[derive(Debug)]
pub struct BundleNoteType {
    pub id: String,
    pub name: Option<String>,
    pub kind: String,
    pub cloze_field: Option<String>,
    pub fields: Vec<BundleField>,
    pub templates: Vec<BundleTemplate>,
}

/// A field a manifest declares, with its flags.
#[derive(Debug)]
pub struct BundleField {
    pub key: String,
    pub name: String,
    pub identity: bool,
    pub sort: bool,
    pub required: bool,
    pub optional: bool,
}

/// A template a manifest declares: the files of its sides, relative to the
/// bundle root.
#[derive(Debug)]
pub struct BundleTemplate {
    pub key: String,
    pub name: String,
    pub front_file: String,
    pub back_file: String,
    pub browser_front_file: Option<String>,
    pub browser_back_file: Option<String>,
    pub target_deck: Option<String>,
}

/// An asset a manifest declares: its file, relative to the bundle root, and
/// its export name.
#[derive(Debug)]
pub struct BundleAsset {
    pub path: String,
    pub export_as: String,
}

/// A loaded bundle: its note type and its assets.
#[derive(Debug)]
pub struct LoadedTemplateBundle {
    pub note_type: NoteType,
    pub assets: Vec<LoadedTemplateAsset>,
}

/// An asset of a loaded bundle: its file and its export name.
#[derive(Debug)]
pub struct LoadedTemplateAsset {
    pub path: String,
    pub export_as: String,
}

pub open spec fn error_model(code: Seq<char>, message: Seq<char>, path: Seq<char>) -> TemplateBundleErrorModel {
    TemplateBundleErrorModel { code, message, path: Some(path) }
}

/// What is wrong with a manifest before any of its files is read: a format
/// version other than `template-bundle-v1` (reported at `manifest_path`), a
/// cloze note type without a non-blank cloze field, or a kind other than
/// `normal` and `cloze` (both reported at `declared_path`).
pub open spec fn bundle_header_error(
    m: TemplateBundleManifest,
    manifest_path: Seq<char>,
    declared_path: Seq<char>,
) -> Option<TemplateBundleErrorModel> {
    let kind = m.note_type.kind@;
    if m.format_version@ != "template-bundle-v1"@ {
        Some(
            error_model(
                "TEMPLATE.BUNDLE_VERSION_UNSUPPORTED"@,
                "unsupported template bundle format_version '"@ + m.format_version@ + "'"@,
                manifest_path,
            ),
        )
    } else if kind == "normal"@ {
        None
    } else if kind == "cloze"@ {
        match m.note_type.cloze_field {
            Some(f) => if trim_ws(f@).len() == 0 {
                Some(
                    error_model(
                        "TEMPLATE.CLOZE_FIELD_REQUIRED"@,
                        "Cloze template bundles require note_type.cloze_field"@,
                        declared_path,
                    ),
                )
            } else {
                None
            },
            None => Some(
                error_model(
                    "TEMPLATE.CLOZE_FIELD_REQUIRED"@,
                    "Cloze template bundles require note_type.cloze_field"@,
                    declared_path,
                ),
            ),
        }
    } else {
        Some(
            error_model("TEMPLATE.BUNDLE_KIND_INVALID"@, "unsupported note_type.kind '"@ + kind + "'"@, declared_path),
        )
    }
}

/// Checks what can be checked of a manifest before reading its files.
pub fn template_bundle_header_error(
    manifest: &TemplateBundleManifest,
    manifest_path: &str,
    declared_path: &str,
) -> (r: Option<TemplateBundleError>)
    ensures
        match r {
            Some(e) => bundle_header_error(*manifest, manifest_path@, declared_path@) == Some(e@),
            None => bundle_header_error(*manifest, manifest_path@, declared_path@) is None,
        },
{
    let version = manifest.format_version.as_str();
    if !str_eq(version, "template-bundle-v1") {
        let message = concat3("unsupported template bundle format_version '", version, "'");
        return Some(TemplateBundleError::new("TEMPLATE.BUNDLE_VERSION_UNSUPPORTED", message.as_str(), Some(owned(manifest_path))));
    }
    let kind = manifest.note_type.kind.as_str();
    if str_eq(kind, "normal") {
        return None;
    }
    if str_eq(kind, "cloze") {
        let missing = match &manifest.note_type.cloze_field {
            Some(f) => is_blank(f.as_str()),
            None => true,
        };
        if missing {
            return Some(
                TemplateBundleError::new(
                    "TEMPLATE.CLOZE_FIELD_REQUIRED",
                    "Cloze template bundles require note_type.cloze_field",
                    Some(owned(declared_path)),
                ),
            );
        }
        return None;
    }
    let message = concat3("unsupported note_type.kind '", kind, "'");
    Some(TemplateBundleError::new("TEMPLATE.BUNDLE_KIND_INVALID", message.as_str(), Some(owned(declared_path))))
}

/// A file a bundle reads: its role, its path relative to the bundle root,
/// and the most bytes it may have.
#[derive(Debug)]
pub struct BundleFile {
    pub role: &'static str,
    pub path: String,
    pub size_limit: u64,
}

pub type BundleFileView = (Seq<char>, Seq<char>, u64);

pub open spec fn template_files(t: BundleTemplate) -> Seq<BundleFileView> {
    seq![("front template"@, t.front_file@, TEXT_FILE_LIMIT), ("back template"@, t.back_file@, TEXT_FILE_LIMIT)]
        + match t.browser_front_file {
        Some(f) => seq![("browser front"@, f@, TEXT_FILE_LIMIT)],
        None => Seq::empty(),
    } + match t.browser_back_file {
        Some(f) => seq![("browser back"@, f@, TEXT_FILE_LIMIT)],
        None => Seq::empty(),
    }
}

pub open spec fn templates_files(ts: Seq<BundleTemplate>) -> Seq<BundleFileView>
    decreases ts.len(),
{
    if ts.len() == 0 {
        Seq::empty()
    } else {
        templates_files(ts.drop_last()) + template_files(ts.last())
    }
}

pub open spec fn assets_files(assets: Seq<BundleAsset>) -> Seq<BundleFileView> {
    assets.map_values(|a: BundleAsset| ("asset"@, a.path@, ASSET_FILE_LIMIT))
}

/// The files a manifest names, in the order they are read: each template's
/// front, back, browser front and back, then the stylesheet, then the
/// assets.
pub open spec fn bundle_files(m: TemplateBundleManifest) -> Seq<BundleFileView> {
    bundle_text_files(m) + assets_files(m.assets@)
}

/// The files whose text makes up the note type: templates, then stylesheet.
pub open spec fn bundle_text_files(m: TemplateBundleManifest) -> Seq<BundleFileView> {
    let css = match m.css_file {
        Some(f) => seq![("stylesheet"@, f@, TEXT_FILE_LIMIT)],
        None => Seq::empty(),
    };
    templates_files(m.note_type.templates@) + css
}

pub open spec fn bundle_file_views(v: Seq<BundleFile>) -> Seq<BundleFileView> {
    v.map_values(|f: BundleFile| (f.role@, f.path@, f.size_limit))
}

fn push_file(files: &mut Vec<BundleFile>, role: &'static str, path: &str, size_limit: u64)
    ensures
        bundle_file_views(final(files)@) == bundle_file_views(old(files)@).push((role@, path@, size_limit)),
{
    let ghost before = bundle_file_views(files@);
    files.push(BundleFile { role, path: owned(path), size_limit });
    assert(bundle_file_views(files@) =~= before.push((role@, path@, size_limit)));
}

/// The files a manifest names, in the order a loader reads them.
pub fn template_bundle_files(manifest: &TemplateBundleManifest) -> (r: Vec<BundleFile>)
    ensures
        bundle_file_views(r@) == bundle_files(*manifest),
{
    let ts = &manifest.note_type.templates;
    let mut r: Vec<BundleFile> = Vec::new();
    let mut i: usize = 0;
    assert(ts@.take(0) =~= Seq::<BundleTemplate>::empty());
    assert(bundle_file_views(r@) =~= Seq::<BundleFileView>::empty());
    while i < ts.len()
        invariant
            i <= ts@.len(),
            bundle_file_views(r@) == templates_files(ts@.take(i as int)),
        decreases ts.len() - i,
    {
        let t = &ts[i];
        assert(ts@.take(i + 1).drop_last() =~= ts@.take(i as int));
        let ghost before = bundle_file_views(r@);
        push_file(&mut r, "front template", t.front_file.as_str(), TEXT_FILE_LIMIT);
        push_file(&mut r, "back template", t.back_file.as_str(), TEXT_FILE_LIMIT);
        match &t.browser_front_file {
            Some(f) => push_file(&mut r, "browser front", f.as_str(), TEXT_FILE_LIMIT),
            None => {},
        }
        match &t.browser_back_file {
            Some(f) => push_file(&mut r, "browser back", f.as_str(), TEXT_FILE_LIMIT),
            None => {},
        }
        assert(bundle_file_views(r@) =~= before + template_files(*t));
        i += 1;
    }
    assert(ts@.take(i as int) =~= ts@);
    let ghost after_templates = bundle_file_views(r@);
    match &manifest.css_file {
        Some(f) => push_file(&mut r, "stylesheet", f.as_str(), TEXT_FILE_LIMIT),
        None => {},
    }
    let ghost after_css = bundle_file_views(r@);
    assert(after_css =~= bundle_text_files(*manifest));
    let mut k: usize = 0;
    while k < manifest.assets.len()
        invariant
            k <= manifest.assets@.len(),
            bundle_file_views(r@) == after_css + assets_files(manifest.assets@).take(k as int),
        decreases manifest.assets.len() - k,
    {
        push_file(&mut r, "asset", manifest.assets[k].path.as_str(), ASSET_FILE_LIMIT);
        assert(assets_files(manifest.assets@).take(k + 1) =~= assets_files(manifest.assets@).take(k as int).push(
            ("asset"@, manifest.assets@[k as int].path@, ASSET_FILE_LIMIT),
        ));
        k += 1;
    }
    assert(assets_files(manifest.assets@).take(k as int) =~= assets_files(manifest.assets@));
    assert(bundle_file_views(r@) =~= bundle_files(*manifest));
    r
}

// ---------------------------------------------------------------------------
// The note type of a bundle
// ---------------------------------------------------------------------------

/// The text of the bundle file `name`.
pub open spec fn file_text(files: StrMap<String>, name: Seq<char>) -> Seq<char> {
    files.get_spec(name)->0@
}

/// Whether every file that holds text for the note type has been read.
pub open spec fn text_files_read(m: TemplateBundleManifest, files: StrMap<String>) -> bool {
    forall|i: int| 0 <= i < bundle_text_files(m).len() ==> files.get_spec(#[trigger] bundle_text_files(m)[i].1) is Some
}

/// A declared field: its name and key, with its flags (optional wins over
/// required).
pub open spec fn bundle_field_model(f: BundleField) -> FieldModel {
    FieldModel {
        key: f.key@,
        name: f.name@,
        identity: f.identity,
        sort: f.sort,
        required: f.required && !f.optional,
        optional: f.optional,
        key_auto_derived: false,
    }
}

/// A declared template, its sides the text of the files it names.
pub open spec fn bundle_template_model(t: BundleTemplate, files: StrMap<String>) -> TemplateModel {
    TemplateModel {
        name: t.name@,
        key: Some(t.key@),
        front: file_text(files, t.front_file@),
        back: file_text(files, t.back_file@),
        browser_front: match t.browser_front_file {
            Some(f) => Some(file_text(files, f@)),
            None => None,
        },
        browser_back: match t.browser_back_file {
            Some(f) => Some(file_text(files, f@)),
            None => None,
        },
        target_deck: opt_seq(t.target_deck),
    }
}

/// The keys of the identity fields, in declaration order.
pub open spec fn identity_keys(fields: Seq<BundleField>) -> Seq<Seq<char>>
    decreases fields.len(),
{
    if fields.len() == 0 {
        Seq::empty()
    } else {
        identity_keys(fields.drop_last()) + if fields.last().identity {
            seq![fields.last().key@]
        } else {
            Seq::empty()
        }
    }
}

/// The note type a bundle declares, all but its identity recipe: a cloze
/// note type for kind `cloze`, its name, fields, templates and stylesheet.
pub open spec fn bundle_note_type(m: TemplateBundleManifest, files: StrMap<String>) -> NoteTypeModel {
    NoteTypeModel {
        id: m.note_type.id@,
        name: opt_seq(m.note_type.name),
        fields: m.note_type.fields@.map_values(|f: BundleField| bundle_field_model(f)),
        templates: m.note_type.templates@.map_values(|t: BundleTemplate| bundle_template_model(t, files)),
        identity: None,
        cloze_field: if m.note_type.kind@ == "cloze"@ {
            opt_seq(m.note_type.cloze_field)
        } else {
            None
        },
        css: match m.css_file {
            Some(f) => Some(file_text(files, f@)),
            None => None,
        },
    }
}

/// Whether `n` is the note type a bundle declares: as `bundle_note_type`
/// says, with, when some field is an identity field, the recipe of the
/// identity keys (in ascending order, each once).
pub open spec fn is_bundle_note_type(n: NoteTypeModel, m: TemplateBundleManifest, files: StrMap<String>) -> bool {
    let keys = identity_keys(m.note_type.fields@);
    &&& NoteTypeModel { identity: None, ..n } == bundle_note_type(m, files)
    &&& if keys.len() == 0 {
        n.identity is None
    } else {
        n.identity matches Some(i) && strictly_sorted(i.field_keys) && forall|k: Seq<char>|
            i.field_keys.contains(k) <==> keys.contains(k)
    }
}

fn text_of<'a>(files: &'a StrMap<String>, name: &str) -> (r: &'a str)
    requires
        files.get_spec(name@) is Some,
    ensures
        r@ == file_text(*files, name@),
{
    match files.get(name) {
        Some(t) => t.as_str(),
        None => "",
    }
}

fn bundle_field(f: &BundleField) -> (r: Field)
    ensures
        r@ == bundle_field_model(*f),
{
    let mut field = Field::new(f.name.as_str()).key(f.key.as_str());
    if f.identity {
        field = field.identity();
    }
    if f.sort {
        field = field.sort();
    }
    if f.required {
        field = field.required();
    }
    if f.optional {
        field = field.optional();
    }
    field
}

fn bundle_template(t: &BundleTemplate, files: &StrMap<String>) -> (r: Template)
    requires
        files.get_spec(t.front_file@) is Some,
        files.get_spec(t.back_file@) is Some,
        t.browser_front_file matches Some(f) ==> files.get_spec(f@) is Some,
        t.browser_back_file matches Some(f) ==> files.get_spec(f@) is Some,
    ensures
        r@ == bundle_template_model(*t, *files),
{
    let mut template = Template::new(t.name.as_str())
        .key(t.key.as_str())
        .front(text_of(files, t.front_file.as_str()))
        .back(text_of(files, t.back_file.as_str()));
    match &t.browser_front_file {
        Some(f) => {
            template = template.browser_front(text_of(files, f.as_str()));
        },
        None => {},
    }
    match &t.browser_back_file {
        Some(f) => {
            template = template.browser_back(text_of(files, f.as_str()));
        },
        None => {},
    }
    match &t.target_deck {
        Some(d) => {
            template = template.target_deck(d.as_str());
        },
        None => {},
    }
    template
}

proof fn lemma_templates_files_cover(ts: Seq<BundleTemplate>, j: int)
    requires
        0 <= j < ts.len(),
    ensures
        forall|x: BundleFileView| template_files(ts[j]).contains(x) ==> templates_files(ts).contains(x),
    decreases ts.len(),
{
    if j < ts.len() - 1 {
        lemma_templates_files_cover(ts.drop_last(), j);
        assert(ts.drop_last()[j] == ts[j]);
        assert forall|x: BundleFileView| template_files(ts[j]).contains(x) implies templates_files(ts).contains(x) by {
            assert(template_files(ts.drop_last()[j]).contains(x));
            assert(templates_files(ts.drop_last()).contains(x));
            let k = choose|k: int| 0 <= k < templates_files(ts.drop_last()).len() && templates_files(ts.drop_last())[k] == x;
            assert(templates_files(ts)[k] == x);
        }
    } else {
        assert forall|x: BundleFileView| template_files(ts[j]).contains(x) implies templates_files(ts).contains(x) by {
            let k = choose|k: int| 0 <= k < template_files(ts[j]).len() && template_files(ts[j])[k] == x;
            assert(templates_files(ts)[templates_files(ts.drop_last()).len() + k] == x);
        }
    }
}

proof fn lemma_text_file_read(m: TemplateBundleManifest, files: StrMap<String>, x: BundleFileView)
    requires
        text_files_read(m, files),
        bundle_text_files(m).contains(x),
    ensures
        files.get_spec(x.1) is Some,
{
    let i = choose|i: int| 0 <= i < bundle_text_files(m).len() && bundle_text_files(m)[i] == x;
    assert(files.get_spec(bundle_text_files(m)[i].1) is Some);
}

/// The note type and assets a bundle declares, from its manifest and the
/// text of its files (keyed by their paths in the manifest). A manifest
/// that fails the header checks is refused as `bundle_header_error` says;
/// otherwise the note type is exactly the one declared, and the assets are
/// those listed, in order.
pub fn template_bundle_note_type(
    manifest: &TemplateBundleManifest,
    files: &StrMap<String>,
    manifest_path: &str,
    declared_path: &str,
) -> (r: Result<LoadedTemplateBundle, TemplateBundleError>)
    requires
        bundle_header_error(*manifest, manifest_path@, declared_path@) is None ==> text_files_read(*manifest, *files),
    ensures
        match r {
            Err(e) => bundle_header_error(*manifest, manifest_path@, declared_path@) == Some(e@),
            Ok(b) => bundle_header_error(*manifest, manifest_path@, declared_path@) is None && is_bundle_note_type(
                b.note_type@,
                *manifest,
                *files,
            ) && b.assets@.len() == manifest.assets@.len() && forall|i: int|
                0 <= i < b.assets@.len() ==> (#[trigger] b.assets@[i]).path@ == manifest.assets@[i].path@
                    && b.assets@[i].export_as@ == manifest.assets@[i].export_as@,
        },
{
    match template_bundle_header_error(manifest, manifest_path, declared_path) {
        Some(e) => {
            return Err(e);
        },
        None => {},
    }
    let decl = &manifest.note_type;
    let ghost m = *manifest;
    let mut note_type = if str_eq(decl.kind.as_str(), "cloze") {
        proof {
            reveal_strlit("cloze");
            reveal_strlit("normal");
        }
        assert(decl.cloze_field is Some);
        let field = match &decl.cloze_field {
            Some(f) => f.as_str(),
            None => "",
        };
        NoteType::custom_cloze(decl.id.as_str(), field)
    } else {
        NoteType::custom(decl.id.as_str())
    };
    assert(note_type@.cloze_field == bundle_note_type(m, *files).cloze_field);
    match &decl.name {
        Some(n) => {
            note_type = note_type.name(n.as_str());
        },
        None => {},
    }
    let ghost base = note_type@;
    let mut identity_fields: Vec<String> = Vec::new();
    let mut i: usize = 0;
    assert(decl.fields@.take(0) =~= Seq::<BundleField>::empty());
    assert(note_type@.fields =~= decl.fields@.take(0).map_values(|f: BundleField| bundle_field_model(f)));
    while i < decl.fields.len()
        invariant
            i <= decl.fields@.len(),
            note_type@ == (NoteTypeModel {
                fields: decl.fields@.take(i as int).map_values(|f: BundleField| bundle_field_model(f)),
                ..base
            }),
            identity_fields@.map_values(|s: String| s@) == identity_keys(decl.fields@.take(i as int)),
        decreases decl.fields.len() - i,
    {
        let f = &decl.fields[i];
        assert(decl.fields@.take(i + 1).drop_last() =~= decl.fields@.take(i as int));
        let ghost before = identity_fields@.map_values(|s: String| s@);
        if f.identity {
            identity_fields.push(owned(f.key.as_str()));
            assert(identity_fields@.map_values(|s: String| s@) =~= before + seq![f.key@]);
        } else {
            assert(identity_fields@.map_values(|s: String| s@) =~= before + Seq::<Seq<char>>::empty());
        }
        note_type = note_type.field(bundle_field(f));
        assert(decl.fields@.take(i + 1).map_values(|f: BundleField| bundle_field_model(f)) =~= decl.fields@.take(
            i as int,
        ).map_values(|f: BundleField| bundle_field_model(f)).push(bundle_field_model(*f)));
        i += 1;
    }
    assert(decl.fields@.take(i as int) =~= decl.fields@);
    let has_identity = identity_fields.len() > 0;
    let ghost keys = identity_fields@.map_values(|s: String| s@);
    let ghost before_identity = note_type@;
    if has_identity {
        note_type = note_type.identity(IdentityRecipe::fields(identity_fields));
    }
    let ghost fields_done = NoteTypeModel { identity: None, ..note_type@ };
    let ghost identity_now = note_type@.identity;
    let mut k: usize = 0;
    assert(decl.templates@.take(0) =~= Seq::<BundleTemplate>::empty());
    assert(note_type@.templates =~= decl.templates@.take(0).map_values(|t: BundleTemplate| bundle_template_model(t, *files)));
    while k < decl.templates.len()
        invariant
            k <= decl.templates@.len(),
            m == *manifest,
            decl == &manifest.note_type,
            text_files_read(m, *files),
            note_type@ == (NoteTypeModel {
                templates: decl.templates@.take(k as int).map_values(|t: BundleTemplate| bundle_template_model(t, *files)),
                identity: identity_now,
                ..fields_done
            }),
        decreases decl.templates.len() - k,
    {
        let t = &decl.templates[k];
        proof {
            lemma_templates_files_cover(decl.templates@, k as int);
            assert forall|x: BundleFileView| template_files(*t).contains(x) implies bundle_text_files(m).contains(x) by {
                assert(templates_files(decl.templates@).contains(x));
                let j = choose|j: int| 0 <= j < templates_files(decl.templates@).len() && templates_files(decl.templates@)[j] == x;
                assert(bundle_text_files(m)[j] == x);
            }
            assert(template_files(*t)[0] == ("front template"@, t.front_file@, TEXT_FILE_LIMIT));
            lemma_text_file_read(m, *files, template_files(*t)[0]);
            assert(template_files(*t)[1] == ("back template"@, t.back_file@, TEXT_FILE_LIMIT));
            lemma_text_file_read(m, *files, template_files(*t)[1]);
            match &t.browser_front_file {
                Some(f) => {
                    assert(template_files(*t)[2] == ("browser front"@, f@, TEXT_FILE_LIMIT));
                    lemma_text_file_read(m, *files, template_files(*t)[2]);
                },
                None => {},
            }
            match &t.browser_back_file {
                Some(f) => {
                    let n = template_files(*t).len() - 1;
                    assert(template_files(*t)[n] == ("browser back"@, f@, TEXT_FILE_LIMIT));
                    lemma_text_file_read(m, *files, template_files(*t)[n]);
                },
                None => {},
            }
        }
        note_type = note_type.template(bundle_template(t, files));
        assert(decl.templates@.take(k + 1).map_values(|t: BundleTemplate| bundle_template_model(t, *files))
            =~= decl.templates@.take(k as int).map_values(|t: BundleTemplate| bundle_template_model(t, *files)).push(
            bundle_template_model(*t, *files),
        ));
        k += 1;
    }
    assert(decl.templates@.take(k as int) =~= decl.templates@);
    match &manifest.css_file {
        Some(f) => {
            proof {
                let n: int = templates_files(decl.templates@).len() as int;
                assert(bundle_text_files(m)[n] == ("stylesheet"@, f@, TEXT_FILE_LIMIT));
                lemma_text_file_read(m, *files, bundle_text_files(m)[n]);
            }
            note_type = note_type.css(text_of(files, f.as_str()));
        },
        None => {},
    }
    let mut assets: Vec<LoadedTemplateAsset> = Vec::new();
    let mut a: usize = 0;
    while a < manifest.assets.len()
        invariant
            a <= manifest.assets@.len(),
            assets@.len() == a,
            forall|j: int|
                0 <= j < a ==> (#[trigger] assets@[j]).path@ == manifest.assets@[j].path@ && assets@[j].export_as@
                    == manifest.assets@[j].export_as@,
        decreases manifest.assets.len() - a,
    {
        let asset = &manifest.assets[a];
        assets.push(
            LoadedTemplateAsset { path: owned(asset.path.as_str()), export_as: owned(asset.export_as.as_str()) },
        );
        a += 1;
    }
    assert(note_type@.fields =~= bundle_note_type(m, *files).fields);
    assert(note_type@.templates =~= bundle_note_type(m, *files).templates);
    assert(note_type@.cloze_field == bundle_note_type(m, *files).cloze_field);
    assert(NoteTypeModel { identity: None, ..note_type@ } == bundle_note_type(m, *files));
    Ok(LoadedTemplateBundle { note_type, assets })
}

} // verus!
