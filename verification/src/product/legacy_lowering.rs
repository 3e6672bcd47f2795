//! Lowering a legacy product document to the authoring document.

use vstd::prelude::*;

use crate::product::authoring::{copy_fields, copy_metadata, field_models, metadata_models, template_models, AuthoringField, AuthoringFieldMetadata, AuthoringNotetype, AuthoringTemplate, DefaultsModel, FieldModel, NotetypeModel, StockLoweringDefaults, TemplateModel};
use crate::product::diagnostics::ProductDiagnostic;
use crate::product::document::{entries_for, first_appearance, first_target_deck, DocumentModel, ProductDocument};
use crate::product::helpers::{apply_all, apply_helpers, helper_views, in_scope, lemma_apply_all_some_iff_in_scope, refusal_message, HelperDeclaration, HelperModel};
use crate::product::lowering::{diag_view, plain, DiagView};
use crate::product::metadata::{copy_text, FieldMetadataDeclaration, FieldMetadataModel};
use crate::product::model::opt_seq;
use crate::product::lowering::{custom_duplicate_diags, diag_views, duplicate_custom_key_diagnostics, field_key_of, legacy_front_of, legacy_rule, lower_generation_rule_front, name_map, template_key_of};
use crate::product::model::{CustomField, CustomNoteType, CustomTemplate};
use crate::product::digest::blake3_digest;
use crate::product::template::{config_payload, low63_be, stable_config_id};
use crate::str_map::StrMap;
use crate::text::{concat3, debug_quote, debug_quoted, decimal, decimal_string, is_blank, owned, trim_ws};
use crate::product::authoring::{AuthoringNote, NoteModel};
use crate::product::lowering::{record_note_field_source_paths, with_note_fields, LoweringMapping, ProductSourceMap, strs};
use crate::product::model::{ProductNote, ProductNoteType};
use crate::product::note::string_views;
use crate::product::model::copy_strings;
use crate::product::assets::{lowered_filename_of, AssetModel, AssetSource, FontBinding};
use crate::product::authoring::{AuthoringDocument, AuthoringMedia, AuthoringMediaSource, LoweringPlan, MediaModel, MediaSourceModel, media_models, note_models, notetype_models};
use crate::product::diagnostics::{LoweringDiagnostic, ProductLoweringError};
use crate::product::document::binding_view;
use crate::product::lowering::{append_font_face, record_media_source_path, with_font_face, with_media};
use crate::product::media_registry::media_source_path_of;
use vstd::utf8::encode_utf8;

verus! {

// ---------------------------------------------------------------------------
// Stock note types
// ---------------------------------------------------------------------------

/// `a` if it is there, else `b`.
pub open spec fn or_else<T>(a: Option<T>, b: Option<T>) -> Option<T> {
    match a {
        Some(x) => Some(x),
        None => b,
    }
}

/// A stock template as a document adjusts it: the answer given, and the
/// browser formats, font and target deck that the document declares for it
/// in place of the defaults.
pub open spec fn adjusted_template(doc: DocumentModel, id: Seq<char>, t: TemplateModel, answer: Seq<char>) -> TemplateModel {
    let app = first_appearance(doc.browser_appearance, id, t.name);
    let deck = first_target_deck(doc.template_target_decks, id, t.name);
    TemplateModel {
        answer_format: answer,
        browser_question_format: or_else(
            match app {
                Some(a) => a.question_format,
                None => None,
            },
            t.browser_question_format,
        ),
        browser_answer_format: or_else(
            match app {
                Some(a) => a.answer_format,
                None => None,
            },
            t.browser_answer_format,
        ),
        target_deck_name: or_else(
            match deck {
                Some(d) => Some(d.deck_name),
                None => None,
            },
            t.target_deck_name,
        ),
        browser_font_name: or_else(
            match app {
                Some(a) => a.font_name,
                None => None,
            },
            t.browser_font_name,
        ),
        browser_font_size: or_else(
            match app {
                Some(a) => a.font_size,
                None => None,
            },
            t.browser_font_size,
        ),
        ..t
    }
}

/// Every helper is in scope for the note type's kind.
pub open spec fn helpers_apply(kind: Seq<char>, hs: Seq<HelperModel>) -> bool {
    forall|j: int| 0 <= j < hs.len() ==> in_scope(kind, #[trigger] hs[j])
}

/// What a stock note type lowers to: its defaults, named as the document
/// names it, with the helpers applied to each template's answer and the
/// document's declarations for its templates; refused when a template
/// meets a helper that is out of scope.
pub open spec fn stock_notetype_result(
    doc: DocumentModel,
    id: Seq<char>,
    name_override: Option<Seq<char>>,
    kind: Seq<char>,
    d: DefaultsModel,
    hs: Seq<HelperModel>,
) -> Result<NotetypeModel, DiagView> {
    if d.templates.len() > 0 && !helpers_apply(kind, hs) {
        Err(plain("PHASE5A.HELPER_SCOPE_INVALID"@, refusal_message(kind, hs)))
    } else {
        Ok(
            NotetypeModel {
                id,
                kind: d.kind,
                name: Some(
                    match name_override {
                        Some(n) => n,
                        None => d.name,
                    },
                ),
                original_stock_kind: Some(d.original_stock_kind),
                fields: Some(d.fields),
                templates: Some(
                    d.templates.map_values(
                        |t: TemplateModel| adjusted_template(doc, id, t, apply_all(kind, t.answer_format, hs)->0),
                    ),
                ),
                css: Some(d.css),
                field_metadata: entries_for(doc.field_metadata, id) + d.field_metadata,
            },
        )
    }
}

fn first_text(a: Option<String>, b: &Option<String>) -> (r: Option<String>)
    ensures
        opt_seq(r) == or_else(opt_seq(a), opt_seq(*b)),
{
    match a {
        Some(x) => Some(x),
        None => copy_text(b),
    }
}

/// The authoring form of a field metadata declaration.
pub fn authoring_field_metadata(field: FieldMetadataDeclaration) -> (r: AuthoringFieldMetadata)
    ensures
        r@ == field@,
{
    AuthoringFieldMetadata { field_name: field.field_name, label: field.label, role_hint: field.role_hint }
}

/// The document's field metadata for a note type, then the given defaults.
fn declared_metadata(document: &ProductDocument, id: &str, defaults: &[AuthoringFieldMetadata]) -> (r: Vec<
    AuthoringFieldMetadata,
>)
    ensures
        metadata_models(r@) == entries_for(document@.field_metadata, id@) + metadata_models(defaults@),
{
    let declared = document.field_metadata_for(id);
    let ghost dv = declared@.map_values(|d: FieldMetadataDeclaration| d@);
    let mut r: Vec<AuthoringFieldMetadata> = Vec::new();
    let mut rest = declared;
    let ghost n = rest@.len();
    while rest.len() > 0
        invariant
            r@.len() + rest@.len() == n,
            n == dv.len(),
            metadata_models(r@) == dv.take(r@.len() as int),
            forall|m: int| 0 <= m < rest@.len() ==> (#[trigger] rest@[m])@ == dv[r@.len() + m],
        decreases rest@.len(),
    {
        let d = rest.remove(0);
        let ghost k = r@.len();
        let ghost before = metadata_models(r@);
        let a = authoring_field_metadata(d);
        r.push(a);
        assert(metadata_models(r@) =~= before.push(dv[k as int]));
        assert(dv.take(k as int + 1) =~= dv.take(k as int).push(dv[k as int]));
    }
    assert(dv.take(r@.len() as int) =~= dv);
    let mut more = copy_metadata(defaults);
    let ghost head = metadata_models(r@);
    let ghost tail = metadata_models(more@);
    r.append(&mut more);
    assert(metadata_models(r@) =~= head + tail);
    r
}

/// Lowers a stock note type from its defaults under a document's helpers
/// and template declarations.
pub fn lower_stock_notetype(
    document: &ProductDocument,
    id: &str,
    name_override: Option<String>,
    note_kind: &str,
    defaults: &StockLoweringDefaults,
    helpers: &[HelperDeclaration],
) -> (r: Result<AuthoringNotetype, ProductDiagnostic>)
    ensures
        ({
            let expected = stock_notetype_result(
                document@,
                id@,
                opt_seq(name_override),
                note_kind@,
                defaults@,
                helper_views(helpers@),
            );
            match r {
                Ok(n) => expected == Ok::<NotetypeModel, DiagView>(n@),
                Err(d) => expected == Err::<NotetypeModel, DiagView>(diag_view(d)),
            }
        }),
{
    let ghost hs = helper_views(helpers@);
    let ghost dm = defaults@;
    let ghost doc = document@;
    let mut templates: Vec<AuthoringTemplate> = Vec::new();
    let mut i: usize = 0;
    while i < defaults.templates.len()
        invariant
            i <= defaults.templates@.len(),
            hs == helper_views(helpers@),
            dm == defaults@,
            doc == document@,
            i > 0 ==> helpers_apply(note_kind@, hs),
            template_models(templates@) == dm.templates.take(i as int).map_values(
                |t: TemplateModel| adjusted_template(doc, id@, t, apply_all(note_kind@, t.answer_format, hs)->0),
            ),
        decreases defaults.templates.len() - i,
    {
        let t = &defaults.templates[i];
        assert(dm.templates[i as int] == t@);
        let (question, answer) = match apply_helpers(
            note_kind,
            t.question_format.as_str(),
            t.answer_format.as_str(),
            helpers,
        ) {
            Ok(pair) => pair,
            Err(d) => {
                proof {
                    lemma_apply_all_some_iff_in_scope(note_kind@, t.answer_format@, hs);
                }
                return Err(d);
            },
        };
        proof {
            lemma_apply_all_some_iff_in_scope(note_kind@, t.answer_format@, hs);
        }
        let appearance = document.browser_appearance_for(id, t.name.as_str());
        let deck = document.template_target_deck_for(id, t.name.as_str());
        let (q_format, a_format, font_name, font_size) = match appearance {
            Some(a) => (a.question_format, a.answer_format, a.font_name, a.font_size),
            None => (None, None, None, None),
        };
        let deck_name = match deck {
            Some(d) => Some(d.deck_name),
            None => None,
        };
        let lowered = AuthoringTemplate {
            name: owned(t.name.as_str()),
            ord: t.ord,
            config_id: t.config_id,
            question_format: question,
            answer_format: answer,
            browser_question_format: first_text(q_format, &t.browser_question_format),
            browser_answer_format: first_text(a_format, &t.browser_answer_format),
            target_deck_name: first_text(deck_name, &t.target_deck_name),
            browser_font_name: first_text(font_name, &t.browser_font_name),
            browser_font_size: match font_size {
                Some(s) => Some(s),
                None => t.browser_font_size,
            },
        };
        let ghost lv = lowered@;
        let ghost before = template_models(templates@);
        templates.push(lowered);
        assert(lv == adjusted_template(doc, id@, t@, apply_all(note_kind@, t.answer_format@, hs)->0));
        assert(template_models(templates@) =~= before.push(lv));
        assert(dm.templates.take(i + 1) =~= dm.templates.take(i as int).push(t@));
        assert(dm.templates.take(i + 1).map_values(
            |t: TemplateModel| adjusted_template(doc, id@, t, apply_all(note_kind@, t.answer_format, hs)->0),
        ) =~= dm.templates.take(i as int).map_values(
            |t: TemplateModel| adjusted_template(doc, id@, t, apply_all(note_kind@, t.answer_format, hs)->0),
        ).push(lv));
        i += 1;
    }
    assert(dm.templates.take(i as int) =~= dm.templates);
    let name = match name_override {
        Some(n) => n,
        None => owned(defaults.name.as_str()),
    };
    let notetype = AuthoringNotetype {
        id: owned(id),
        kind: owned(defaults.kind.as_str()),
        name: Some(name),
        original_stock_kind: Some(owned(defaults.original_stock_kind.as_str())),
        fields: Some(copy_fields(defaults.fields.as_slice())),
        templates: Some(templates),
        css: Some(owned(defaults.css.as_str())),
        field_metadata: declared_metadata(document, id, defaults.field_metadata.as_slice()),
    };
    Ok(notetype)
}

// ---------------------------------------------------------------------------
// Custom note types
// ---------------------------------------------------------------------------

/// The configuration id `stable_config_id` gives.
pub open spec fn stable_config_id_of(namespace: Seq<char>, note_type_id: Seq<char>, key: Seq<char>) -> i64 {
    low63_be(blake3_digest(encode_utf8(config_payload(namespace, note_type_id, key)))) as i64
}

pub(crate) fn config_id(namespace: &str, note_type_id: &str, key: &str) -> (r: i64)
    ensures
        r == stable_config_id_of(namespace@, note_type_id@, key@),
{
    let r = stable_config_id(namespace, note_type_id, key);
    let ghost v = low63_be(blake3_digest(encode_utf8(config_payload(namespace@, note_type_id@, key@))));
    assert(r as int == v);
    assert(r == v as i64);
    r
}

/// The authoring field of the `ord`-th field of a custom note type.
pub open spec fn custom_field_model(id: Seq<char>, f: CustomField, ord: int) -> FieldModel {
    FieldModel {
        name: f.name@,
        ord: Some(ord as u32),
        config_id: Some(stable_config_id_of("field"@, id, field_key_of(f))),
        prevent_deletion: false,
    }
}

pub open spec fn custom_field_models(id: Seq<char>, fs: Seq<CustomField>) -> Seq<FieldModel> {
    Seq::new(fs.len(), |i: int| custom_field_model(id, fs[i], i))
}

/// Each field's key mapped to its name, later fields winning.
pub open spec fn fields_name_map(fs: Seq<CustomField>) -> Map<Seq<char>, Seq<char>>
    decreases fs.len(),
{
    if fs.len() == 0 {
        Map::empty()
    } else {
        fields_name_map(fs.drop_last()).insert(field_key_of(fs.last()), fs.last().name@)
    }
}

/// The authoring template of the `ord`-th template of a custom note type
/// with its lowered front, and the document's declarations for it.
pub open spec fn custom_template_model(
    doc: DocumentModel,
    id: Seq<char>,
    t: CustomTemplate,
    ord: int,
    question: Seq<char>,
) -> TemplateModel {
    let app = first_appearance(doc.browser_appearance, id, t.name@);
    let deck = first_target_deck(doc.template_target_decks, id, t.name@);
    TemplateModel {
        name: t.name@,
        ord: Some(ord as u32),
        config_id: Some(stable_config_id_of("template"@, id, template_key_of(t))),
        question_format: question,
        answer_format: t.answer_format@,
        browser_question_format: match app {
            Some(a) => a.question_format,
            None => None,
        },
        browser_answer_format: match app {
            Some(a) => a.answer_format,
            None => None,
        },
        target_deck_name: match deck {
            Some(d) => Some(d.deck_name),
            None => None,
        },
        browser_font_name: match app {
            Some(a) => a.font_name,
            None => None,
        },
        browser_font_size: match app {
            Some(a) => a.font_size,
            None => None,
        },
    }
}

pub open spec fn rule_model_of(t: CustomTemplate) -> Option<crate::product::lowering::RuleModel> {
    match t.generation_rule {
        Some(g) => Some(legacy_rule(g)),
        None => None,
    }
}

/// The lowered templates in order, or the diagnostic of the first whose
/// generation rule cannot be lowered.
pub open spec fn custom_templates_result(
    doc: DocumentModel,
    id: Seq<char>,
    ts: Seq<CustomTemplate>,
    m: Map<Seq<char>, Seq<char>>,
) -> Result<Seq<TemplateModel>, DiagView>
    decreases ts.len(),
{
    if ts.len() == 0 {
        Ok(Seq::empty())
    } else {
        match custom_templates_result(doc, id, ts.drop_last(), m) {
            Err(e) => Err(e),
            Ok(prev) => match legacy_front_of(m, id, ts.last().name@, ts.last().question_format@, rule_model_of(ts.last())) {
                Err(e) => Err(e),
                Ok(q) => Ok(prev.push(custom_template_model(doc, id, ts.last(), ts.len() - 1, q))),
            },
        }
    }
}

/// What a legacy custom note type lowers to, or the diagnostics that refuse
/// it: its duplicate keys, else a helper (none applies to custom note
/// types), else the first template whose generation rule fails.
pub open spec fn custom_notetype_result(doc: DocumentModel, c: CustomNoteType) -> Result<NotetypeModel, Seq<DiagView>> {
    let dups = custom_duplicate_diags(c);
    let hs = entries_for(doc.helpers, c.id@);
    if dups.len() > 0 {
        Err(dups)
    } else if hs.len() > 0 && apply_all("custom"@, Seq::empty(), hs) is None {
        Err(seq![plain("PHASE5A.HELPER_SCOPE_INVALID"@, refusal_message("custom"@, hs))])
    } else {
        match custom_templates_result(doc, c.id@, c.templates@, fields_name_map(c.fields@)) {
            Err(e) => Err(seq![e]),
            Ok(ts) => Ok(
                NotetypeModel {
                    id: c.id@,
                    kind: "normal"@,
                    name: opt_seq(c.name),
                    original_stock_kind: None,
                    fields: Some(custom_field_models(c.id@, c.fields@)),
                    templates: Some(ts),
                    css: Some(
                        match c.css {
                            Some(x) => x@,
                            None => Seq::empty(),
                        },
                    ),
                    field_metadata: entries_for(doc.field_metadata, c.id@),
                },
            ),
        }
    }
}

fn custom_name_map(fields: &[CustomField]) -> (m: StrMap<String>)
    ensures
        name_map(m) == fields_name_map(fields@),
{
    let mut m: StrMap<String> = StrMap::new();
    let mut i: usize = 0;
    assert(name_map(m) =~= Map::<Seq<char>, Seq<char>>::empty());
    assert(fields@.take(0) =~= Seq::<CustomField>::empty());
    while i < fields.len()
        invariant
            i <= fields@.len(),
            name_map(m) == fields_name_map(fields@.take(i as int)),
        decreases fields.len() - i,
    {
        let field = &fields[i];
        let key = match &field.key {
            Some(k) => owned(k.as_str()),
            None => owned(field.name.as_str()),
        };
        let ghost before = name_map(m);
        let ghost kv = key@;
        m.insert(key, owned(field.name.as_str()));
        assert(name_map(m) =~= before.insert(kv, field.name@));
        assert(fields@.take(i + 1).drop_last() =~= fields@.take(i as int));
        i += 1;
    }
    assert(fields@.take(i as int) =~= fields@);
    m
}

fn lower_custom_fields(id: &str, fields: &[CustomField]) -> (r: Vec<AuthoringField>)
    ensures
        field_models(r@) == custom_field_models(id@, fields@),
{
    let mut r: Vec<AuthoringField> = Vec::new();
    let mut i: usize = 0;
    while i < fields.len()
        invariant
            i <= fields@.len(),
            r@.len() == i,
            forall|k: int| 0 <= k < i ==> (#[trigger] r@[k])@ == custom_field_model(id@, fields@[k], k),
        decreases fields.len() - i,
    {
        let field = &fields[i];
        let key = match &field.key {
            Some(k) => k.as_str(),
            None => field.name.as_str(),
        };
        let cid = config_id("field", id, key);
        r.push(AuthoringField { name: owned(field.name.as_str()), ord: Some(i as u32), config_id: Some(cid), prevent_deletion: false });
        i += 1;
    }
    assert(field_models(r@) =~= custom_field_models(id@, fields@));
    r
}

fn lower_custom_template(document: &ProductDocument, id: &str, template: &CustomTemplate, ord: usize, question: String) -> (r:
    AuthoringTemplate)
    ensures
        r@ == custom_template_model(document@, id@, *template, ord as int, question@),
{
    let key = match &template.key {
        Some(k) => k.as_str(),
        None => template.name.as_str(),
    };
    let appearance = document.browser_appearance_for(id, template.name.as_str());
    let deck = document.template_target_deck_for(id, template.name.as_str());
    let (q_format, a_format, font_name, font_size) = match appearance {
        Some(a) => (a.question_format, a.answer_format, a.font_name, a.font_size),
        None => (None, None, None, None),
    };
    AuthoringTemplate {
        name: owned(template.name.as_str()),
        ord: Some(ord as u32),
        config_id: Some(config_id("template", id, key)),
        question_format: question,
        answer_format: owned(template.answer_format.as_str()),
        browser_question_format: q_format,
        browser_answer_format: a_format,
        target_deck_name: match deck {
            Some(d) => Some(d.deck_name),
            None => None,
        },
        browser_font_name: font_name,
        browser_font_size: font_size,
    }
}

proof fn lemma_templates_err_stays(
    doc: DocumentModel,
    id: Seq<char>,
    ts: Seq<CustomTemplate>,
    m: Map<Seq<char>, Seq<char>>,
    i: int,
    n: int,
)
    requires
        0 <= i <= n <= ts.len(),
        custom_templates_result(doc, id, ts.take(i), m) is Err,
    ensures
        custom_templates_result(doc, id, ts.take(n), m) == custom_templates_result(doc, id, ts.take(i), m),
    decreases n - i,
{
    if n > i {
        lemma_templates_err_stays(doc, id, ts, m, i, n - 1);
        assert(ts.take(n).drop_last() =~= ts.take(n - 1));
    }
}

/// Lowers a legacy custom note type, or gives the diagnostics that refuse it.
pub fn lower_custom_notetype(document: &ProductDocument, custom: &CustomNoteType) -> (r: Result<
    AuthoringNotetype,
    Vec<ProductDiagnostic>,
>)
    ensures
        match r {
            Ok(n) => custom_notetype_result(document@, *custom) == Ok::<NotetypeModel, Seq<DiagView>>(n@),
            Err(ds) => custom_notetype_result(document@, *custom) == Err::<NotetypeModel, Seq<DiagView>>(
                diag_views(ds@),
            ),
        },
{
    let ghost doc = document@;
    let duplicates = duplicate_custom_key_diagnostics(custom);
    if duplicates.len() > 0 {
        assert(custom_duplicate_diags(*custom).len() > 0);
        return Err(duplicates);
    }
    assert(custom_duplicate_diags(*custom).len() == 0);
    let helpers = document.helpers_for(custom.id.as_str());
    if helpers.len() > 0 {
        match apply_helpers("custom", "", "", helpers.as_slice()) {
            Ok(_) => {},
            Err(d) => {
                proof {
                    reveal_strlit("");
                    assert(helper_views(helpers@) =~= helpers@.map_values(|h: HelperDeclaration| h@));
                    assert(""@ =~= Seq::<char>::empty());
                    assert(entries_for(doc.helpers, custom.id@).len() > 0);
                    assert(apply_all("custom"@, Seq::empty(), entries_for(doc.helpers, custom.id@)) is None);
                }
                let ghost dv = diag_view(d);
                let mut v: Vec<ProductDiagnostic> = Vec::new();
                v.push(d);
                assert(diag_views(v@) =~= seq![dv]);
                return Err(v);
            },
        }
    }
    proof {
        reveal_strlit("");
        assert(helper_views(helpers@) =~= helpers@.map_values(|h: HelperDeclaration| h@));
        assert(""@ =~= Seq::<char>::empty());
    }
    assert(!(entries_for(doc.helpers, custom.id@).len() > 0 && apply_all(
        "custom"@,
        Seq::empty(),
        entries_for(doc.helpers, custom.id@),
    ) is None));
    let m = custom_name_map(custom.fields.as_slice());
    let ghost mm = fields_name_map(custom.fields@);
    let ghost ts = custom.templates@;
    let mut templates: Vec<AuthoringTemplate> = Vec::new();
    let mut i: usize = 0;
    assert(ts.take(0) =~= Seq::<CustomTemplate>::empty());
    assert(template_models(templates@) =~= Seq::<TemplateModel>::empty());
    while i < custom.templates.len()
        invariant
            i <= ts.len(),
            ts == custom.templates@,
            doc == document@,
            mm == fields_name_map(custom.fields@),
            name_map(m) == mm,
            custom_duplicate_diags(*custom).len() == 0,
            !(entries_for(doc.helpers, custom.id@).len() > 0 && apply_all(
                "custom"@,
                Seq::empty(),
                entries_for(doc.helpers, custom.id@),
            ) is None),
            custom_templates_result(doc, custom.id@, ts.take(i as int), mm) == Ok::<Seq<TemplateModel>, DiagView>(
                template_models(templates@),
            ),
        decreases custom.templates.len() - i,
    {
        let template = &custom.templates[i];
        assert(ts.take(i + 1).drop_last() =~= ts.take(i as int));
        assert(ts.take(i + 1).last() == *template);
        match lower_generation_rule_front(custom.id.as_str(), template, &m) {
            Ok(question) => {
                let lowered = lower_custom_template(document, custom.id.as_str(), template, i, question);
                let ghost lv = lowered@;
                let ghost before = template_models(templates@);
                templates.push(lowered);
                assert(template_models(templates@) =~= before.push(lv));
            },
            Err(d) => {
                proof {
                    lemma_templates_err_stays(doc, custom.id@, ts, mm, i + 1, ts.len() as int);
                    assert(ts.take(ts.len() as int) =~= ts);
                }
                let ghost dv = diag_view(d);
                let mut v: Vec<ProductDiagnostic> = Vec::new();
                v.push(d);
                assert(diag_views(v@) =~= seq![dv]);
                return Err(v);
            },
        }
        i += 1;
    }
    assert(ts.take(i as int) =~= ts);
    assert(custom_templates_result(doc, custom.id@, ts, mm) == Ok::<Seq<TemplateModel>, DiagView>(
        template_models(templates@),
    ));
    let no_metadata: Vec<AuthoringFieldMetadata> = Vec::new();
    let notetype = AuthoringNotetype {
        id: owned(custom.id.as_str()),
        kind: owned("normal"),
        name: copy_text(&custom.name),
        original_stock_kind: None,
        fields: Some(lower_custom_fields(custom.id.as_str(), custom.fields.as_slice())),
        templates: Some(templates),
        css: Some(
            match &custom.css {
                Some(c) => owned(c.as_str()),
                None => String::new(),
            },
        ),
        field_metadata: declared_metadata(document, custom.id.as_str(), no_metadata.as_slice()),
    };
    proof {
        assert(metadata_models(no_metadata@) =~= Seq::<FieldMetadataModel>::empty());
        assert(entries_for(doc.field_metadata, custom.id@) + Seq::<FieldMetadataModel>::empty() =~= entries_for(
            doc.field_metadata,
            custom.id@,
        ));
    }
    Ok(notetype)
}

// ---------------------------------------------------------------------------
// Where lowered note types came from
// ---------------------------------------------------------------------------

/// `<base>.templates[<quoted name>]`.
pub open spec fn template_path(base: Seq<char>, name: Seq<char>) -> Seq<char> {
    base + ".templates["@ + debug_quoted(name) + "]"@
}

/// The map after recording each template's front and back, and its browser
/// formats where it has them.
pub open spec fn with_template_paths(
    m: Map<Seq<char>, Seq<char>>,
    authoring: Seq<char>,
    product: Seq<char>,
    ts: Seq<TemplateModel>,
) -> Map<Seq<char>, Seq<char>>
    decreases ts.len(),
{
    if ts.len() == 0 {
        m
    } else {
        let t = ts.last();
        let a = template_path(authoring, t.name);
        let p = template_path(product, t.name);
        let m1 = with_template_paths(m, authoring, product, ts.drop_last()).insert(a + ".front"@, p + ".front"@).insert(
            a + ".back"@,
            p + ".back"@,
        );
        let m2 = if t.browser_question_format is Some {
            m1.insert(a + ".browser_front"@, p + ".browser_front"@)
        } else {
            m1
        };
        if t.browser_answer_format is Some {
            m2.insert(a + ".browser_back"@, p + ".browser_back"@)
        } else {
            m2
        }
    }
}

/// The base of a lowered note type's paths: by position when its id is
/// declared more than once, else by quoted id.
pub open spec fn notetype_base(prefix: Seq<char>, id: Seq<char>, index: nat, duplicate: bool) -> Seq<char> {
    if duplicate {
        prefix + "["@ + decimal(index) + "]"@
    } else {
        prefix + "["@ + debug_quoted(id) + "]"@
    }
}

/// The map after recording that a lowered note type's templates and
/// stylesheet, under `authoring`, came from under `product`.
pub open spec fn paths_between(
    m: Map<Seq<char>, Seq<char>>,
    authoring: Seq<char>,
    product: Seq<char>,
    n: NotetypeModel,
) -> Map<Seq<char>, Seq<char>> {
    let m1 = match n.templates {
        Some(ts) => with_template_paths(m, authoring, product, ts),
        None => m,
    };
    if n.css is Some {
        m1.insert(authoring + ".css"@, product + ".css"@)
    } else {
        m1
    }
}

/// The map after recording where a lowered note type's templates and
/// stylesheet came from.
pub open spec fn notetype_source_paths(
    m: Map<Seq<char>, Seq<char>>,
    n: NotetypeModel,
    index: nat,
    duplicate: bool,
) -> Map<Seq<char>, Seq<char>> {
    paths_between(
        m,
        notetype_base("authoring.note_types"@, n.id, index, duplicate),
        notetype_base("project.note_types"@, n.id, index, duplicate),
        n,
    )
}

fn notetype_base_of(prefix: &str, id: &str, index: usize, duplicate: bool) -> (r: String)
    ensures
        r@ == notetype_base(prefix@, id@, index as nat, duplicate),
{
    let inner = if duplicate {
        decimal_string(index)
    } else {
        debug_quote(id)
    };
    let mut r = concat3(prefix, "[", inner.as_str());
    r.append("]");
    r
}

pub(crate) fn template_path_of(base: &str, name: &str) -> (r: String)
    ensures
        r@ == template_path(base@, name@),
{
    let q = debug_quote(name);
    let mut r = concat3(base, ".templates[", q.as_str());
    r.append("]");
    r
}

fn suffixed(base: &str, suffix: &str) -> (r: String)
    ensures
        r@ == base@ + suffix@,
{
    crate::text::concat2(base, suffix)
}

/// Records where a lowered note type's templates and stylesheet came from.
pub fn record_notetype_source_paths(
    source_map: &mut ProductSourceMap,
    notetype: &AuthoringNotetype,
    product_notetype_index: usize,
    duplicate_product_notetype_id: bool,
)
    ensures
        final(source_map)@ == notetype_source_paths(
            old(source_map)@,
            notetype@,
            product_notetype_index as nat,
            duplicate_product_notetype_id,
        ),
{
    let a = notetype_base_of("authoring.note_types", notetype.id.as_str(), product_notetype_index, duplicate_product_notetype_id);
    let p = notetype_base_of("project.note_types", notetype.id.as_str(), product_notetype_index, duplicate_product_notetype_id);
    record_paths_between(source_map, a.as_str(), p.as_str(), notetype);
}

/// Records that a lowered note type's templates and stylesheet, under `a`,
/// came from under `p`.
pub(crate) fn record_paths_between(source_map: &mut ProductSourceMap, a: &str, p: &str, notetype: &AuthoringNotetype)
    ensures
        final(source_map)@ == paths_between(old(source_map)@, a@, p@, notetype@),
{
    match &notetype.templates {
        Some(templates) => {
            let ghost ts = template_models(templates@);
            let mut i: usize = 0;
            assert(ts.take(0) =~= Seq::<TemplateModel>::empty());
            while i < templates.len()
                invariant
                    i <= templates@.len(),
                    ts == template_models(templates@),
                    source_map@ == with_template_paths(old(source_map)@, a@, p@, ts.take(i as int)),
                decreases templates.len() - i,
            {
                let t = &templates[i];
                assert(ts.take(i + 1).drop_last() =~= ts.take(i as int));
                assert(ts.take(i + 1).last() == t@);
                let at = template_path_of(a, t.name.as_str());
                let pt = template_path_of(p, t.name.as_str());
                source_map.insert(suffixed(at.as_str(), ".front"), suffixed(pt.as_str(), ".front"));
                source_map.insert(suffixed(at.as_str(), ".back"), suffixed(pt.as_str(), ".back"));
                if t.browser_question_format.is_some() {
                    source_map.insert(suffixed(at.as_str(), ".browser_front"), suffixed(pt.as_str(), ".browser_front"));
                }
                if t.browser_answer_format.is_some() {
                    source_map.insert(suffixed(at.as_str(), ".browser_back"), suffixed(pt.as_str(), ".browser_back"));
                }
                i += 1;
            }
            assert(ts.take(i as int) =~= ts);
        },
        None => {},
    }
    if notetype.css.is_some() {
        source_map.insert(suffixed(a, ".css"), suffixed(p, ".css"));
    }
}

// ---------------------------------------------------------------------------
// Notes
// ---------------------------------------------------------------------------

pub type MappingView = (Seq<char>, Seq<char>, Seq<char>, Seq<char>);

pub open spec fn mapping_view(m: LoweringMapping) -> MappingView {
    (m.kind@, m.source_kind@, m.product_id@, m.authoring_id@)
}

pub open spec fn mapping_views(v: Seq<LoweringMapping>) -> Seq<MappingView> {
    v.map_values(|m: LoweringMapping| mapping_view(m))
}

pub open spec fn legacy_note_id(n: ProductNote) -> Seq<char> {
    match n {
        ProductNote::Basic(b) => b.id@,
        ProductNote::Cloze(c) => c.id@,
        ProductNote::ImageOcclusion(x) => x.id@,
        ProductNote::Custom(c) => c.id@,
    }
}

/// The names of a lowered note's fields, in ascending order.
pub open spec fn legacy_note_field_order(n: ProductNote) -> Seq<Seq<char>> {
    match n {
        ProductNote::Basic(_) => seq!["Back"@, "Front"@],
        ProductNote::Cloze(_) => seq!["Back Extra"@, "Text"@],
        ProductNote::ImageOcclusion(_) => seq!["Back Extra"@, "Comments"@, "Header"@, "Image"@, "Occlusion"@],
        ProductNote::Custom(c) => c.fields.keys(),
    }
}

/// What a legacy note lowers to: its fields by stock field name (custom
/// notes keep theirs); an image-occlusion note without an image is refused.
pub open spec fn legacy_note_result(n: ProductNote) -> Result<NoteModel, DiagView> {
    match n {
        ProductNote::Basic(b) => Ok(
            NoteModel {
                id: b.id@,
                notetype_id: b.note_type_id@,
                deck_name: b.deck_name@,
                fields: Map::empty().insert("Front"@, b.front@).insert("Back"@, b.back@),
                tags: string_views(b.tags@),
            },
        ),
        ProductNote::Cloze(c) => Ok(
            NoteModel {
                id: c.id@,
                notetype_id: c.note_type_id@,
                deck_name: c.deck_name@,
                fields: Map::empty().insert("Text"@, c.text@).insert("Back Extra"@, c.back_extra@),
                tags: string_views(c.tags@),
            },
        ),
        ProductNote::ImageOcclusion(x) => if trim_ws(x.image@).len() == 0 {
            Err(
                plain(
                    "PHASE5A.IO_IMAGE_REQUIRED"@,
                    "Image occlusion note '"@ + x.id@ + "' requires a non-empty image."@,
                ),
            )
        } else {
            Ok(
                NoteModel {
                    id: x.id@,
                    notetype_id: x.note_type_id@,
                    deck_name: x.deck_name@,
                    fields: Map::empty().insert("Occlusion"@, x.occlusion@).insert("Image"@, x.image@).insert(
                        "Header"@,
                        x.header@,
                    ).insert("Back Extra"@, x.back_extra@).insert("Comments"@, x.comments@),
                    tags: string_views(x.tags@),
                },
            )
        },
        ProductNote::Custom(c) => Ok(
            NoteModel {
                id: c.id@,
                notetype_id: c.note_type_id@,
                deck_name: c.deck_name@,
                fields: name_map(c.fields),
                tags: string_views(c.tags@),
            },
        ),
    }
}

/// What lowering the notes builds up.
pub struct NotesState {
    pub notes: Seq<NoteModel>,
    pub mappings: Seq<MappingView>,
    pub source: Map<Seq<char>, Seq<char>>,
    pub diagnostics: Seq<DiagView>,
}

/// One note more: a lowered note with its mapping and field sources, or its
/// diagnostic.
pub open spec fn note_step(st: NotesState, n: ProductNote) -> NotesState {
    match legacy_note_result(n) {
        Ok(note) => NotesState {
            notes: st.notes.push(note),
            mappings: st.mappings.push(("note"@, "note"@, legacy_note_id(n), legacy_note_id(n))),
            source: with_note_fields(
                st.source,
                legacy_note_id(n),
                "project.notes["@ + debug_quoted(legacy_note_id(n)) + "]"@,
                legacy_note_field_order(n),
            ),
            diagnostics: st.diagnostics,
        },
        Err(d) => NotesState { diagnostics: st.diagnostics.push(d), ..st },
    }
}

pub open spec fn notes_phase(st: NotesState, ns: Seq<ProductNote>) -> NotesState
    decreases ns.len(),
{
    if ns.len() == 0 {
        st
    } else {
        note_step(notes_phase(st, ns.drop_last()), ns.last())
    }
}

/// Lowering notes never takes a diagnostic back; while none is added, each
/// note lowers to one authoring note under its own id, in order.
proof fn lemma_notes_phase_keeps_notes(st: NotesState, ns: Seq<ProductNote>)
    ensures
        notes_phase(st, ns).diagnostics.len() >= st.diagnostics.len(),
        notes_phase(st, ns).diagnostics.len() == st.diagnostics.len() ==> {
            &&& notes_phase(st, ns).notes.len() == st.notes.len() + ns.len()
            &&& forall|i: int| 0 <= i < st.notes.len() ==> #[trigger] notes_phase(st, ns).notes[i] == st.notes[i]
            &&& forall|j: int|
                0 <= j < ns.len() ==> #[trigger] notes_phase(st, ns).notes[st.notes.len() + j].id
                    == legacy_note_id(ns[j])
        },
    decreases ns.len(),
{
    if ns.len() > 0 {
        let prev = notes_phase(st, ns.drop_last());
        lemma_notes_phase_keeps_notes(st, ns.drop_last());
        let n = ns.last();
        if notes_phase(st, ns).diagnostics.len() == st.diagnostics.len() {
            assert(legacy_note_result(n) is Ok);
            assert forall|j: int| 0 <= j < ns.len() implies #[trigger] notes_phase(st, ns).notes[st.notes.len()
                + j].id == legacy_note_id(ns[j]) by {
                if j < ns.len() - 1 {
                    assert(ns.drop_last()[j] == ns[j]);
                }
            }
        }
    }
}

fn text_list(values: &[&str]) -> (r: Vec<String>)
    ensures
        strs(r@) == values@.map_values(|s: &str| s@),
{
    let mut r: Vec<String> = Vec::new();
    let mut i: usize = 0;
    while i < values.len()
        invariant
            i <= values@.len(),
            strs(r@) == values@.map_values(|s: &str| s@).take(i as int),
        decreases values.len() - i,
    {
        let ghost before = strs(r@);
        r.push(owned(values[i]));
        assert(strs(r@) =~= before.push(values@[i as int]@));
        assert(values@.map_values(|s: &str| s@).take(i + 1) =~= values@.map_values(|s: &str| s@).take(i as int).push(
            values@[i as int]@,
        ));
        i += 1;
    }
    assert(values@.map_values(|s: &str| s@).take(i as int) =~= values@.map_values(|s: &str| s@));
    r
}

fn copy_string_map(m: &StrMap<String>) -> (r: StrMap<String>)
    ensures
        name_map(r) == name_map(*m),
{
    let n = m.len();
    let mut r: StrMap<String> = StrMap::new();
    let mut i: usize = 0;
    while i < n
        invariant
            i <= n,
            n == m.keys().len(),
            n == m.vals().len(),
            forall|j: int| 0 <= j < n ==> m.get_spec(#[trigger] m.keys()[j]) == Some(m.vals()[j]),
            forall|q: Seq<char>| #[trigger] m.get_spec(q) is Some ==> exists|j: int| 0 <= j < n && m.keys()[j] == q,
            forall|q: Seq<char>| #[trigger] opt_seq(r.get_spec(q)) == if exists|j: int| 0 <= j < i && m.keys()[j] == q {
                opt_seq(m.get_spec(q))
            } else {
                None
            },
        decreases n - i,
    {
        let key = m.key_at(i);
        let value = m.value_at(i);
        let ghost kv = key@;
        r.insert(owned(key.as_str()), owned(value.as_str()));
        proof {
            assert forall|q: Seq<char>| #[trigger] opt_seq(r.get_spec(q)) == if exists|j: int|
                0 <= j < i + 1 && m.keys()[j] == q {
                opt_seq(m.get_spec(q))
            } else {
                None
            } by {
                if q == kv {
                    assert(m.keys()[i as int] == q);
                } else {
                    if exists|j: int| 0 <= j < i + 1 && m.keys()[j] == q {
                        let j = choose|j: int| 0 <= j < i + 1 && m.keys()[j] == q;
                        assert(j < i);
                    }
                }
            }
        }
        i += 1;
    }
    proof {
        assert forall|q: Seq<char>| #[trigger] name_map(r).contains_key(q) == name_map(*m).contains_key(q) && (name_map(
            r,
        ).contains_key(q) ==> name_map(r)[q] == name_map(*m)[q]) by {
            assert(opt_seq(r.get_spec(q)) == if exists|j: int| 0 <= j < n && m.keys()[j] == q {
                opt_seq(m.get_spec(q))
            } else {
                None
            });
        }
        assert(name_map(r) =~= name_map(*m));
    }
    r
}

fn lower_legacy_note(note: &ProductNote) -> (r: Result<(AuthoringNote, Vec<String>), ProductDiagnostic>)
    ensures
        match r {
            Ok((n, order)) => legacy_note_result(*note) == Ok::<NoteModel, DiagView>(n@) && strs(order@)
                == legacy_note_field_order(*note),
            Err(d) => legacy_note_result(*note) == Err::<NoteModel, DiagView>(diag_view(d)),
        },
{
    match note {
        ProductNote::Basic(b) => {
            let mut fields: StrMap<String> = StrMap::new();
            fields.insert(owned("Front"), owned(b.front.as_str()));
            fields.insert(owned("Back"), owned(b.back.as_str()));
            let n = AuthoringNote {
                id: owned(b.id.as_str()),
                notetype_id: owned(b.note_type_id.as_str()),
                deck_name: owned(b.deck_name.as_str()),
                fields,
                tags: copy_strings(b.tags.as_slice()),
            };
            assert(n@.fields =~= Map::empty().insert("Front"@, b.front@).insert("Back"@, b.back@));
            let order = text_list(&["Back", "Front"]);
            Ok((n, order))
        },
        ProductNote::Cloze(c) => {
            let mut fields: StrMap<String> = StrMap::new();
            fields.insert(owned("Text"), owned(c.text.as_str()));
            fields.insert(owned("Back Extra"), owned(c.back_extra.as_str()));
            let n = AuthoringNote {
                id: owned(c.id.as_str()),
                notetype_id: owned(c.note_type_id.as_str()),
                deck_name: owned(c.deck_name.as_str()),
                fields,
                tags: copy_strings(c.tags.as_slice()),
            };
            assert(n@.fields =~= Map::empty().insert("Text"@, c.text@).insert("Back Extra"@, c.back_extra@));
            let order = text_list(&["Back Extra", "Text"]);
            Ok((n, order))
        },
        ProductNote::ImageOcclusion(x) => {
            if is_blank(x.image.as_str()) {
                return Err(ProductDiagnostic::io_image_required(x.id.as_str()));
            }
            let mut fields: StrMap<String> = StrMap::new();
            fields.insert(owned("Occlusion"), owned(x.occlusion.as_str()));
            fields.insert(owned("Image"), owned(x.image.as_str()));
            fields.insert(owned("Header"), owned(x.header.as_str()));
            fields.insert(owned("Back Extra"), owned(x.back_extra.as_str()));
            fields.insert(owned("Comments"), owned(x.comments.as_str()));
            let n = AuthoringNote {
                id: owned(x.id.as_str()),
                notetype_id: owned(x.note_type_id.as_str()),
                deck_name: owned(x.deck_name.as_str()),
                fields,
                tags: copy_strings(x.tags.as_slice()),
            };
            assert(n@.fields =~= Map::empty().insert("Occlusion"@, x.occlusion@).insert("Image"@, x.image@).insert(
                "Header"@,
                x.header@,
            ).insert("Back Extra"@, x.back_extra@).insert("Comments"@, x.comments@));
            let order = text_list(&["Back Extra", "Comments", "Header", "Image", "Occlusion"]);
            Ok((n, order))
        },
        ProductNote::Custom(c) => {
            let order = c.fields.key_list();
            assert(strs(order@) =~= c.fields.keys());
            let n = AuthoringNote {
                id: owned(c.id.as_str()),
                notetype_id: owned(c.note_type_id.as_str()),
                deck_name: owned(c.deck_name.as_str()),
                fields: copy_string_map(&c.fields),
                tags: copy_strings(c.tags.as_slice()),
            };
            Ok((n, order))
        },
    }
}

pub(crate) fn mapping(kind: &'static str, source_kind: &'static str, product_id: &str, authoring_id: &str) -> (m: LoweringMapping)
    ensures
        mapping_view(m) == (kind@, source_kind@, product_id@, authoring_id@),
{
    LoweringMapping { kind, source_kind, product_id: owned(product_id), authoring_id: owned(authoring_id) }
}

pub(crate) fn push_mapping(mappings: &mut Vec<LoweringMapping>, m: LoweringMapping)
    ensures
        mapping_views(final(mappings)@) == mapping_views(old(mappings)@).push(mapping_view(m)),
{
    let ghost mv = mapping_view(m);
    let ghost before = mapping_views(mappings@);
    mappings.push(m);
    assert(mapping_views(mappings@) =~= before.push(mv));
}

pub open spec fn notes_state(
    notes: Seq<AuthoringNote>,
    mappings: Seq<LoweringMapping>,
    source: Map<Seq<char>, Seq<char>>,
    diagnostics: Seq<ProductDiagnostic>,
) -> NotesState {
    NotesState {
        notes: crate::product::authoring::note_models(notes),
        mappings: mapping_views(mappings),
        source,
        diagnostics: diag_views(diagnostics),
    }
}

/// Lowers legacy notes in order onto what lowering has built so far.
pub fn lower_legacy_notes(
    notes: &[ProductNote],
    out: &mut Vec<AuthoringNote>,
    mappings: &mut Vec<LoweringMapping>,
    source_map: &mut ProductSourceMap,
    diagnostics: &mut Vec<ProductDiagnostic>,
)
    ensures
        notes_state(final(out)@, final(mappings)@, final(source_map)@, final(diagnostics)@) == notes_phase(
            notes_state(old(out)@, old(mappings)@, old(source_map)@, old(diagnostics)@),
            notes@,
        ),
{
    let ghost st0 = notes_state(out@, mappings@, source_map@, diagnostics@);
    let mut i: usize = 0;
    assert(notes@.take(0) =~= Seq::<ProductNote>::empty());
    while i < notes.len()
        invariant
            i <= notes@.len(),
            st0 == notes_state(old(out)@, old(mappings)@, old(source_map)@, old(diagnostics)@),
            notes_state(out@, mappings@, source_map@, diagnostics@) == notes_phase(st0, notes@.take(i as int)),
        decreases notes.len() - i,
    {
        let note = &notes[i];
        assert(notes@.take(i + 1).drop_last() =~= notes@.take(i as int));
        assert(notes@.take(i + 1).last() == *note);
        let ghost before = notes_state(out@, mappings@, source_map@, diagnostics@);
        match lower_legacy_note(note) {
            Ok((n, order)) => {
                let ghost nv = n@;
                let id = owned(n.id.as_str());
                record_note_field_source_paths(source_map, id.as_str(), order.as_slice());
                let ghost before_out = crate::product::authoring::note_models(out@);
                out.push(n);
                assert(crate::product::authoring::note_models(out@) =~= before_out.push(nv));
                push_mapping(mappings, mapping("note", "note", id.as_str(), id.as_str()));
                assert(legacy_note_id(*note) == id@);
            },
            Err(d) => {
                let ghost dv = diag_view(d);
                let ghost before_d = diag_views(diagnostics@);
                diagnostics.push(d);
                assert(diag_views(diagnostics@) =~= before_d.push(dv));
            },
        }
        assert(notes_state(out@, mappings@, source_map@, diagnostics@) == note_step(before, *note));
        i += 1;
    }
    assert(notes@.take(i as int) =~= notes@);
}

// ---------------------------------------------------------------------------
// Note types
// ---------------------------------------------------------------------------

/// The defaults that the stock note types of a legacy document lower from.
#[derive(Debug)]
pub struct LegacyStockDefaults {
    pub basic: StockLoweringDefaults,
    pub cloze: StockLoweringDefaults,
    pub image_occlusion: StockLoweringDefaults,
}

pub struct LegacyDefaultsModel {
    pub basic: DefaultsModel,
    pub cloze: DefaultsModel,
    pub image_occlusion: DefaultsModel,
}

pub open spec fn legacy_defaults(d: LegacyStockDefaults) -> LegacyDefaultsModel {
    LegacyDefaultsModel { basic: d.basic@, cloze: d.cloze@, image_occlusion: d.image_occlusion@ }
}

pub open spec fn notetype_id_of(n: ProductNoteType) -> Seq<char> {
    match n {
        ProductNoteType::Basic(t) => t.id@,
        ProductNoteType::Cloze(t) => t.id@,
        ProductNoteType::ImageOcclusion(t) => t.id@,
        ProductNoteType::Custom(t) => t.id@,
    }
}

/// How many of the note types declare `id`.
pub open spec fn id_count(nts: Seq<ProductNoteType>, id: Seq<char>) -> nat
    decreases nts.len(),
{
    if nts.len() == 0 {
        0
    } else {
        id_count(nts.drop_last(), id) + if notetype_id_of(nts.last()) == id {
            1nat
        } else {
            0nat
        }
    }
}

pub open spec fn stock_result(
    doc: DocumentModel,
    id: Seq<char>,
    name: Option<Seq<char>>,
    kind: Seq<char>,
    d: DefaultsModel,
) -> Result<NotetypeModel, Seq<DiagView>> {
    match stock_notetype_result(doc, id, name, kind, d, entries_for(doc.helpers, id)) {
        Ok(n) => Ok(n),
        Err(e) => Err(seq![e]),
    }
}

/// What one declared note type lowers to, or the diagnostics that refuse it.
pub open spec fn notetype_result(doc: DocumentModel, d: LegacyDefaultsModel, n: ProductNoteType) -> Result<
    NotetypeModel,
    Seq<DiagView>,
> {
    match n {
        ProductNoteType::Basic(t) => stock_result(doc, t.id@, opt_seq(t.name), "basic"@, d.basic),
        ProductNoteType::Cloze(t) => stock_result(doc, t.id@, opt_seq(t.name), "cloze"@, d.cloze),
        ProductNoteType::ImageOcclusion(t) => stock_result(
            doc,
            t.id@,
            opt_seq(t.name),
            "image_occlusion"@,
            d.image_occlusion,
        ),
        ProductNoteType::Custom(c) => custom_notetype_result(doc, c),
    }
}

/// What lowering the note types builds up.
pub struct NotetypesState {
    pub notetypes: Seq<NotetypeModel>,
    pub mappings: Seq<MappingView>,
    pub source: Map<Seq<char>, Seq<char>>,
    pub diagnostics: Seq<DiagView>,
}

/// The `i`-th note type more: lowered with its mapping and sources, or its
/// diagnostics.
pub open spec fn notetype_step(
    doc: DocumentModel,
    d: LegacyDefaultsModel,
    all: Seq<ProductNoteType>,
    st: NotetypesState,
    i: int,
) -> NotetypesState {
    let n = all[i];
    let id = notetype_id_of(n);
    match notetype_result(doc, d, n) {
        Ok(lowered) => NotetypesState {
            notetypes: st.notetypes.push(lowered),
            mappings: st.mappings.push(("notetype"@, "notetype"@, id, id)),
            source: notetype_source_paths(st.source, lowered, i as nat, id_count(all, id) > 1),
            diagnostics: st.diagnostics,
        },
        Err(ds) => NotetypesState { diagnostics: st.diagnostics + ds, ..st },
    }
}

pub open spec fn notetypes_phase(doc: DocumentModel, d: LegacyDefaultsModel, all: Seq<ProductNoteType>, n: int) -> NotetypesState
    decreases n,
{
    if n <= 0 {
        NotetypesState {
            notetypes: Seq::empty(),
            mappings: Seq::empty(),
            source: Map::empty(),
            diagnostics: Seq::empty(),
        }
    } else {
        notetype_step(doc, d, all, notetypes_phase(doc, d, all, n - 1), n - 1)
    }
}

fn count_ids(nts: &[ProductNoteType]) -> (r: StrMap<usize>)
    requires
        nts@.len() <= usize::MAX,
    ensures
        forall|id: Seq<char>| #[trigger] r.get_spec(id) == if id_count(nts@, id) > 0 {
            Some(id_count(nts@, id) as usize)
        } else {
            None
        },
        forall|id: Seq<char>| #[trigger] id_count(nts@, id) <= nts@.len(),
{
    let mut counts: StrMap<usize> = StrMap::new();
    let mut i: usize = 0;
    assert(nts@.take(0) =~= Seq::<ProductNoteType>::empty());
    while i < nts.len()
        invariant
            i <= nts@.len(),
            forall|id: Seq<char>| #[trigger] counts.get_spec(id) == if id_count(nts@.take(i as int), id) > 0 {
                Some(id_count(nts@.take(i as int), id) as usize)
            } else {
                None
            },
            forall|id: Seq<char>| #[trigger] id_count(nts@.take(i as int), id) <= i,
        decreases nts.len() - i,
    {
        let id = crate::product::lowering::product_notetype_id(&nts[i]);
        assert(nts@.take(i + 1).drop_last() =~= nts@.take(i as int));
        assert(nts@.take(i + 1).last() == nts@[i as int]);
        let ghost idv = id@;
        let current: usize = match counts.get(id) {
            Some(c) => *c,
            None => 0,
        };
        proof {
            assert(id_count(nts@.take(i as int), idv) <= i);
        }
        counts.insert(owned(id), current + 1);
        proof {
            assert forall|q: Seq<char>| #[trigger] id_count(nts@.take(i + 1), q) <= i + 1 by {
                assert(id_count(nts@.take(i as int), q) <= i);
            }
        }
        i += 1;
    }
    assert(nts@.take(i as int) =~= nts@);
    counts
}

fn lower_one_notetype(
    document: &ProductDocument,
    defaults: &LegacyStockDefaults,
    notetype: &ProductNoteType,
) -> (r: Result<AuthoringNotetype, Vec<ProductDiagnostic>>)
    ensures
        match r {
            Ok(n) => notetype_result(document@, legacy_defaults(*defaults), *notetype) == Ok::<
                NotetypeModel,
                Seq<DiagView>,
            >(n@),
            Err(ds) => notetype_result(document@, legacy_defaults(*defaults), *notetype) == Err::<
                NotetypeModel,
                Seq<DiagView>,
            >(diag_views(ds@)),
        },
{
    let (id, name, kind, stock) = match notetype {
        ProductNoteType::Custom(c) => {
            return lower_custom_notetype(document, c);
        },
        ProductNoteType::Basic(t) => (t.id.as_str(), &t.name, "basic", &defaults.basic),
        ProductNoteType::Cloze(t) => (t.id.as_str(), &t.name, "cloze", &defaults.cloze),
        ProductNoteType::ImageOcclusion(t) => (t.id.as_str(), &t.name, "image_occlusion", &defaults.image_occlusion),
    };
    let helpers = document.helpers_for(id);
    proof {
        assert(helper_views(helpers@) =~= helpers@.map_values(|h: HelperDeclaration| h@));
    }
    match lower_stock_notetype(document, id, copy_text(name), kind, stock, helpers.as_slice()) {
        Ok(n) => Ok(n),
        Err(d) => {
            let ghost dv = diag_view(d);
            let mut v: Vec<ProductDiagnostic> = Vec::new();
            v.push(d);
            assert(diag_views(v@) =~= seq![dv]);
            Err(v)
        },
    }
}

pub open spec fn notetypes_state(
    notetypes: Seq<AuthoringNotetype>,
    mappings: Seq<LoweringMapping>,
    source: Map<Seq<char>, Seq<char>>,
    diagnostics: Seq<ProductDiagnostic>,
) -> NotetypesState {
    NotetypesState {
        notetypes: crate::product::authoring::notetype_models(notetypes),
        mappings: mapping_views(mappings),
        source,
        diagnostics: diag_views(diagnostics),
    }
}

/// Lowers the declared note types in order.
pub fn lower_legacy_notetypes(
    document: &ProductDocument,
    defaults: &LegacyStockDefaults,
) -> (r: (Vec<AuthoringNotetype>, Vec<LoweringMapping>, ProductSourceMap, Vec<ProductDiagnostic>))
    requires
        document@.note_types.len() <= usize::MAX,
    ensures
        notetypes_state(r.0@, r.1@, r.2@, r.3@) == notetypes_phase(
            document@,
            legacy_defaults(*defaults),
            document@.note_types,
            document@.note_types.len() as int,
        ),
{
    let nts = document.note_types();
    let counts = count_ids(nts);
    let ghost all = nts@;
    let ghost doc = document@;
    let ghost dm = legacy_defaults(*defaults);
    let mut notetypes: Vec<AuthoringNotetype> = Vec::new();
    let mut mappings: Vec<LoweringMapping> = Vec::new();
    let mut source_map = ProductSourceMap::new();
    let mut diagnostics: Vec<ProductDiagnostic> = Vec::new();
    let mut i: usize = 0;
    assert(crate::product::authoring::notetype_models(notetypes@) =~= Seq::<NotetypeModel>::empty());
    assert(mapping_views(mappings@) =~= Seq::<MappingView>::empty());
    assert(diag_views(diagnostics@) =~= Seq::<DiagView>::empty());
    assert(notetypes_state(notetypes@, mappings@, source_map@, diagnostics@) == notetypes_phase(doc, dm, all, 0));
    while i < nts.len()
        invariant
            i <= all.len(),
            all == nts@,
            all == document@.note_types,
            doc == document@,
            dm == legacy_defaults(*defaults),
            forall|id: Seq<char>| #[trigger] counts.get_spec(id) == if id_count(all, id) > 0 {
                Some(id_count(all, id) as usize)
            } else {
                None
            },
            forall|id: Seq<char>| #[trigger] id_count(all, id) <= all.len(),
            notetypes_state(notetypes@, mappings@, source_map@, diagnostics@) == notetypes_phase(doc, dm, all, i as int),
        decreases nts.len() - i,
    {
        let notetype = &nts[i];
        let ghost before = notetypes_state(notetypes@, mappings@, source_map@, diagnostics@);
        let id = crate::product::lowering::product_notetype_id(notetype);
        let duplicate = match counts.get(id) {
            Some(c) => *c > 1,
            None => false,
        };
        assert(id@ == notetype_id_of(all[i as int]));
        assert(id_count(all, id@) <= all.len());
        assert(duplicate == (id_count(all, id@) > 1));
        match lower_one_notetype(document, defaults, notetype) {
            Ok(lowered) => {
                record_notetype_source_paths(&mut source_map, &lowered, i, duplicate);
                let ghost lv = lowered@;
                let ghost before_n = crate::product::authoring::notetype_models(notetypes@);
                notetypes.push(lowered);
                assert(crate::product::authoring::notetype_models(notetypes@) =~= before_n.push(lv));
                push_mapping(&mut mappings, mapping("notetype", "notetype", id, id));
            },
            Err(mut ds) => {
                let ghost before_d = diag_views(diagnostics@);
                let ghost added = diag_views(ds@);
                diagnostics.append(&mut ds);
                assert(diag_views(diagnostics@) =~= before_d + added);
            },
        }
        assert(notetypes_state(notetypes@, mappings@, source_map@, diagnostics@) == notetype_step(
            doc,
            dm,
            all,
            before,
            i as int,
        ));
        i += 1;
    }
    (notetypes, mappings, source_map, diagnostics)
}

// ---------------------------------------------------------------------------
// Bundled assets and font bindings
// ---------------------------------------------------------------------------

/// `namespace/filename`: how font bindings name a bundled asset.
pub open spec fn asset_identity(a: AssetModel) -> Seq<char> {
    a.namespace + "/"@ + a.filename
}

/// What lowering the assets builds up: the media, the export name of each
/// asset identity, and the mappings and sources so far.
pub struct AssetsState {
    pub media: Seq<MediaModel>,
    pub by_identity: Map<Seq<char>, Seq<char>>,
    pub mappings: Seq<MappingView>,
    pub source: Map<Seq<char>, Seq<char>>,
}

/// One asset more: inline media under its lowered name, mapped from its
/// identity, with its identity and media id recorded as sources.
pub open spec fn asset_step(st: AssetsState, a: AssetModel) -> AssetsState {
    let f = lowered_filename_of(a);
    let id = "media:"@ + f;
    AssetsState {
        media: st.media.push(
            MediaModel {
                id,
                desired_filename: f,
                source: MediaSourceModel::InlineBytes(a.data_base64),
                declared_mime: Some(a.mime),
            },
        ),
        by_identity: st.by_identity.insert(asset_identity(a), f),
        mappings: st.mappings.push(("media"@, "asset"@, asset_identity(a), f)),
        source: with_media(with_media(st.source, asset_identity(a), f, media_source_path_of(f)), id, f, media_source_path_of(f)),
    }
}

pub open spec fn assets_phase(st: AssetsState, assets: Seq<AssetModel>) -> AssetsState
    decreases assets.len(),
{
    if assets.len() == 0 {
        st
    } else {
        asset_step(assets_phase(st, assets.drop_last()), assets.last())
    }
}

fn lower_assets(
    assets: &[AssetSource],
    media: &mut Vec<AuthoringMedia>,
    by_identity: &mut StrMap<String>,
    mappings: &mut Vec<LoweringMapping>,
    source_map: &mut ProductSourceMap,
)
    ensures
        ({
            let after = assets_phase(
                AssetsState {
                    media: media_models(old(media)@),
                    by_identity: name_map(*old(by_identity)),
                    mappings: mapping_views(old(mappings)@),
                    source: old(source_map)@,
                },
                assets@.map_values(|a: AssetSource| a@),
            );
            &&& media_models(final(media)@) == after.media
            &&& name_map(*final(by_identity)) == after.by_identity
            &&& mapping_views(final(mappings)@) == after.mappings
            &&& final(source_map)@ == after.source
        }),
{
    let ghost st0 = AssetsState {
        media: media_models(media@),
        by_identity: name_map(*by_identity),
        mappings: mapping_views(mappings@),
        source: source_map@,
    };
    let ghost all = assets@.map_values(|a: AssetSource| a@);
    let mut i: usize = 0;
    assert(all.take(0) =~= Seq::<AssetModel>::empty());
    while i < assets.len()
        invariant
            i <= assets@.len(),
            all == assets@.map_values(|a: AssetSource| a@),
            st0 == (AssetsState {
                media: media_models(old(media)@),
                by_identity: name_map(*old(by_identity)),
                mappings: mapping_views(old(mappings)@),
                source: old(source_map)@,
            }),
            ({
                let st = assets_phase(st0, all.take(i as int));
                &&& media_models(media@) == st.media
                &&& name_map(*by_identity) == st.by_identity
                &&& mapping_views(mappings@) == st.mappings
                &&& source_map@ == st.source
            }),
        decreases assets.len() - i,
    {
        let asset = &assets[i];
        assert(all.take(i + 1).drop_last() =~= all.take(i as int));
        assert(all.take(i + 1).last() == asset@);
        let lowered = asset.lowered_filename();
        let media_id = crate::text::concat2("media:", lowered.as_str());
        let identity = asset.identity();
        let ghost bi = name_map(*by_identity);
        let ghost idv = identity@;
        by_identity.insert(owned(identity.as_str()), owned(lowered.as_str()));
        assert(name_map(*by_identity) =~= bi.insert(idv, lowered@));
        let item = AuthoringMedia {
            id: owned(media_id.as_str()),
            desired_filename: owned(lowered.as_str()),
            source: AuthoringMediaSource::InlineBytes { data_base64: owned(asset.data_base64()) },
            declared_mime: Some(owned(asset.mime())),
        };
        let ghost mv = item@;
        let ghost before_media = media_models(media@);
        media.push(item);
        assert(media_models(media@) =~= before_media.push(mv));
        let product_id = asset.product_id();
        push_mapping(mappings, mapping("media", "asset", product_id.as_str(), lowered.as_str()));
        record_media_source_path(source_map, product_id.as_str(), lowered.as_str());
        record_media_source_path(source_map, media_id.as_str(), lowered.as_str());
        i += 1;
    }
    assert(all.take(i as int) =~= all);
}

/// The position of the last lowered note type with id `id`.
pub open spec fn last_index_of(nts: Seq<NotetypeModel>, id: Seq<char>) -> Option<int>
    decreases nts.len(),
{
    if nts.len() == 0 {
        None
    } else if nts.last().id == id {
        Some(nts.len() - 1)
    } else {
        last_index_of(nts.drop_last(), id)
    }
}

proof fn lemma_last_index_in_range(nts: Seq<NotetypeModel>, id: Seq<char>)
    ensures
        last_index_of(nts, id) matches Some(k) ==> 0 <= k < nts.len() && nts[k].id == id,
    decreases nts.len(),
{
    if nts.len() > 0 && nts.last().id != id {
        lemma_last_index_in_range(nts.drop_last(), id);
    }
}

pub type LoweringDiagView = (Seq<char>, Seq<char>);

pub open spec fn lowering_views(v: Seq<LoweringDiagnostic>) -> Seq<LoweringDiagView> {
    v.map_values(|d: LoweringDiagnostic| (d.code@, d.message@))
}

/// One font binding more: the bound note type's stylesheet gains the font
/// face, unless the note type or the bundled asset is unknown, which is
/// reported.
pub open spec fn binding_step(
    st: (Seq<NotetypeModel>, Seq<LoweringDiagView>),
    by_identity: Map<Seq<char>, Seq<char>>,
    b: (Seq<char>, Seq<char>, Seq<char>),
) -> (Seq<NotetypeModel>, Seq<LoweringDiagView>) {
    let (nts, ds) = st;
    let (note_type_id, family, filename) = b;
    match last_index_of(nts, note_type_id) {
        None => (
            nts,
            ds.push(
                (
                    "PHASE5A.FONT_BINDING_UNKNOWN_NOTETYPE"@,
                    "font binding for note type '"@ + note_type_id + "' could not resolve a lowered notetype"@,
                ),
            ),
        ),
        Some(k) => if !by_identity.contains_key(note_type_id + "/"@ + filename) {
            (
                nts,
                ds.push(
                    (
                        "PRODUCT.MEDIA_HELPER_REFERENCE_UNREGISTERED"@,
                        "font binding for note type '"@ + note_type_id
                            + "' would reference unregistered bundled asset '"@ + filename + "'"@,
                    ),
                ),
            )
        } else {
            (
                nts.update(
                    k,
                    NotetypeModel {
                        css: Some(
                            with_font_face(
                                match nts[k].css {
                                    Some(c) => c,
                                    None => Seq::empty(),
                                },
                                family,
                                by_identity[note_type_id + "/"@ + filename],
                            ),
                        ),
                        ..nts[k]
                    },
                ),
                ds,
            )
        },
    }
}

pub open spec fn bindings_phase(
    st: (Seq<NotetypeModel>, Seq<LoweringDiagView>),
    by_identity: Map<Seq<char>, Seq<char>>,
    bs: Seq<(Seq<char>, Seq<char>, Seq<char>)>,
) -> (Seq<NotetypeModel>, Seq<LoweringDiagView>)
    decreases bs.len(),
{
    if bs.len() == 0 {
        st
    } else {
        binding_step(bindings_phase(st, by_identity, bs.drop_last()), by_identity, bs.last())
    }
}

/// The stylesheet of a lowered note type, empty when it has none.
pub open spec fn css_text(n: NotetypeModel) -> Seq<char> {
    match n.css {
        Some(c) => c,
        None => Seq::empty(),
    }
}

/// Font bindings change nothing but stylesheets, and only append to them:
/// each note type keeps its place and all else, its stylesheet begins with
/// what it was, and diagnostics are only added after those already there.
pub proof fn law_font_bindings_only_append_to_stylesheets(
    st: (Seq<NotetypeModel>, Seq<LoweringDiagView>),
    by_identity: Map<Seq<char>, Seq<char>>,
    bs: Seq<(Seq<char>, Seq<char>, Seq<char>)>,
)
    ensures
        bindings_phase(st, by_identity, bs).0.len() == st.0.len(),
        forall|i: int| 0 <= i < st.0.len() ==> (#[trigger] bindings_phase(st, by_identity, bs).0[i]) == (NotetypeModel {
            css: bindings_phase(st, by_identity, bs).0[i].css,
            ..st.0[i]
        }),
        forall|i: int| 0 <= i < st.0.len() ==> css_text(st.0[i]).is_prefix_of(
            css_text(#[trigger] bindings_phase(st, by_identity, bs).0[i]),
        ),
        st.1.is_prefix_of(bindings_phase(st, by_identity, bs).1),
    decreases bs.len(),
{
    if bs.len() > 0 {
        law_font_bindings_only_append_to_stylesheets(st, by_identity, bs.drop_last());
        let prev = bindings_phase(st, by_identity, bs.drop_last());
        let next = bindings_phase(st, by_identity, bs);
        let (note_type_id, family, filename) = bs.last();
        lemma_last_index_in_range(prev.0, note_type_id);
        match last_index_of(prev.0, note_type_id) {
            Some(k) => {
                if by_identity.contains_key(note_type_id + "/"@ + filename) {
                    let old_css = css_text(prev.0[k]);
                    let face = by_identity[note_type_id + "/"@ + filename];
                    let new_css = with_font_face(old_css, family, face);
                    assert(old_css.is_prefix_of(new_css)) by {
                        if old_css.len() > 0 {
                            assert forall|j: int| 0 <= j < old_css.len() implies new_css[j] == old_css[j] by {
                                assert(new_css[j] == old_css.push('\n')[j]);
                            }
                        }
                    }
                    assert forall|i: int| 0 <= i < st.0.len() implies css_text(st.0[i]).is_prefix_of(
                        css_text(#[trigger] next.0[i]),
                    ) by {
                        assert(css_text(st.0[i]).is_prefix_of(css_text(prev.0[i])));
                        if i == k {
                            assert(css_text(next.0[i]) == new_css);
                        } else {
                            assert(next.0[i] == prev.0[i]);
                        }
                    }
                }
            },
            None => {},
        }
        assert(st.1.is_prefix_of(next.1)) by {
            assert(st.1.is_prefix_of(prev.1));
            assert forall|j: int| 0 <= j < st.1.len() implies next.1[j] == st.1[j] by {
                assert(next.1.len() >= prev.1.len());
                assert(next.1[j] == prev.1[j]);
            }
        }
    }
}

fn find_last_notetype(notetypes: &Vec<AuthoringNotetype>, id: &str) -> (r: Option<usize>)
    ensures
        match r {
            Some(k) => last_index_of(notetype_models(notetypes@), id@) == Some(k as int),
            None => last_index_of(notetype_models(notetypes@), id@) is None,
        },
{
    let ghost nts = notetype_models(notetypes@);
    let mut k: usize = notetypes.len();
    assert(nts.take(k as int) =~= nts);
    while k > 0
        invariant
            k <= notetypes@.len(),
            nts == notetype_models(notetypes@),
            last_index_of(nts, id@) == last_index_of(nts.take(k as int), id@),
        decreases k,
    {
        assert(nts.take(k as int).drop_last() =~= nts.take(k - 1));
        assert(nts.take(k as int).last() == notetypes@[k - 1]@);
        if crate::text::str_eq(notetypes[k - 1].id.as_str(), id) {
            return Some(k - 1);
        }
        k -= 1;
    }
    None
}

fn apply_font_bindings(
    bindings: &[FontBinding],
    by_identity: &StrMap<String>,
    notetypes: &mut Vec<AuthoringNotetype>,
    diagnostics: &mut Vec<LoweringDiagnostic>,
)
    ensures
        (notetype_models(final(notetypes)@), lowering_views(final(diagnostics)@)) == bindings_phase(
            (notetype_models(old(notetypes)@), lowering_views(old(diagnostics)@)),
            name_map(*by_identity),
            bindings@.map_values(|b: FontBinding| binding_view(b)),
        ),
{
    let ghost bs = bindings@.map_values(|b: FontBinding| binding_view(b));
    let ghost st0 = (notetype_models(notetypes@), lowering_views(diagnostics@));
    let mut i: usize = 0;
    assert(bs.take(0) =~= Seq::<(Seq<char>, Seq<char>, Seq<char>)>::empty());
    while i < bindings.len()
        invariant
            i <= bindings@.len(),
            bs == bindings@.map_values(|b: FontBinding| binding_view(b)),
            st0 == (notetype_models(old(notetypes)@), lowering_views(old(diagnostics)@)),
            (notetype_models(notetypes@), lowering_views(diagnostics@)) == bindings_phase(
                st0,
                name_map(*by_identity),
                bs.take(i as int),
            ),
        decreases bindings.len() - i,
    {
        let binding = &bindings[i];
        assert(bs.take(i + 1).drop_last() =~= bs.take(i as int));
        assert(bs.take(i + 1).last() == binding_view(*binding));
        let ghost before = (notetype_models(notetypes@), lowering_views(diagnostics@));
        match find_last_notetype(notetypes, binding.note_type_id.as_str()) {
            None => {
                let message = concat3(
                    "font binding for note type '",
                    binding.note_type_id.as_str(),
                    "' could not resolve a lowered notetype",
                );
                let ghost dv = ("PHASE5A.FONT_BINDING_UNKNOWN_NOTETYPE"@, message@);
                diagnostics.push(LoweringDiagnostic { code: "PHASE5A.FONT_BINDING_UNKNOWN_NOTETYPE", message });
                assert(lowering_views(diagnostics@) =~= before.1.push(dv));
            },
            Some(k) => {
                let identity = concat3(binding.note_type_id.as_str(), "/", binding.filename.as_str());
                match by_identity.get(identity.as_str()) {
                    None => {
                        let mut message = concat3(
                            "font binding for note type '",
                            binding.note_type_id.as_str(),
                            "' would reference unregistered bundled asset '",
                        );
                        message.append(binding.filename.as_str());
                        message.append("'");
                        let ghost dv = ("PRODUCT.MEDIA_HELPER_REFERENCE_UNREGISTERED"@, message@);
                        diagnostics.push(
                            LoweringDiagnostic { code: "PRODUCT.MEDIA_HELPER_REFERENCE_UNREGISTERED", message },
                        );
                        assert(lowering_views(diagnostics@) =~= before.1.push(dv));
                    },
                    Some(media_filename) => {
                        proof {
                            lemma_last_index_in_range(before.0, binding.note_type_id@);
                        }
                        let mut list: Vec<AuthoringNotetype> = Vec::new();
                        std::mem::swap(&mut list, notetypes);
                        assert(list@.len() == before.0.len());
                        let mut target = list.remove(k);
                        let css = target.css;
                        target.css = Some(append_font_face(css, binding.family.as_str(), media_filename.as_str()));
                        let ghost tv = target@;
                        list.insert(k, target);
                        std::mem::swap(&mut list, notetypes);
                        assert(notetype_models(notetypes@) =~= before.0.update(k as int, tv));
                    },
                }
            },
        }
        i += 1;
    }
    assert(bs.take(i as int) =~= bs);
}

// ---------------------------------------------------------------------------
// The legacy document
// ---------------------------------------------------------------------------

/// The model of a lowering plan.
pub struct PlanModel {
    pub document_id: Seq<char>,
    pub notetypes: Seq<NotetypeModel>,
    pub notes: Seq<NoteModel>,
    pub media: Seq<MediaModel>,
    pub mappings: Seq<MappingView>,
    pub source: Map<Seq<char>, Seq<char>>,
    pub lowering_diagnostics: Seq<LoweringDiagView>,
}

pub open spec fn plan_model(p: LoweringPlan) -> PlanModel {
    PlanModel {
        document_id: p.authoring_document.metadata_document_id@,
        notetypes: notetype_models(p.authoring_document.notetypes@),
        notes: note_models(p.authoring_document.notes@),
        media: media_models(p.authoring_document.media@),
        mappings: mapping_views(p.mappings@),
        source: p.source_map@,
        lowering_diagnostics: lowering_views(p.lowering_diagnostics@),
    }
}

/// What a legacy document lowers to: its note types, then its notes, then
/// its bundled assets, then its font bindings, in declaration order; any
/// product diagnostic refuses the whole document.
pub open spec fn legacy_plan(doc: DocumentModel, d: LegacyDefaultsModel) -> Result<PlanModel, Seq<DiagView>> {
    let p1 = notetypes_phase(doc, d, doc.note_types, doc.note_types.len() as int);
    let p2 = notes_phase(
        NotesState { notes: Seq::empty(), mappings: p1.mappings, source: p1.source, diagnostics: p1.diagnostics },
        doc.notes,
    );
    let p3 = assets_phase(
        AssetsState { media: Seq::empty(), by_identity: Map::empty(), mappings: p2.mappings, source: p2.source },
        doc.assets,
    );
    let p4 = bindings_phase((p1.notetypes, Seq::empty()), p3.by_identity, doc.font_bindings);
    if p2.diagnostics.len() > 0 {
        Err(p2.diagnostics)
    } else {
        Ok(
            PlanModel {
                document_id: doc.document_id,
                notetypes: p4.0,
                notes: p2.notes,
                media: p3.media,
                mappings: p3.mappings,
                source: p3.source,
                lowering_diagnostics: p4.1,
            },
        )
    }
}

/// Lowers a legacy product document; refused with its product diagnostics
/// when there are any.
pub fn lower_legacy_product_document(document: &ProductDocument, defaults: &LegacyStockDefaults) -> (r: Result<
    LoweringPlan,
    ProductLoweringError,
>)
    requires
        document@.note_types.len() <= usize::MAX,
    ensures
        match r {
            Ok(plan) => legacy_plan(document@, legacy_defaults(*defaults)) == Ok::<PlanModel, Seq<DiagView>>(
                plan_model(plan),
            ) && plan.product_diagnostics@.len() == 0 && plan.authoring_document.kind@ == "authoring-ir"@
                && plan.authoring_document.schema_version@ == "0.1.0"@,
            Err(e) => legacy_plan(document@, legacy_defaults(*defaults)) == Err::<PlanModel, Seq<DiagView>>(
                diag_views(e.product_diagnostics@),
            ) && e.lowering_diagnostics@.len() == 0,
        },
{
    let ghost doc = document@;
    let (notetypes, mut mappings, mut source_map, mut product_diagnostics) = lower_legacy_notetypes(document, defaults);
    let mut notetypes = notetypes;
    let mut notes: Vec<AuthoringNote> = Vec::new();
    assert(note_models(notes@) =~= Seq::<NoteModel>::empty());
    lower_legacy_notes(document.notes(), &mut notes, &mut mappings, &mut source_map, &mut product_diagnostics);
    let mut media: Vec<AuthoringMedia> = Vec::new();
    let mut by_identity: StrMap<String> = StrMap::new();
    assert(media_models(media@) =~= Seq::<MediaModel>::empty());
    assert(name_map(by_identity) =~= Map::<Seq<char>, Seq<char>>::empty());
    lower_assets(document.assets(), &mut media, &mut by_identity, &mut mappings, &mut source_map);
    let mut lowering_diagnostics: Vec<LoweringDiagnostic> = Vec::new();
    assert(lowering_views(lowering_diagnostics@) =~= Seq::<LoweringDiagView>::empty());
    apply_font_bindings(document.font_bindings(), &by_identity, &mut notetypes, &mut lowering_diagnostics);
    if product_diagnostics.len() > 0 {
        return Err(ProductLoweringError { product_diagnostics, lowering_diagnostics: Vec::new() });
    }
    Ok(
        LoweringPlan {
            authoring_document: AuthoringDocument {
                kind: owned("authoring-ir"),
                schema_version: owned("0.1.0"),
                metadata_document_id: owned(document.document_id()),
                notetypes,
                notes,
                media,
            },
            mappings,
            source_map,
            product_diagnostics: Vec::new(),
            lowering_diagnostics,
        },
    )
}

/// A legacy document that lowers keeps every note: the plan holds one
/// authoring note per product note, in declaration order, each under the
/// product note's id.
pub proof fn law_legacy_lowering_keeps_every_note(doc: DocumentModel, d: LegacyDefaultsModel)
    requires
        legacy_plan(doc, d) is Ok,
    ensures
        legacy_plan(doc, d)->Ok_0.notes.len() == doc.notes.len(),
        forall|i: int|
            0 <= i < doc.notes.len() ==> #[trigger] legacy_plan(doc, d)->Ok_0.notes[i].id == legacy_note_id(
                doc.notes[i],
            ),
{
    let p1 = notetypes_phase(doc, d, doc.note_types, doc.note_types.len() as int);
    let st = NotesState { notes: Seq::empty(), mappings: p1.mappings, source: p1.source, diagnostics: p1.diagnostics };
    lemma_notes_phase_keeps_notes(st, doc.notes);
    assert forall|i: int| 0 <= i < doc.notes.len() implies #[trigger] legacy_plan(doc, d)->Ok_0.notes[i].id
        == legacy_note_id(doc.notes[i]) by {
        assert(notes_phase(st, doc.notes).notes[0 + i].id == legacy_note_id(doc.notes[i]));
    }
}

} // verus!
