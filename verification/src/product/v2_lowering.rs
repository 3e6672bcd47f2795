//! Lowering the note types and media of a product-v2 document.

use vstd::prelude::*;

use crate::product::authoring::{
    field_models, template_models, AuthoringField, AuthoringMedia, AuthoringMediaSource, AuthoringNotetype,
    AuthoringTemplate, DefaultsModel, FieldModel, MediaModel, MediaSourceModel, NotetypeModel, StockLoweringDefaults,
    TemplateModel, media_models, notetype_models,
};
use crate::product::diagnostics::ProductDiagnostic;
use crate::product::legacy_lowering::{
    config_id, mapping, mapping_views, push_mapping, stable_config_id_of, template_path, template_path_of,
    MappingView,
};
use crate::product::lowering::{
    diag_views, lower_product_v2_generation_rule_front, name_map, plain, push_diagnostic,
    record_v2_media_source_path, v2_front_of, v2_rule, v2_rule_diags, validate_product_v2_generation_rule,
    with_media, DiagView, LoweringMapping, ProductSourceMap, RuleModel,
};
use crate::product::media_registry::media_source_path_of;
use crate::product::model::{
    opt_seq, ProductCustomNoteTypeV2, ProductFieldV2, ProductGenerationRuleV2, ProductIdentityV2,
    ProductMediaSourceV2, ProductMediaV2, ProductNoteTypeV2, ProductStockNoteTypeV2, ProductTemplateV2,
};
use crate::str_map::StrMap;
use crate::text::{concat2, concat3, debug_quote, debug_quoted, decimal, decimal_string, owned, str_eq};

verus! {

// ---------------------------------------------------------------------------
// Note types
// ---------------------------------------------------------------------------

/// Each field's key mapped to its name, later fields winning.
pub open spec fn v2_key_names(fields: Seq<ProductFieldV2>) -> Map<Seq<char>, Seq<char>>
    decreases fields.len(),
{
    if fields.len() == 0 {
        Map::empty()
    } else {
        v2_key_names(fields.drop_last()).insert(fields.last().key@, fields.last().name@)
    }
}

pub(crate) fn key_name_map(fields: &[ProductFieldV2]) -> (m: StrMap<String>)
    ensures
        name_map(m) == v2_key_names(fields@),
{
    let mut m: StrMap<String> = StrMap::new();
    let mut i: usize = 0;
    assert(fields@.take(0) =~= Seq::<ProductFieldV2>::empty());
    assert(name_map(m) =~= Map::<Seq<char>, Seq<char>>::empty());
    while i < fields.len()
        invariant
            i <= fields@.len(),
            name_map(m) == v2_key_names(fields@.take(i as int)),
        decreases fields.len() - i,
    {
        let field = &fields[i];
        assert(fields@.take(i + 1).drop_last() =~= fields@.take(i as int));
        assert(fields@.take(i + 1).last() == *field);
        let ghost before = name_map(m);
        m.insert(owned(field.key.as_str()), owned(field.name.as_str()));
        assert(name_map(m) =~= before.insert(field.key@, field.name@));
        i += 1;
    }
    assert(fields@.take(i as int) =~= fields@);
    m
}

/// What checking the generation rules of some templates reports, template
/// by template.
pub open spec fn v2_template_diags(id: Seq<char>, ts: Seq<ProductTemplateV2>, m: Map<Seq<char>, Seq<char>>) -> Seq<
    DiagView,
>
    decreases ts.len(),
{
    if ts.len() == 0 {
        Seq::empty()
    } else {
        v2_template_diags(id, ts.drop_last(), m) + match ts.last().generation_rule {
            Some(g) => v2_rule_diags(id, ts.last().name@, v2_rule(g), m),
            None => Seq::empty(),
        }
    }
}

pub open spec fn opt_rule(o: Option<ProductGenerationRuleV2>) -> Option<RuleModel> {
    match o {
        Some(g) => Some(v2_rule(g)),
        None => None,
    }
}

/// The authoring form of the `ord`-th field of a custom note type.
pub open spec fn v2_field_model(id: Seq<char>, f: ProductFieldV2, ord: int) -> FieldModel {
    FieldModel {
        name: f.name@,
        ord: Some(ord as u32),
        config_id: Some(stable_config_id_of("field"@, id, f.key@)),
        prevent_deletion: false,
    }
}

/// The authoring form of the `ord`-th template of a custom note type: its
/// front with its generation rule applied.
pub open spec fn v2_template_model(
    id: Seq<char>,
    t: ProductTemplateV2,
    ord: int,
    m: Map<Seq<char>, Seq<char>>,
) -> TemplateModel {
    TemplateModel {
        name: t.name@,
        ord: Some(ord as u32),
        config_id: Some(stable_config_id_of("template"@, id, t.key@)),
        question_format: v2_front_of(id, t.name@, t.front@, opt_rule(t.generation_rule), m),
        answer_format: t.back@,
        browser_question_format: None,
        browser_answer_format: None,
        target_deck_name: None,
        browser_font_name: None,
        browser_font_size: None,
    }
}

/// The authoring form of a product-v2 custom note type.
pub open spec fn v2_custom_notetype(c: ProductCustomNoteTypeV2) -> NotetypeModel {
    let m = v2_key_names(c.fields@);
    NotetypeModel {
        id: c.id@,
        kind: "normal"@,
        name: opt_seq(c.name),
        original_stock_kind: None,
        fields: Some(Seq::new(c.fields@.len(), |i: int| v2_field_model(c.id@, c.fields@[i], i))),
        templates: Some(Seq::new(c.templates@.len(), |i: int| v2_template_model(c.id@, c.templates@[i], i, m))),
        css: Some(
            match opt_seq(c.css) {
                Some(s) => s,
                None => Seq::empty(),
            },
        ),
        field_metadata: Seq::empty(),
    }
}

/// The authoring form of a product-v2 stock note type: the defaults of its
/// kind under its id, renamed when it has a name.
pub open spec fn v2_stock_notetype(stock: ProductStockNoteTypeV2, d: DefaultsModel) -> NotetypeModel {
    NotetypeModel {
        id: stock.id@,
        kind: d.kind,
        name: Some(
            match opt_seq(stock.name) {
                Some(n) => n,
                None => d.name,
            },
        ),
        original_stock_kind: Some(d.original_stock_kind),
        fields: Some(d.fields),
        templates: Some(d.templates),
        css: Some(d.css),
        field_metadata: d.field_metadata,
    }
}

/// Lowers a product-v2 stock note type from the defaults of its kind.
pub fn lower_product_v2_stock_notetype(stock: &ProductStockNoteTypeV2, defaults: StockLoweringDefaults) -> (r:
    AuthoringNotetype)
    ensures
        r@ == v2_stock_notetype(*stock, defaults@),
{
    let name = match &stock.name {
        Some(n) => owned(n.as_str()),
        None => defaults.name,
    };
    AuthoringNotetype {
        id: owned(stock.id.as_str()),
        kind: defaults.kind,
        name: Some(name),
        original_stock_kind: Some(defaults.original_stock_kind),
        fields: Some(defaults.fields),
        templates: Some(defaults.templates),
        css: Some(defaults.css),
        field_metadata: defaults.field_metadata,
    }
}

fn lower_v2_fields(id: &str, fields: &[ProductFieldV2]) -> (r: Vec<AuthoringField>)
    ensures
        field_models(r@) == Seq::new(fields@.len(), |i: int| v2_field_model(id@, fields@[i], i)),
{
    let mut r: Vec<AuthoringField> = Vec::new();
    let mut i: usize = 0;
    while i < fields.len()
        invariant
            i <= fields@.len(),
            r@.len() == i,
            forall|k: int| 0 <= k < i ==> (#[trigger] r@[k])@ == v2_field_model(id@, fields@[k], k),
        decreases fields.len() - i,
    {
        let field = &fields[i];
        let cid = config_id("field", id, field.key.as_str());
        r.push(AuthoringField { name: owned(field.name.as_str()), ord: Some(i as u32), config_id: Some(cid), prevent_deletion: false });
        i += 1;
    }
    assert(field_models(r@) =~= Seq::new(fields@.len(), |i: int| v2_field_model(id@, fields@[i], i)));
    r
}

/// Lowers a product-v2 custom note type; what its templates' generation
/// rules report is added to `diagnostics`.
pub fn lower_product_v2_custom_notetype(diagnostics: &mut Vec<ProductDiagnostic>, custom: &ProductCustomNoteTypeV2) -> (r:
    AuthoringNotetype)
    ensures
        r@ == v2_custom_notetype(*custom),
        diag_views(final(diagnostics)@) == diag_views(old(diagnostics)@) + v2_template_diags(
            custom.id@,
            custom.templates@,
            v2_key_names(custom.fields@),
        ),
{
    let m = key_name_map(custom.fields.as_slice());
    let ghost mm = v2_key_names(custom.fields@);
    let ghost ts = custom.templates@;
    let ghost base = diag_views(diagnostics@);
    let mut templates: Vec<AuthoringTemplate> = Vec::new();
    let mut i: usize = 0;
    assert(ts.take(0) =~= Seq::<ProductTemplateV2>::empty());
    assert(base + Seq::<DiagView>::empty() =~= base);
    while i < custom.templates.len()
        invariant
            i <= ts.len(),
            ts == custom.templates@,
            name_map(m) == mm,
            mm == v2_key_names(custom.fields@),
            templates@.len() == i,
            forall|k: int| 0 <= k < i ==> (#[trigger] templates@[k])@ == v2_template_model(custom.id@, ts[k], k, mm),
            diag_views(diagnostics@) == base + v2_template_diags(custom.id@, ts.take(i as int), mm),
        decreases custom.templates.len() - i,
    {
        let template = &custom.templates[i];
        assert(ts.take(i + 1).drop_last() =~= ts.take(i as int));
        assert(ts.take(i + 1).last() == *template);
        let ghost before = diag_views(diagnostics@);
        let question = lower_product_v2_generation_rule_front(
            diagnostics,
            custom.id.as_str(),
            template.name.as_str(),
            template.front.as_str(),
            template.generation_rule.as_ref(),
            &m,
        );
        assert(diag_views(diagnostics@) =~= base + v2_template_diags(custom.id@, ts.take(i + 1), mm));
        let cid = config_id("template", custom.id.as_str(), template.key.as_str());
        templates.push(
            AuthoringTemplate {
                name: owned(template.name.as_str()),
                ord: Some(i as u32),
                config_id: Some(cid),
                question_format: question,
                answer_format: owned(template.back.as_str()),
                browser_question_format: None,
                browser_answer_format: None,
                target_deck_name: None,
                browser_font_name: None,
                browser_font_size: None,
            },
        );
        i += 1;
    }
    assert(ts.take(i as int) =~= ts);
    let ghost tm = template_models(templates@);
    assert(tm =~= Seq::new(ts.len(), |k: int| v2_template_model(custom.id@, ts[k], k, mm)));
    let fields = lower_v2_fields(custom.id.as_str(), custom.fields.as_slice());
    let css = match &custom.css {
        Some(c) => owned(c.as_str()),
        None => String::new(),
    };
    let name = match &custom.name {
        Some(n) => Some(owned(n.as_str())),
        None => None,
    };
    let r = AuthoringNotetype {
        id: owned(custom.id.as_str()),
        kind: owned("normal"),
        name,
        original_stock_kind: None,
        fields: Some(fields),
        templates: Some(templates),
        css: Some(css),
        field_metadata: Vec::new(),
    };
    assert(r@.field_metadata =~= Seq::empty());
    r
}

/// Checks the generation rules of a product-v2 stock note type's templates
/// against its fields, reporting each problem.
pub fn validate_v2_stock_generation_rules(diagnostics: &mut Vec<ProductDiagnostic>, stock: &ProductStockNoteTypeV2)
    ensures
        diag_views(final(diagnostics)@) == diag_views(old(diagnostics)@) + v2_template_diags(
            stock.id@,
            stock.templates@,
            v2_key_names(stock.fields@),
        ),
{
    let m = key_name_map(stock.fields.as_slice());
    let ghost mm = v2_key_names(stock.fields@);
    let ghost ts = stock.templates@;
    let ghost base = diag_views(diagnostics@);
    let mut i: usize = 0;
    assert(ts.take(0) =~= Seq::<ProductTemplateV2>::empty());
    assert(base + Seq::<DiagView>::empty() =~= base);
    while i < stock.templates.len()
        invariant
            i <= ts.len(),
            ts == stock.templates@,
            name_map(m) == mm,
            diag_views(diagnostics@) == base + v2_template_diags(stock.id@, ts.take(i as int), mm),
        decreases stock.templates.len() - i,
    {
        let template = &stock.templates[i];
        assert(ts.take(i + 1).drop_last() =~= ts.take(i as int));
        assert(ts.take(i + 1).last() == *template);
        let ghost before = diag_views(diagnostics@);
        match &template.generation_rule {
            Some(rule) => {
                validate_product_v2_generation_rule(
                    diagnostics,
                    stock.id.as_str(),
                    template.name.as_str(),
                    rule,
                    &m,
                );
            },
            None => {
                assert(before + Seq::<DiagView>::empty() =~= before);
            },
        }
        assert(diag_views(diagnostics@) =~= base + v2_template_diags(stock.id@, ts.take(i + 1), mm));
        i += 1;
    }
    assert(ts.take(i as int) =~= ts);
}

// ---------------------------------------------------------------------------
// Where lowered note types came from
// ---------------------------------------------------------------------------

/// `<prefix>[<index>]`.
pub open spec fn indexed_path(prefix: Seq<char>, index: nat) -> Seq<char> {
    prefix + "["@ + decimal(index) + "]"@
}

/// A declared source path, else `<prefix>[<index>]`.
pub open spec fn declared_or_indexed(source_path: Option<Seq<char>>, prefix: Seq<char>, index: nat) -> Seq<char> {
    match source_path {
        Some(p) => p,
        None => indexed_path(prefix, index),
    }
}

/// The map after recording each template's front and back.
pub open spec fn v2_template_paths(
    m: Map<Seq<char>, Seq<char>>,
    authoring: Seq<char>,
    source: Seq<char>,
    ts: Seq<TemplateModel>,
) -> Map<Seq<char>, Seq<char>>
    decreases ts.len(),
{
    if ts.len() == 0 {
        m
    } else {
        let name = ts.last().name;
        v2_template_paths(m, authoring, source, ts.drop_last()).insert(
            template_path(authoring, name) + ".front"@,
            template_path(source, name) + ".front"@,
        ).insert(template_path(authoring, name) + ".back"@, template_path(source, name) + ".back"@)
    }
}

/// The map after recording where a lowered product-v2 note type came from:
/// the note type by id and by position, its templates, its stylesheet.
pub open spec fn v2_notetype_paths(
    m: Map<Seq<char>, Seq<char>>,
    n: NotetypeModel,
    source_path: Option<Seq<char>>,
    index: nat,
) -> Map<Seq<char>, Seq<char>> {
    let source = declared_or_indexed(source_path, "product_v2.note_types"@, index);
    let a = "authoring.note_types["@ + debug_quoted(n.id) + "]"@;
    let m1 = m.insert(a, source).insert(indexed_path("product_v2.note_types"@, index), source);
    let m2 = match n.templates {
        Some(ts) => v2_template_paths(m1, a, source, ts),
        None => m1,
    };
    if n.css is Some {
        m2.insert(a + ".css"@, source + ".css"@)
    } else {
        m2
    }
}

fn indexed(prefix: &str, index: usize) -> (r: String)
    ensures
        r@ == indexed_path(prefix@, index as nat),
{
    let d = decimal_string(index);
    let mut r = concat3(prefix, "[", d.as_str());
    r.append("]");
    r
}

fn record_v2_template_paths(
    source_map: &mut ProductSourceMap,
    authoring: &str,
    source: &str,
    templates: &[AuthoringTemplate],
)
    ensures
        final(source_map)@ == v2_template_paths(old(source_map)@, authoring@, source@, template_models(templates@)),
{
    let ghost ts = template_models(templates@);
    let mut i: usize = 0;
    assert(ts.take(0) =~= Seq::<TemplateModel>::empty());
    while i < templates.len()
        invariant
            i <= templates@.len(),
            ts == template_models(templates@),
            source_map@ == v2_template_paths(old(source_map)@, authoring@, source@, ts.take(i as int)),
        decreases templates.len() - i,
    {
        assert(ts.take(i + 1).drop_last() =~= ts.take(i as int));
        assert(ts.take(i + 1).last() == templates@[i as int]@);
        let name = templates[i].name.as_str();
        let a = template_path_of(authoring, name);
        let p = template_path_of(source, name);
        source_map.insert(concat2(a.as_str(), ".front"), concat2(p.as_str(), ".front"));
        source_map.insert(concat2(a.as_str(), ".back"), concat2(p.as_str(), ".back"));
        i += 1;
    }
    assert(ts.take(i as int) =~= ts);
}

pub open spec fn opt_str(o: Option<&str>) -> Option<Seq<char>> {
    match o {
        Some(s) => Some(s@),
        None => None,
    }
}

/// Records where a lowered product-v2 note type came from: its declared
/// source path, else `product_v2.note_types[<index>]`.
pub fn record_v2_notetype_source_paths(
    source_map: &mut ProductSourceMap,
    notetype: &AuthoringNotetype,
    source_path: Option<&str>,
    index: usize,
)
    ensures
        final(source_map)@ == v2_notetype_paths(old(source_map)@, notetype@, opt_str(source_path), index as nat),
{
    let by_index = indexed("product_v2.note_types", index);
    let source = match source_path {
        Some(p) => owned(p),
        None => owned(by_index.as_str()),
    };
    let q = debug_quote(notetype.id.as_str());
    let a = concat3("authoring.note_types[", q.as_str(), "]");
    source_map.insert(owned(a.as_str()), owned(source.as_str()));
    source_map.insert(by_index, owned(source.as_str()));
    match &notetype.templates {
        Some(ts) => record_v2_template_paths(source_map, a.as_str(), source.as_str(), ts.as_slice()),
        None => {},
    }
    if notetype.css.is_some() {
        source_map.insert(concat2(a.as_str(), ".css"), concat2(source.as_str(), ".css"));
    }
}

// ---------------------------------------------------------------------------
// The note-type declarations of a document
// ---------------------------------------------------------------------------

/// What lowering note-type declarations has built so far.
pub struct V2TypesState {
    pub notetypes: Seq<NotetypeModel>,
    pub mappings: Seq<MappingView>,
    pub source: Map<Seq<char>, Seq<char>>,
    pub diagnostics: Seq<DiagView>,
}

/// One note-type declaration more, the `index`-th: a stock note type of a
/// supported kind from its defaults, a custom one unless it takes a stock
/// id, anything else reported.
pub open spec fn v2_notetype_step(
    st: V2TypesState,
    nt: ProductNoteTypeV2,
    index: nat,
    basic: DefaultsModel,
    cloze: DefaultsModel,
) -> V2TypesState {
    match nt {
        ProductNoteTypeV2::Stock(stock) => if stock.id@ != "basic"@ && stock.id@ != "cloze"@ {
            V2TypesState {
                diagnostics: st.diagnostics.push(
                    plain(
                        "PRODUCT.STOCK_NOTE_TYPE_INVALID"@,
                        "stock note type '"@ + stock.id@ + "' is not supported in product-v2"@,
                    ),
                ),
                ..st
            }
        } else {
            let lowered = v2_stock_notetype(stock, if stock.id@ == "basic"@ { basic } else { cloze });
            let n = match opt_seq(stock.css) {
                Some(c) => NotetypeModel { css: Some(c), ..lowered },
                None => lowered,
            };
            V2TypesState {
                notetypes: st.notetypes.push(n),
                mappings: st.mappings.push(("notetype"@, "product_v2.notetype"@, stock.id@, n.id)),
                source: v2_notetype_paths(st.source, n, opt_seq(stock.source_path), index),
                diagnostics: st.diagnostics + v2_template_diags(stock.id@, stock.templates@, v2_key_names(stock.fields@)),
            }
        },
        ProductNoteTypeV2::Custom(c) => if c.id@ == "basic"@ || c.id@ == "cloze"@ {
            V2TypesState {
                diagnostics: st.diagnostics.push(
                    plain(
                        "PRODUCT.RESERVED_ID_KIND_MISMATCH"@,
                        "custom note type '"@ + c.id@ + "' uses a reserved stock id"@,
                    ),
                ),
                ..st
            }
        } else {
            let identity = if c.identity matches Some(ProductIdentityV2::Unknown(_)) {
                seq![
                    plain(
                        "PRODUCT.IDENTITY_KIND_UNSUPPORTED"@,
                        "custom note type '"@ + c.id@ + "' uses an unsupported identity kind"@,
                    ),
                ]
            } else {
                Seq::empty()
            };
            let n = v2_custom_notetype(c);
            V2TypesState {
                notetypes: st.notetypes.push(n),
                mappings: st.mappings.push(("notetype"@, "product_v2.notetype"@, c.id@, n.id)),
                source: v2_notetype_paths(st.source, n, opt_seq(c.source_path), index),
                diagnostics: st.diagnostics + identity + v2_template_diags(c.id@, c.templates@, v2_key_names(c.fields@)),
            }
        },
        ProductNoteTypeV2::Unknown(u) => V2TypesState {
            diagnostics: st.diagnostics.push(
                plain("PRODUCT.UNSUPPORTED_KIND"@, "unsupported product-v2 note type kind '"@ + u.kind@ + "'"@),
            ),
            ..st
        },
    }
}

pub open spec fn v2_notetypes_phase(
    st: V2TypesState,
    nts: Seq<ProductNoteTypeV2>,
    basic: DefaultsModel,
    cloze: DefaultsModel,
) -> V2TypesState
    decreases nts.len(),
{
    if nts.len() == 0 {
        st
    } else {
        v2_notetype_step(v2_notetypes_phase(st, nts.drop_last(), basic, cloze), nts.last(), (nts.len() - 1) as nat, basic, cloze)
    }
}

/// Lowered note types and their mappings stay in step: the `i`-th mapping
/// names the `i`-th lowered note type.
pub open spec fn mapped_in_step(st: V2TypesState) -> bool {
    &&& st.notetypes.len() == st.mappings.len()
    &&& forall|i: int| 0 <= i < st.notetypes.len() ==> (#[trigger] st.mappings[i]).3 == st.notetypes[i].id
}

/// Lowering note-type declarations keeps every lowered note type mapped:
/// a declaration adds a note type and its mapping together, or neither.
pub proof fn law_v2_notetypes_stay_mapped(
    st: V2TypesState,
    nts: Seq<ProductNoteTypeV2>,
    basic: DefaultsModel,
    cloze: DefaultsModel,
)
    requires
        mapped_in_step(st),
    ensures
        mapped_in_step(v2_notetypes_phase(st, nts, basic, cloze)),
    decreases nts.len(),
{
    if nts.len() > 0 {
        law_v2_notetypes_stay_mapped(st, nts.drop_last(), basic, cloze);
        let prev = v2_notetypes_phase(st, nts.drop_last(), basic, cloze);
        let next = v2_notetypes_phase(st, nts, basic, cloze);
        assert forall|i: int| 0 <= i < next.notetypes.len() implies (#[trigger] next.mappings[i]).3 == next.notetypes[i].id by {
            if i < prev.notetypes.len() {
                assert(prev.mappings[i].3 == prev.notetypes[i].id);
            }
        }
    }
}

pub open spec fn types_state(
    notetypes: Seq<AuthoringNotetype>,
    mappings: Seq<LoweringMapping>,
    source: Map<Seq<char>, Seq<char>>,
    diagnostics: Seq<ProductDiagnostic>,
) -> V2TypesState {
    V2TypesState {
        notetypes: notetype_models(notetypes),
        mappings: mapping_views(mappings),
        source,
        diagnostics: diag_views(diagnostics),
    }
}

pub(crate) fn opt_as_str(o: &Option<String>) -> (r: Option<&str>)
    ensures
        opt_str(r) == opt_seq(*o),
{
    match o {
        Some(s) => Some(s.as_str()),
        None => None,
    }
}

/// Lowers a product-v2 document's note-type declarations in order, with
/// `basic` and `cloze` the defaults of the stock kinds.
pub fn lower_product_v2_note_types(
    note_types: &[ProductNoteTypeV2],
    basic: &StockLoweringDefaults,
    cloze: &StockLoweringDefaults,
    notetypes: &mut Vec<AuthoringNotetype>,
    mappings: &mut Vec<LoweringMapping>,
    source_map: &mut ProductSourceMap,
    diagnostics: &mut Vec<ProductDiagnostic>,
)
    ensures
        types_state(final(notetypes)@, final(mappings)@, final(source_map)@, final(diagnostics)@) == v2_notetypes_phase(
            types_state(old(notetypes)@, old(mappings)@, old(source_map)@, old(diagnostics)@),
            note_types@,
            basic@,
            cloze@,
        ),
{
    let ghost st0 = types_state(notetypes@, mappings@, source_map@, diagnostics@);
    let ghost all = note_types@;
    let mut i: usize = 0;
    assert(all.take(0) =~= Seq::<ProductNoteTypeV2>::empty());
    while i < note_types.len()
        invariant
            i <= all.len(),
            all == note_types@,
            st0 == types_state(old(notetypes)@, old(mappings)@, old(source_map)@, old(diagnostics)@),
            types_state(notetypes@, mappings@, source_map@, diagnostics@) == v2_notetypes_phase(
                st0,
                all.take(i as int),
                basic@,
                cloze@,
            ),
        decreases note_types.len() - i,
    {
        let declaration = &note_types[i];
        assert(all.take(i + 1).drop_last() =~= all.take(i as int));
        assert(all.take(i + 1).last() == *declaration);
        let ghost st = types_state(notetypes@, mappings@, source_map@, diagnostics@);
        let ghost nts_before = notetype_models(notetypes@);
        match declaration {
            ProductNoteTypeV2::Stock(stock) => {
                if !str_eq(stock.id.as_str(), "basic") && !str_eq(stock.id.as_str(), "cloze") {
                    let message = concat3("stock note type '", stock.id.as_str(), "' is not supported in product-v2");
                    push_diagnostic(diagnostics, "PRODUCT.STOCK_NOTE_TYPE_INVALID", message);
                } else {
                    validate_v2_stock_generation_rules(diagnostics, stock);
                    let defaults = if str_eq(stock.id.as_str(), "basic") {
                        basic.duplicate()
                    } else {
                        cloze.duplicate()
                    };
                    let mut lowered = lower_product_v2_stock_notetype(stock, defaults);
                    match &stock.css {
                        Some(c) => {
                            lowered.css = Some(owned(c.as_str()));
                        },
                        None => {},
                    }
                    record_v2_notetype_source_paths(source_map, &lowered, opt_as_str(&stock.source_path), i);
                    push_mapping(mappings, mapping("notetype", "product_v2.notetype", stock.id.as_str(), lowered.id.as_str()));
                    let ghost lv = lowered@;
                    notetypes.push(lowered);
                    assert(notetype_models(notetypes@) =~= nts_before.push(lv));
                }
            },
            ProductNoteTypeV2::Custom(custom) => {
                if str_eq(custom.id.as_str(), "basic") || str_eq(custom.id.as_str(), "cloze") {
                    let message = concat3("custom note type '", custom.id.as_str(), "' uses a reserved stock id");
                    push_diagnostic(diagnostics, "PRODUCT.RESERVED_ID_KIND_MISMATCH", message);
                } else {
                    let ghost d0 = diag_views(diagnostics@);
                    match &custom.identity {
                        Some(ProductIdentityV2::Unknown(_)) => {
                            let message = concat3(
                                "custom note type '",
                                custom.id.as_str(),
                                "' uses an unsupported identity kind",
                            );
                            push_diagnostic(diagnostics, "PRODUCT.IDENTITY_KIND_UNSUPPORTED", message);
                        },
                        _ => {
                            assert(d0 + Seq::<DiagView>::empty() =~= d0);
                        },
                    }
                    let ghost d1 = diag_views(diagnostics@);
                    let lowered = lower_product_v2_custom_notetype(diagnostics, custom);
                    proof {
                        let identity = if custom.identity matches Some(ProductIdentityV2::Unknown(_)) {
                            seq![
                                plain(
                                    "PRODUCT.IDENTITY_KIND_UNSUPPORTED"@,
                                    "custom note type '"@ + custom.id@ + "' uses an unsupported identity kind"@,
                                ),
                            ]
                        } else {
                            Seq::empty()
                        };
                        assert(d1 =~= d0 + identity);
                        assert(diag_views(diagnostics@) =~= d0 + identity + v2_template_diags(
                            custom.id@,
                            custom.templates@,
                            v2_key_names(custom.fields@),
                        ));
                    }
                    record_v2_notetype_source_paths(source_map, &lowered, opt_as_str(&custom.source_path), i);
                    push_mapping(mappings, mapping("notetype", "product_v2.notetype", custom.id.as_str(), lowered.id.as_str()));
                    let ghost lv = lowered@;
                    notetypes.push(lowered);
                    assert(notetype_models(notetypes@) =~= nts_before.push(lv));
                }
            },
            ProductNoteTypeV2::Unknown(unknown) => {
                let message = concat3("unsupported product-v2 note type kind '", unknown.kind.as_str(), "'");
                push_diagnostic(diagnostics, "PRODUCT.UNSUPPORTED_KIND", message);
            },
        }
        assert(types_state(notetypes@, mappings@, source_map@, diagnostics@) == v2_notetype_step(
            st,
            *declaration,
            i as nat,
            basic@,
            cloze@,
        ));
        i += 1;
    }
    assert(all.take(i as int) =~= all);
}

// ---------------------------------------------------------------------------
// The media declarations of a document
// ---------------------------------------------------------------------------

/// Where a product-v2 media object came from: its declared source path,
/// else `project.media[<quoted export name>]`.
pub open spec fn v2_media_source(m: ProductMediaV2) -> Seq<char> {
    match opt_seq(m.source_path) {
        Some(p) => p,
        None => media_source_path_of(m.export_as@),
    }
}

/// One media declaration more: a file or inline bytes become authoring
/// media under the export name, recorded with their source; a source of
/// unknown kind is reported.
pub open spec fn v2_media_step(
    st: (Seq<MediaModel>, Map<Seq<char>, Seq<char>>, Seq<DiagView>),
    m: ProductMediaV2,
) -> (Seq<MediaModel>, Map<Seq<char>, Seq<char>>, Seq<DiagView>) {
    let recorded = with_media(st.1, m.id@, m.export_as@, v2_media_source(m));
    match m.source {
        ProductMediaSourceV2::File { path } => (
            st.0.push(
                MediaModel {
                    id: m.id@,
                    desired_filename: m.export_as@,
                    source: MediaSourceModel::Path(path@),
                    declared_mime: None,
                },
            ),
            recorded,
            st.2,
        ),
        ProductMediaSourceV2::InlineBase64 { source_label: _, data_base64 } => (
            st.0.push(
                MediaModel {
                    id: m.id@,
                    desired_filename: m.export_as@,
                    source: MediaSourceModel::InlineBytes(data_base64@),
                    declared_mime: None,
                },
            ),
            recorded,
            st.2,
        ),
        ProductMediaSourceV2::Unknown(u) => (
            st.0,
            st.1,
            st.2.push(
                plain(
                    "PRODUCT.MEDIA_SOURCE_KIND_UNSUPPORTED"@,
                    "media '"@ + m.id@ + "' uses unsupported source kind '"@ + u.kind@ + "'"@,
                ),
            ),
        ),
    }
}

pub open spec fn v2_media_phase(
    st: (Seq<MediaModel>, Map<Seq<char>, Seq<char>>, Seq<DiagView>),
    ms: Seq<ProductMediaV2>,
) -> (Seq<MediaModel>, Map<Seq<char>, Seq<char>>, Seq<DiagView>)
    decreases ms.len(),
{
    if ms.len() == 0 {
        st
    } else {
        v2_media_step(v2_media_phase(st, ms.drop_last()), ms.last())
    }
}

/// Lowers a product-v2 document's media declarations in order.
pub fn lower_product_v2_media(
    declared: &[ProductMediaV2],
    media: &mut Vec<AuthoringMedia>,
    source_map: &mut ProductSourceMap,
    diagnostics: &mut Vec<ProductDiagnostic>,
)
    ensures
        (media_models(final(media)@), final(source_map)@, diag_views(final(diagnostics)@)) == v2_media_phase(
            (media_models(old(media)@), old(source_map)@, diag_views(old(diagnostics)@)),
            declared@,
        ),
{
    let ghost st0 = (media_models(media@), source_map@, diag_views(diagnostics@));
    let ghost all = declared@;
    let mut i: usize = 0;
    assert(all.take(0) =~= Seq::<ProductMediaV2>::empty());
    while i < declared.len()
        invariant
            i <= all.len(),
            all == declared@,
            st0 == (media_models(old(media)@), old(source_map)@, diag_views(old(diagnostics)@)),
            (media_models(media@), source_map@, diag_views(diagnostics@)) == v2_media_phase(st0, all.take(i as int)),
        decreases declared.len() - i,
    {
        let item = &declared[i];
        assert(all.take(i + 1).drop_last() =~= all.take(i as int));
        assert(all.take(i + 1).last() == *item);
        let ghost before = media_models(media@);
        match &item.source {
            ProductMediaSourceV2::File { path } => {
                let lowered = AuthoringMedia {
                    id: owned(item.id.as_str()),
                    desired_filename: owned(item.export_as.as_str()),
                    source: AuthoringMediaSource::Path { path: owned(path.as_str()) },
                    declared_mime: None,
                };
                let ghost mv = lowered@;
                media.push(lowered);
                assert(media_models(media@) =~= before.push(mv));
                record_v2_media_source_path(
                    source_map,
                    item.id.as_str(),
                    item.export_as.as_str(),
                    opt_as_str(&item.source_path),
                );
            },
            ProductMediaSourceV2::InlineBase64 { source_label: _, data_base64 } => {
                let lowered = AuthoringMedia {
                    id: owned(item.id.as_str()),
                    desired_filename: owned(item.export_as.as_str()),
                    source: AuthoringMediaSource::InlineBytes { data_base64: owned(data_base64.as_str()) },
                    declared_mime: None,
                };
                let ghost mv = lowered@;
                media.push(lowered);
                assert(media_models(media@) =~= before.push(mv));
                record_v2_media_source_path(
                    source_map,
                    item.id.as_str(),
                    item.export_as.as_str(),
                    opt_as_str(&item.source_path),
                );
            },
            ProductMediaSourceV2::Unknown(unknown) => {
                let mut message = concat3("media '", item.id.as_str(), "' uses unsupported source kind '");
                message.append(unknown.kind.as_str());
                message.append("'");
                push_diagnostic(diagnostics, "PRODUCT.MEDIA_SOURCE_KIND_UNSUPPORTED", message);
            },
        }
        i += 1;
    }
    assert(all.take(i as int) =~= all);
}

} // verus!
