//! How a project turns the diagnostics of lowering, normalization and
//! writing into its own diagnostics, statuses and messages.

use vstd::prelude::*;

pub mod builder;
pub mod media_references;
pub mod media_prepare;
pub mod paths;

pub use builder::{Project, ProjectModel};

use crate::build::{BuildStatus, ComparisonStatus, RiskLevel};
use crate::risk::model::max_level;
use crate::risk::rules::{classification, classify_import_risk, diag_models, RiskInput};
use crate::diff::{ArtifactDiffChange, BuildDiffSummary, EvidenceRef};
use crate::risk::model::{evidence_views, finding_views, FindingModel, ImportRiskFinding, ImportRiskReport};
use crate::diagnostics::{diagnostic_views, Diagnostic, DiagnosticModel, Severity};
use crate::product::diagnostics::{LoweringDiagnostic, ProductDiagnostic, ProductLoweringError};
use crate::product::lowering::{diagnostic_source, ProductSourceMap};
use crate::text::{concat3, debug_quote, debug_quoted, decimal, decimal_string, ends_with, join, occurs_at, owned, replace_all, replace_all_seq, starts_with, str_eq, concat_all, views};

verus! {

// ---------------------------------------------------------------------------
// Statuses and severities
// ---------------------------------------------------------------------------

/// The build status a writer's status word stands for; anything unknown is
/// an error.
pub fn build_status_from_writer_result(status: &str) -> (s: BuildStatus)
    ensures
        s == if status@ == "success"@ {
            BuildStatus::Success
        } else if status@ == "invalid"@ {
            BuildStatus::Invalid
        } else {
            BuildStatus::Error
        },
{
    if str_eq(status, "success") {
        BuildStatus::Success
    } else if str_eq(status, "invalid") {
        BuildStatus::Invalid
    } else {
        BuildStatus::Error
    }
}

/// Invalid when some diagnostic is an error, else success.
pub fn diagnostics_status(diagnostics: &[Diagnostic]) -> (s: BuildStatus)
    ensures
        s == if exists|i: int| 0 <= i < diagnostics@.len() && #[trigger] diagnostics@[i].severity == Severity::Error {
            BuildStatus::Invalid
        } else {
            BuildStatus::Success
        },
{
    let mut i: usize = 0;
    while i < diagnostics.len()
        invariant
            i <= diagnostics@.len(),
            forall|k: int| 0 <= k < i ==> #[trigger] diagnostics@[k].severity != Severity::Error,
        decreases diagnostics.len() - i,
    {
        if diagnostics[i].severity == Severity::Error {
            assert(diagnostics@[i as int].severity == Severity::Error);
            return BuildStatus::Invalid;
        }
        i += 1;
    }
    BuildStatus::Success
}

pub open spec fn severity_of_level(level: Seq<char>) -> Severity {
    if level == "error"@ {
        Severity::Error
    } else if level == "warning"@ {
        Severity::Warning
    } else {
        Severity::Info
    }
}

/// The severity a normalization level word stands for; anything unknown is
/// informational.
pub fn severity_from_level(level: &str) -> (s: Severity)
    ensures
        s == severity_of_level(level@),
{
    if str_eq(level, "error") {
        Severity::Error
    } else if str_eq(level, "warning") {
        Severity::Warning
    } else {
        Severity::Info
    }
}

pub open spec fn lowering_severity(code: Seq<char>) -> Severity {
    if code == "PHASE5A.FONT_BINDING_UNKNOWN_NOTETYPE"@ || code == "PRODUCT.MEDIA_HELPER_REFERENCE_UNREGISTERED"@ {
        Severity::Error
    } else {
        Severity::Warning
    }
}

/// Lowering diagnostics are warnings, but for an unknown font-binding note
/// type or an unregistered helper asset.
pub fn lowering_diagnostic_severity(code: &str) -> (s: Severity)
    ensures
        s == lowering_severity(code@),
{
    if str_eq(code, "PHASE5A.FONT_BINDING_UNKNOWN_NOTETYPE") || str_eq(
        code,
        "PRODUCT.MEDIA_HELPER_REFERENCE_UNREGISTERED",
    ) {
        Severity::Error
    } else {
        Severity::Warning
    }
}

// ---------------------------------------------------------------------------
// Mapping lowering diagnostics
// ---------------------------------------------------------------------------

/// A product diagnostic as a project diagnostic: an error at its source path,
/// else at `project.lower`.
pub open spec fn product_diagnostic_model(d: ProductDiagnostic) -> DiagnosticModel {
    DiagnosticModel {
        code: d.code@,
        severity: Severity::Error,
        domain: None,
        stage: None,
        message: d.message@,
        source: Some(
            match d.source_path {
                Some(p) => p@,
                None => "project.lower"@,
            },
        ),
        help: None,
    }
}

/// A lowering diagnostic as a project diagnostic at `project.lower`.
pub open spec fn lowering_diagnostic_model(d: LoweringDiagnostic) -> DiagnosticModel {
    DiagnosticModel {
        code: d.code@,
        severity: lowering_severity(d.code@),
        domain: None,
        stage: None,
        message: d.message@,
        source: Some("project.lower"@),
        help: None,
    }
}

fn map_product_diagnostic(d: &ProductDiagnostic) -> (r: Diagnostic)
    ensures
        r@ == product_diagnostic_model(*d),
{
    Diagnostic {
        code: owned(d.code),
        severity: Severity::Error,
        domain: None,
        stage: None,
        message: owned(d.message.as_str()),
        source: Some(
            match &d.source_path {
                Some(p) => owned(p.as_str()),
                None => owned("project.lower"),
            },
        ),
        help: None,
    }
}

fn map_lowering_diagnostic(d: &LoweringDiagnostic) -> (r: Diagnostic)
    ensures
        r@ == lowering_diagnostic_model(*d),
{
    Diagnostic {
        code: owned(d.code),
        severity: lowering_diagnostic_severity(d.code),
        domain: None,
        stage: None,
        message: owned(d.message.as_str()),
        source: Some(owned("project.lower")),
        help: None,
    }
}

fn push_product_diagnostics(out: &mut Vec<Diagnostic>, diagnostics: &[ProductDiagnostic])
    ensures
        diagnostic_views(final(out)@) == diagnostic_views(old(out)@) + diagnostics@.map_values(
            |d: ProductDiagnostic| product_diagnostic_model(d),
        ),
{
    let ghost base = diagnostic_views(out@);
    let mut i: usize = 0;
    while i < diagnostics.len()
        invariant
            i <= diagnostics@.len(),
            diagnostic_views(out@) == base + diagnostics@.take(i as int).map_values(
                |d: ProductDiagnostic| product_diagnostic_model(d),
            ),
        decreases diagnostics.len() - i,
    {
        let d = map_product_diagnostic(&diagnostics[i]);
        let ghost dv = d@;
        let ghost before = diagnostic_views(out@);
        out.push(d);
        assert(diagnostic_views(out@) =~= before.push(dv));
        assert(diagnostics@.take(i + 1) =~= diagnostics@.take(i as int).push(diagnostics@[i as int]));
        assert(diagnostics@.take(i + 1).map_values(|d: ProductDiagnostic| product_diagnostic_model(d)) =~= diagnostics@.take(i as int).map_values(
            |d: ProductDiagnostic| product_diagnostic_model(d),
        ).push(product_diagnostic_model(diagnostics@[i as int])));
        assert(diagnostic_views(out@) =~= base + diagnostics@.take(i + 1).map_values(
            |d: ProductDiagnostic| product_diagnostic_model(d),
        ));
        i += 1;
    }
    assert(diagnostics@.take(i as int) =~= diagnostics@);
}

fn push_lowering_diagnostics(out: &mut Vec<Diagnostic>, diagnostics: &[LoweringDiagnostic])
    ensures
        diagnostic_views(final(out)@) == diagnostic_views(old(out)@) + diagnostics@.map_values(
            |d: LoweringDiagnostic| lowering_diagnostic_model(d),
        ),
{
    let ghost base = diagnostic_views(out@);
    let mut i: usize = 0;
    while i < diagnostics.len()
        invariant
            i <= diagnostics@.len(),
            diagnostic_views(out@) == base + diagnostics@.take(i as int).map_values(
                |d: LoweringDiagnostic| lowering_diagnostic_model(d),
            ),
        decreases diagnostics.len() - i,
    {
        let d = map_lowering_diagnostic(&diagnostics[i]);
        let ghost dv = d@;
        let ghost before = diagnostic_views(out@);
        out.push(d);
        assert(diagnostic_views(out@) =~= before.push(dv));
        assert(diagnostics@.take(i + 1) =~= diagnostics@.take(i as int).push(diagnostics@[i as int]));
        assert(diagnostics@.take(i + 1).map_values(|d: LoweringDiagnostic| lowering_diagnostic_model(d)) =~= diagnostics@.take(i as int).map_values(
            |d: LoweringDiagnostic| lowering_diagnostic_model(d),
        ).push(lowering_diagnostic_model(diagnostics@[i as int])));
        assert(diagnostic_views(out@) =~= base + diagnostics@.take(i + 1).map_values(
            |d: LoweringDiagnostic| lowering_diagnostic_model(d),
        ));
        i += 1;
    }
    assert(diagnostics@.take(i as int) =~= diagnostics@);
}

/// Product diagnostics as project errors, in order.
pub fn map_product_diagnostics(diagnostics: Vec<ProductDiagnostic>) -> (r: Vec<Diagnostic>)
    ensures
        diagnostic_views(r@) == diagnostics@.map_values(|d: ProductDiagnostic| product_diagnostic_model(d)),
{
    let mut out: Vec<Diagnostic> = Vec::new();
    push_product_diagnostics(&mut out, diagnostics.as_slice());
    assert(diagnostic_views(out@) =~= diagnostics@.map_values(|d: ProductDiagnostic| product_diagnostic_model(d)));
    out
}

/// Lowering diagnostics as project diagnostics, in order.
pub fn map_lowering_diagnostics(diagnostics: Vec<LoweringDiagnostic>) -> (r: Vec<Diagnostic>)
    ensures
        diagnostic_views(r@) == diagnostics@.map_values(|d: LoweringDiagnostic| lowering_diagnostic_model(d)),
{
    let mut out: Vec<Diagnostic> = Vec::new();
    push_lowering_diagnostics(&mut out, diagnostics.as_slice());
    assert(diagnostic_views(out@) =~= diagnostics@.map_values(|d: LoweringDiagnostic| lowering_diagnostic_model(d)));
    out
}

/// The diagnostics of a failed lowering: its product diagnostics, then its
/// lowering diagnostics.
pub fn map_product_lowering_error(error: &ProductLoweringError) -> (r: Vec<Diagnostic>)
    ensures
        diagnostic_views(r@) == error.product_diagnostics@.map_values(|d: ProductDiagnostic| product_diagnostic_model(d))
            + error.lowering_diagnostics@.map_values(|d: LoweringDiagnostic| lowering_diagnostic_model(d)),
{
    let mut out: Vec<Diagnostic> = Vec::new();
    push_product_diagnostics(&mut out, error.product_diagnostics.as_slice());
    push_lowering_diagnostics(&mut out, error.lowering_diagnostics.as_slice());
    assert(diagnostic_views(out@) =~= error.product_diagnostics@.map_values(
        |d: ProductDiagnostic| product_diagnostic_model(d),
    ) + error.lowering_diagnostics@.map_values(|d: LoweringDiagnostic| lowering_diagnostic_model(d)));
    out
}

/// The lowering diagnostics followed by the normalization diagnostics.
pub fn combine_lowering_and_normalization_diagnostics(
    lowering_diagnostics: Vec<Diagnostic>,
    normalization_diagnostics: Vec<Diagnostic>,
) -> (r: Vec<Diagnostic>)
    ensures
        diagnostic_views(r@) == diagnostic_views(lowering_diagnostics@) + diagnostic_views(normalization_diagnostics@),
{
    let mut all = lowering_diagnostics;
    let mut rest = normalization_diagnostics;
    let ghost a = all@;
    let ghost b = rest@;
    all.append(&mut rest);
    assert(diagnostic_views(all@) =~= diagnostic_views(a) + diagnostic_views(b));
    all
}

// ---------------------------------------------------------------------------
// Downgrades
// ---------------------------------------------------------------------------

/// An error whose code starts with `prefix` becomes a warning.
pub open spec fn downgraded(d: DiagnosticModel, prefix: Seq<char>) -> DiagnosticModel {
    if occurs_at(d.code, prefix, 0) && d.severity == Severity::Error {
        DiagnosticModel { severity: Severity::Warning, ..d }
    } else {
        d
    }
}

fn downgrade_errors_with_prefix(diagnostics: &mut Vec<Diagnostic>, prefix: &str)
    ensures
        diagnostic_views(final(diagnostics)@) == diagnostic_views(old(diagnostics)@).map_values(
            |d: DiagnosticModel| downgraded(d, prefix@),
        ),
{
    let ghost before = diagnostic_views(diagnostics@);
    let mut rest: Vec<Diagnostic> = Vec::new();
    std::mem::swap(&mut rest, diagnostics);
    let ghost n = rest@.len();
    let mut done: Vec<Diagnostic> = Vec::new();
    while rest.len() > 0
        invariant
            done@.len() + rest@.len() == n,
            n == before.len(),
            forall|m: int| 0 <= m < done@.len() ==> (#[trigger] done@[m])@ == downgraded(before[m], prefix@),
            forall|m: int| 0 <= m < rest@.len() ==> (#[trigger] rest@[m])@ == before[done@.len() + m],
        decreases rest@.len(),
    {
        let mut d = rest.remove(0);
        if d.severity == Severity::Error && starts_with(d.code.as_str(), prefix) {
            d.severity = Severity::Warning;
        }
        done.push(d);
    }
    std::mem::swap(&mut done, diagnostics);
    assert(diagnostic_views(diagnostics@) =~= before.map_values(|d: DiagnosticModel| downgraded(d, prefix@)));
}

/// Update errors become warnings.
pub fn downgrade_update_errors_to_warnings(diagnostics: &mut Vec<Diagnostic>)
    ensures
        diagnostic_views(final(diagnostics)@) == diagnostic_views(old(diagnostics)@).map_values(
            |d: DiagnosticModel| downgraded(d, "UPDATE."@),
        ),
{
    downgrade_errors_with_prefix(diagnostics, "UPDATE.");
}

/// Comparison errors become warnings.
pub fn downgrade_compare_errors_to_warnings(diagnostics: &mut Vec<Diagnostic>)
    ensures
        diagnostic_views(final(diagnostics)@) == diagnostic_views(old(diagnostics)@).map_values(
            |d: DiagnosticModel| downgraded(d, "COMPARE."@),
        ),
{
    downgrade_errors_with_prefix(diagnostics, "COMPARE.");
}

// ---------------------------------------------------------------------------
// Messages and help
// ---------------------------------------------------------------------------

/// A declared-MIME mismatch speaks of the observed MIME type, not the
/// sniffed one; other messages are kept.
pub fn product_diagnostic_message(code: &str, message: String) -> (r: String)
    ensures
        r@ == if code@ == "MEDIA.DECLARED_MIME_MISMATCH"@ {
            replace_all_seq(message@, "sniffed MIME"@, "observed MIME"@)
        } else {
            message@
        },
{
    if str_eq(code, "MEDIA.DECLARED_MIME_MISMATCH") {
        proof {
            reveal_strlit("sniffed MIME");
        }
        replace_all(message.as_str(), "sniffed MIME", "observed MIME")
    } else {
        message
    }
}

pub open spec fn is_css_source(source: Option<Seq<char>>) -> bool {
    match source {
        Some(s) => occurs_at(s, ".css"@, s.len() - ".css"@.len()),
        None => false,
    }
}

/// The product-facing help for a media diagnostic code, if it has one.
pub open spec fn help_text(code: Seq<char>, source: Option<Seq<char>>) -> Option<Seq<char>> {
    if code == "MEDIA.MISSING_REFERENCE"@ {
        if is_css_source(source) {
            Some("Product CSS scanning is conservative: a local filename in url(...) is treated as packaged media. Register it with project.media_mut().add_file(...).export_as(...), change the URL to an external URL, or remove the CSS rule/import if unused."@)
        } else {
            Some("This Product field or template references packaged media that is not registered. Register it with project.media_mut().add_file(...).export_as(...) or update the local filename in the Product content."@)
        }
    } else if code == "MEDIA.UNSAFE_REFERENCE"@ {
        Some("This Product content uses a media reference that cannot be packaged safely. Use a bare local filename for packaged media, without paths, URL escapes, or unsafe characters."@)
    } else if code == "MEDIA.UNUSED_BINDING"@ {
        Some("This Product media registration is not referenced by packaged content. You can remove the registration or reference it from a note, template, or CSS."@)
    } else if code == "MEDIA.DECLARED_MIME_MISMATCH"@ {
        Some("This Product media registration declares a MIME type that does not match the observed source bytes. Change the export filename/declared MIME or replace the source file with matching content."@)
    } else if code == "MEDIA.DUPLICATE_FILENAME_CONFLICT"@ {
        Some("This Product media export filename is already bound to different content. Choose a unique export_as(...) name for one of the registrations."@)
    } else if code == "MEDIA.SOURCE_CHANGED"@ {
        Some("This Product media source changed after registration. Restore the original bytes, re-register the current file with project.media_mut().add_file(...).export_as(...), or remove the stale registration."@)
    } else if code == "MEDIA.SOURCE_MISSING"@ {
        Some("This Product media registration points at a source file that no longer exists. Restore the file, update the registration to the new path, or remove the unused media binding."@)
    } else if code == "MEDIA.SOURCE_NOT_REGULAR_FILE"@ {
        Some("This Product media registration must point at a regular file. Replace the source path with a file and register directories or special files through an explicit file asset."@)
    } else if code == "MEDIA.SOURCE_READ_FAILED"@ {
        Some("This Product media source could not be read. Check the file path, permissions, and workspace access, then retry the build."@)
    } else if code == "MEDIA.UNKNOWN_MIME"@ {
        Some("This media source has no reliable MIME type. Use an export filename with a known extension, provide bytes that can be sniffed, or adjust the advanced media policy if the opaque file is intentional."@)
    } else if code == "MEDIA.CAS_WRITE_FAILED"@ {
        Some("The media object could not be written into the build media store. Check workspace permissions and disk space, then retry the build."@)
    } else if code == "MEDIA.CAS_OBJECT_INTEGRITY_CONFLICT"@ {
        Some("An existing media-store object did not match the expected content hash. Rebuild in a clean artifacts directory or remove the corrupt media-store object before retrying."@)
    } else if code == "MEDIA.INLINE_TOO_LARGE"@ {
        Some("This inline media payload exceeds the configured limit. Register large assets with project.media_mut().add_file(...).export_as(...) so they stay path-backed until normalization."@)
    } else {
        None
    }
}

pub fn product_diagnostic_help(code: &str, source: Option<&str>) -> (r: Option<String>)
    ensures
        match r {
            Some(h) => help_text(code@, match source { Some(s) => Some(s@), None => None }) == Some(h@),
            None => help_text(code@, match source { Some(s) => Some(s@), None => None }) is None,
        },
{
    if str_eq(code, "MEDIA.MISSING_REFERENCE") {
        let css = match source {
            Some(s) => ends_with(s, ".css"),
            None => false,
        };
        if css {
            Some(owned("Product CSS scanning is conservative: a local filename in url(...) is treated as packaged media. Register it with project.media_mut().add_file(...).export_as(...), change the URL to an external URL, or remove the CSS rule/import if unused."))
        } else {
            Some(owned("This Product field or template references packaged media that is not registered. Register it with project.media_mut().add_file(...).export_as(...) or update the local filename in the Product content."))
        }
    } else if str_eq(code, "MEDIA.UNSAFE_REFERENCE") {
        Some(owned("This Product content uses a media reference that cannot be packaged safely. Use a bare local filename for packaged media, without paths, URL escapes, or unsafe characters."))
    } else if str_eq(code, "MEDIA.UNUSED_BINDING") {
        Some(owned("This Product media registration is not referenced by packaged content. You can remove the registration or reference it from a note, template, or CSS."))
    } else if str_eq(code, "MEDIA.DECLARED_MIME_MISMATCH") {
        Some(owned("This Product media registration declares a MIME type that does not match the observed source bytes. Change the export filename/declared MIME or replace the source file with matching content."))
    } else if str_eq(code, "MEDIA.DUPLICATE_FILENAME_CONFLICT") {
        Some(owned("This Product media export filename is already bound to different content. Choose a unique export_as(...) name for one of the registrations."))
    } else if str_eq(code, "MEDIA.SOURCE_CHANGED") {
        Some(owned("This Product media source changed after registration. Restore the original bytes, re-register the current file with project.media_mut().add_file(...).export_as(...), or remove the stale registration."))
    } else if str_eq(code, "MEDIA.SOURCE_MISSING") {
        Some(owned("This Product media registration points at a source file that no longer exists. Restore the file, update the registration to the new path, or remove the unused media binding."))
    } else if str_eq(code, "MEDIA.SOURCE_NOT_REGULAR_FILE") {
        Some(owned("This Product media registration must point at a regular file. Replace the source path with a file and register directories or special files through an explicit file asset."))
    } else if str_eq(code, "MEDIA.SOURCE_READ_FAILED") {
        Some(owned("This Product media source could not be read. Check the file path, permissions, and workspace access, then retry the build."))
    } else if str_eq(code, "MEDIA.UNKNOWN_MIME") {
        Some(owned("This media source has no reliable MIME type. Use an export filename with a known extension, provide bytes that can be sniffed, or adjust the advanced media policy if the opaque file is intentional."))
    } else if str_eq(code, "MEDIA.CAS_WRITE_FAILED") {
        Some(owned("The media object could not be written into the build media store. Check workspace permissions and disk space, then retry the build."))
    } else if str_eq(code, "MEDIA.CAS_OBJECT_INTEGRITY_CONFLICT") {
        Some(owned("An existing media-store object did not match the expected content hash. Rebuild in a clean artifacts directory or remove the corrupt media-store object before retrying."))
    } else if str_eq(code, "MEDIA.INLINE_TOO_LARGE") {
        Some(owned("This inline media payload exceeds the configured limit. Register large assets with project.media_mut().add_file(...).export_as(...) so they stay path-backed until normalization."))
    } else {
        None
    }
}

/// A normalization diagnostic as a project diagnostic: its source is the
/// product source of its path, its message and help are the product ones.
pub fn normalization_diagnostic_to_product_diagnostic(
    code: String,
    level: &str,
    summary: String,
    path: Option<&str>,
    source_map: &ProductSourceMap,
) -> (d: Diagnostic)
    ensures
        ({
            let source = match path {
                Some(p) => diagnostic_source(source_map@, p@),
                None => None,
            };
            d@ == (DiagnosticModel {
                code: code@,
                severity: severity_of_level(level@),
                domain: None,
                stage: None,
                message: if code@ == "MEDIA.DECLARED_MIME_MISMATCH"@ {
                    replace_all_seq(summary@, "sniffed MIME"@, "observed MIME"@)
                } else {
                    summary@
                },
                source,
                help: help_text(code@, source),
            })
        }),
{
    let source: Option<String> = match path {
        Some(p) => match source_map.source_for_diagnostic_path(p) {
            Some(s) => Some(owned(s)),
            None => None,
        },
        None => None,
    };
    let message = product_diagnostic_message(code.as_str(), summary);
    let help = match &source {
        Some(s) => product_diagnostic_help(code.as_str(), Some(s.as_str())),
        None => product_diagnostic_help(code.as_str(), None),
    };
    let severity = severity_from_level(level);
    Diagnostic { code, severity, domain: None, stage: None, message, source, help }
}

/// ` (<name>)` for a named declaration, else nothing.
pub open spec fn name_suffix(name: Option<Seq<char>>) -> Seq<char> {
    match name {
        Some(n) => " ("@ + n + ")"@,
        None => Seq::empty(),
    }
}

pub fn display_name_suffix(name: Option<&str>) -> (r: String)
    ensures
        r@ == name_suffix(match name {
            Some(n) => Some(n@),
            None => None,
        }),
{
    match name {
        Some(n) => concat3(" (", n, ")"),
        None => String::new(),
    }
}

pub open spec fn opt_str_view(o: Option<&str>) -> Option<Seq<char>> {
    match o {
        Some(s) => Some(s@),
        None => None,
    }
}

pub fn duplicate_notetype_message(
    id: &str,
    first_index: usize,
    first_name: Option<&str>,
    duplicate_index: usize,
    duplicate_name: Option<&str>,
) -> (r: String)
    ensures
        r@ == concat_all(seq![
            "duplicate note type id '"@, id@, "' at project.note_types["@, decimal(duplicate_index as nat), "]"@,
            name_suffix(opt_str_view(duplicate_name)), "; first definition is project.note_types["@,
            decimal(first_index as nat), "]"@, name_suffix(opt_str_view(first_name)),
        ]),
{
    let dup = decimal_string(duplicate_index);
    let first = decimal_string(first_index);
    let dup_suffix = display_name_suffix(duplicate_name);
    let first_suffix = display_name_suffix(first_name);
    let parts = [
        "duplicate note type id '", id, "' at project.note_types[", dup.as_str(), "]", dup_suffix.as_str(),
        "; first definition is project.note_types[", first.as_str(), "]", first_suffix.as_str(),
    ];
    let r = join(&parts);
    assert(views(parts@) =~= seq![
        "duplicate note type id '"@, id@, "' at project.note_types["@, dup@, "]"@, dup_suffix@,
        "; first definition is project.note_types["@, first@, "]"@, first_suffix@,
    ]);
    r
}

pub fn duplicate_implicit_stock_notetype_message(id: &str, duplicate_index: usize, duplicate_name: Option<&str>) -> (r: String)
    ensures
        r@ == concat_all(seq![
            "duplicate note type id '"@, id@, "' at project.note_types["@, decimal(duplicate_index as nat), "]"@,
            name_suffix(opt_str_view(duplicate_name)),
            "; first definition is an implicit stock note type inserted for stock "@, id@, " notes"@,
        ]),
{
    let dup = decimal_string(duplicate_index);
    let dup_suffix = display_name_suffix(duplicate_name);
    let parts = [
        "duplicate note type id '", id, "' at project.note_types[", dup.as_str(), "]", dup_suffix.as_str(),
        "; first definition is an implicit stock note type inserted for stock ", id, " notes",
    ];
    let r = join(&parts);
    assert(views(parts@) =~= seq![
        "duplicate note type id '"@, id@, "' at project.note_types["@, dup@, "]"@, dup_suffix@,
        "; first definition is an implicit stock note type inserted for stock "@, id@, " notes"@,
    ]);
    r
}

/// The mismatch diagnostic added when both stable ids are known and differ.
pub open spec fn stable_id_mismatch(current: Seq<char>, baseline: Seq<char>, source: Seq<char>, severity: Severity) -> DiagnosticModel {
    DiagnosticModel {
        code: "UPDATE.PROJECT_STABLE_ID_MISMATCH"@,
        severity,
        domain: None,
        stage: None,
        message: "project stable id "@ + debug_quoted(current) + " differs from baseline project stable id "@
            + debug_quoted(baseline),
        source: Some(source),
        help: Some("use the matching lockfile for this project or choose an explicit migration path"@),
    }
}

pub fn push_project_stable_id_mismatch_if_needed(
    diagnostics: &mut Vec<Diagnostic>,
    current_project_stable_id: Option<&str>,
    baseline_project_stable_id: Option<&str>,
    source_ref: &str,
    severity: Severity,
)
    ensures
        diagnostic_views(final(diagnostics)@) == match (current_project_stable_id, baseline_project_stable_id) {
            (Some(c), Some(b)) => if c@ != b@ {
                diagnostic_views(old(diagnostics)@).push(stable_id_mismatch(c@, b@, source_ref@, severity))
            } else {
                diagnostic_views(old(diagnostics)@)
            },
            _ => diagnostic_views(old(diagnostics)@),
        },
{
    let (current, baseline) = match (current_project_stable_id, baseline_project_stable_id) {
        (Some(c), Some(b)) => (c, b),
        _ => return ,
    };
    if str_eq(current, baseline) {
        return ;
    }
    let c = debug_quote(current);
    let b = debug_quote(baseline);
    let mut message = concat3("project stable id ", c.as_str(), " differs from baseline project stable id ");
    message.append(b.as_str());
    let d = Diagnostic {
        code: owned("UPDATE.PROJECT_STABLE_ID_MISMATCH"),
        severity,
        domain: None,
        stage: None,
        message,
        source: Some(owned(source_ref)),
        help: Some(owned("use the matching lockfile for this project or choose an explicit migration path")),
    };
    let ghost dv = d@;
    let ghost before = diagnostic_views(diagnostics@);
    diagnostics.push(d);
    assert(diagnostic_views(diagnostics@) =~= before.push(dv));
}

/// A downgrade leaves no error whose code starts with the prefix, keeps every
/// diagnostic's code and message, leaves the other diagnostics as they
/// were, and changes nothing when applied again.
pub proof fn law_downgrade_leaves_no_prefixed_error(ds: Seq<DiagnosticModel>, prefix: Seq<char>)
    ensures
        ({
            let out = ds.map_values(|d: DiagnosticModel| downgraded(d, prefix));
            &&& out.len() == ds.len()
            &&& forall|i: int| 0 <= i < ds.len() ==> !(occurs_at(#[trigger] out[i].code, prefix, 0) && out[i].severity
                == Severity::Error)
            &&& forall|i: int| 0 <= i < ds.len() ==> #[trigger] out[i].code == ds[i].code && out[i].message == ds[i].message
            &&& forall|i: int| 0 <= i < ds.len() && !occurs_at(ds[i].code, prefix, 0) ==> #[trigger] out[i] == ds[i]
            &&& out.map_values(|d: DiagnosticModel| downgraded(d, prefix)) == out
        }),
{
    let out = ds.map_values(|d: DiagnosticModel| downgraded(d, prefix));
    assert(out.map_values(|d: DiagnosticModel| downgraded(d, prefix)) =~= out);
}

// ---------------------------------------------------------------------------
// Artifact changes no risk rule covers
// ---------------------------------------------------------------------------

/// The low-risk finding for artifact changes that no more specific rule
/// covers, at the first change.
pub open spec fn artifact_diff_finding(c: ArtifactDiffChange) -> FindingModel {
    FindingModel {
        code: "RISK.ARTIFACT_DIFF"@,
        level: RiskLevel::Low,
        category: "artifact"@,
        message: "comparison detected artifact changes not covered by a more specific risk rule"@,
        source: Some(c.selector@),
        evidence: evidence_views(c.evidence_refs@),
        action: Some("review the diff before importing"@),
    }
}

/// The first artifact change of a diff, if it has any.
pub open spec fn first_artifact_change(diff: Option<&BuildDiffSummary>) -> Option<ArtifactDiffChange> {
    match diff {
        Some(d) => match d.artifact_diff {
            Some(a) => if a.changes@.len() > 0 {
                Some(a.changes@[0])
            } else {
                None
            },
            None => None,
        },
        None => None,
    }
}

fn copy_evidence(v: &Vec<EvidenceRef>) -> (r: Vec<EvidenceRef>)
    ensures
        evidence_views(r@) == evidence_views(v@),
{
    let mut r: Vec<EvidenceRef> = Vec::new();
    let mut i: usize = 0;
    while i < v.len()
        invariant
            i <= v@.len(),
            evidence_views(r@) == evidence_views(v@).take(i as int),
        decreases v.len() - i,
    {
        let e = v[i].duplicate();
        let ghost before = evidence_views(r@);
        r.push(e);
        assert(evidence_views(r@) =~= before.push(v@[i as int]@));
        assert(evidence_views(v@).take(i + 1) =~= evidence_views(v@).take(i as int).push(v@[i as int]@));
        i += 1;
    }
    assert(evidence_views(v@).take(i as int) =~= evidence_views(v@));
    r
}

/// A risk report with no findings gains the artifact-diff finding when the
/// comparison found artifact changes; anything else is left as it is.
pub fn attach_artifact_diff_risk_if_needed(risk: &mut Option<ImportRiskReport>, diff: Option<&BuildDiffSummary>)
    ensures
        match *old(risk) {
            None => *final(risk) is None,
            Some(r) => match *final(risk) {
                Some(f) => f.limitations == r.limitations && if r.findings@.len() == 0 && first_artifact_change(diff) is Some {
                    finding_views(f.findings@) == seq![artifact_diff_finding(first_artifact_change(diff)->0)]
                        && f.highest_level == Some(RiskLevel::Low)
                } else {
                    finding_views(f.findings@) == finding_views(r.findings@) && f.highest_level == r.highest_level
                },
                None => false,
            },
        },
{
    match risk {
        Some(report) => {
            if report.findings.len() > 0 {
                return;
            }
            let first = match diff {
                Some(d) => match &d.artifact_diff {
                    Some(a) => if a.changes.len() > 0 {
                        Some(&a.changes[0])
                    } else {
                        None
                    },
                    None => None,
                },
                None => None,
            };
            match first {
                Some(change) => {
                    let finding = ImportRiskFinding {
                        code: owned("RISK.ARTIFACT_DIFF"),
                        level: RiskLevel::Low,
                        category: owned("artifact"),
                        message: owned("comparison detected artifact changes not covered by a more specific risk rule"),
                        source: Some(owned(change.selector.as_str())),
                        evidence_refs: copy_evidence(&change.evidence_refs),
                        suggested_action: Some(owned("review the diff before importing")),
                    };
                    let ghost fv = finding@;
                    report.findings.push(finding);
                    report.highest_level = Some(RiskLevel::Low);
                    assert(finding_views(report.findings@) =~= seq![fv]);
                },
                None => {},
            }
        },
        None => {},
    }
}

// ---------------------------------------------------------------------------
// Build paths that collide with the identity lockfile
// ---------------------------------------------------------------------------

/// Whether two paths are equal as `Path`'s `==` finds them: component by
/// component.
pub uninterp spec fn same_path_spec(a: Seq<char>, b: Seq<char>) -> bool;

/// `Path::new(a) == Path::new(b)` of std.
#[verifier::external_body]
fn same_path(a: &str, b: &str) -> (r: bool)
    ensures
        r == same_path_spec(a@, b@),
{
    std::path::Path::new(a) == std::path::Path::new(b)
}

pub open spec fn opt_path(o: Option<&str>) -> Option<Seq<char>> {
    match o {
        Some(s) => Some(s@),
        None => None,
    }
}

/// Whether a path is given and equals the identity lockfile, when that is
/// given.
pub open spec fn collides(path: Option<Seq<char>>, identity_lockfile: Option<Seq<char>>) -> bool {
    match (path, identity_lockfile) {
        (Some(p), Some(l)) => same_path_spec(p, l),
        _ => false,
    }
}

fn path_collides(path: Option<&str>, identity_lockfile: Option<&str>) -> (r: bool)
    ensures
        r == collides(opt_path(path), opt_path(identity_lockfile)),
{
    match (path, identity_lockfile) {
        (Some(p), Some(l)) => same_path(p, l),
        _ => false,
    }
}

/// Whether the build report would be written over the identity lockfile.
pub fn report_json_collides_with_identity_lockfile(report_json: Option<&str>, identity_lockfile: Option<&str>) -> (r: bool)
    ensures
        r == collides(opt_path(report_json), opt_path(identity_lockfile)),
{
    path_collides(report_json, identity_lockfile)
}

/// Whether the build report or the package would be written over the
/// identity lockfile.
pub fn identity_lockfile_path_collision(
    output: Option<&str>,
    report_json: Option<&str>,
    identity_lockfile: Option<&str>,
) -> (r: bool)
    ensures
        r == (collides(opt_path(report_json), opt_path(identity_lockfile)) || collides(
            opt_path(output),
            opt_path(identity_lockfile),
        )),
{
    report_json_collides_with_identity_lockfile(report_json, identity_lockfile) || path_collides(output, identity_lockfile)
}

pub open spec fn path_collision_diagnostic() -> DiagnosticModel {
    DiagnosticModel {
        code: "PROJECT.PATH_COLLISION"@,
        severity: Severity::Error,
        domain: None,
        stage: None,
        message: "build output path collides with identity lockfile path"@,
        source: Some("build.identity_lockfile"@),
        help: Some("choose distinct paths for apkg output, report_json, and identity lockfile"@),
    }
}

/// Adds the path-collision error when the package or the report would be
/// written over the identity lockfile.
pub fn push_identity_lockfile_path_collision_if_needed(
    output: Option<&str>,
    report_json: Option<&str>,
    identity_lockfile: Option<&str>,
    diagnostics: &mut Vec<Diagnostic>,
)
    ensures
        diagnostic_views(final(diagnostics)@) == diagnostic_views(old(diagnostics)@) + if collides(
            opt_path(report_json),
            opt_path(identity_lockfile),
        ) || collides(opt_path(output), opt_path(identity_lockfile)) {
            seq![path_collision_diagnostic()]
        } else {
            Seq::<DiagnosticModel>::empty()
        },
{
    let ghost before = diagnostic_views(diagnostics@);
    if !identity_lockfile_path_collision(output, report_json, identity_lockfile) {
        assert(before + Seq::<DiagnosticModel>::empty() =~= before);
        return;
    }
    let d = Diagnostic {
        code: owned("PROJECT.PATH_COLLISION"),
        severity: Severity::Error,
        domain: None,
        stage: None,
        message: owned("build output path collides with identity lockfile path"),
        source: Some(owned("build.identity_lockfile")),
        help: Some(owned("choose distinct paths for apkg output, report_json, and identity lockfile")),
    };
    let ghost dv = d@;
    diagnostics.push(d);
    assert(diagnostic_views(diagnostics@) =~= before + seq![dv]);
}

/// The import risk of a build whose previous package could not be read:
/// its diagnostics classified with the comparison unavailable and no diff.
pub fn baseline_unavailable_risk(diagnostics: &[Diagnostic]) -> (report: ImportRiskReport)
    ensures
        finding_views(report.findings@) == classification(diag_models(diagnostics@), ComparisonStatus::Unavailable, None),
        report.highest_level == max_level(finding_views(report.findings@)),
        report.limitations@.len() == 0,
{
    classify_import_risk(RiskInput { diagnostics, comparison: ComparisonStatus::Unavailable, diff: None })
}

} // verus!
