//! The files a build names, and which of them must not be the same file.
//!
//! Whether two paths name the same file is a question for the file system;
//! what is decided here is which paths are compared, in which order, and
//! what each answer means for the build.

use vstd::prelude::*;

use crate::diagnostics::{Diagnostic, DiagnosticModel, Severity};
use crate::text::{concat2, concat3, owned, str_eq};

verus! {

/// The paths a build names, by option, in the order they are compared;
/// options without a path are left out.
pub open spec fn named_paths(
    output: Option<Seq<char>>,
    package: Option<Seq<char>>,
    report_json: Option<Seq<char>>,
    identity_lockfile: Option<Seq<char>>,
    compare_to: Option<Seq<char>>,
) -> Seq<(Seq<char>, Seq<char>)> {
    present("output"@, output) + present("package"@, package) + present("report_json"@, report_json) + present(
        "identity_lockfile"@,
        identity_lockfile,
    ) + present("compare_to"@, compare_to)
}

pub open spec fn present(name: Seq<char>, path: Option<Seq<char>>) -> Seq<(Seq<char>, Seq<char>)> {
    match path {
        Some(p) => seq![(name, p)],
        None => Seq::empty(),
    }
}

pub open spec fn opt_view(o: Option<&str>) -> Option<Seq<char>> {
    match o {
        Some(s) => Some(s@),
        None => None,
    }
}

pub open spec fn entry_views(v: Seq<(&'static str, String)>) -> Seq<(Seq<char>, Seq<char>)> {
    v.map_values(|e: (&'static str, String)| (e.0@, e.1@))
}

fn push_present(v: &mut Vec<(&'static str, String)>, name: &'static str, path: Option<&str>)
    ensures
        entry_views(final(v)@) == entry_views(old(v)@) + present(name@, opt_view(path)),
{
    let ghost before = entry_views(v@);
    match path {
        Some(p) => {
            v.push((name, owned(p)));
            assert(entry_views(v@) =~= before + seq![(name@, p@)]);
        },
        None => {
            assert(entry_views(v@) =~= before + Seq::<(Seq<char>, Seq<char>)>::empty());
        },
    }
}

/// The paths a build names: its output, its retained package, its JSON
/// report, its identity lockfile and its comparison baseline, each when set.
pub fn build_paths(
    output: Option<&str>,
    package: Option<&str>,
    report_json: Option<&str>,
    identity_lockfile: Option<&str>,
    compare_to: Option<&str>,
) -> (r: Vec<(&'static str, String)>)
    ensures
        entry_views(r@) == named_paths(
            opt_view(output),
            opt_view(package),
            opt_view(report_json),
            opt_view(identity_lockfile),
            opt_view(compare_to),
        ),
{
    let mut r: Vec<(&'static str, String)> = Vec::new();
    assert(entry_views(r@) =~= Seq::<(Seq<char>, Seq<char>)>::empty());
    push_present(&mut r, "output", output);
    push_present(&mut r, "package", package);
    push_present(&mut r, "report_json", report_json);
    push_present(&mut r, "identity_lockfile", identity_lockfile);
    push_present(&mut r, "compare_to", compare_to);
    assert(entry_views(r@) =~= named_paths(
        opt_view(output),
        opt_view(package),
        opt_view(report_json),
        opt_view(identity_lockfile),
        opt_view(compare_to),
    ));
    r
}

/// Whether the path of option `left` is compared with that of a later
/// option `right`: an output may be the retained package itself, and two
/// read-only baselines may coincide unless the lockfile is written.
pub open spec fn pair_compared(left: Seq<char>, right: Seq<char>, write_identity_lockfile: bool) -> bool {
    &&& !(left == "output"@ && right == "package"@)
    &&& !(left == "identity_lockfile"@ && right == "compare_to"@ && !write_identity_lockfile)
}

/// Pair `a` comes before pair `b`: by first index, then by second.
pub open spec fn pair_before(a: (usize, usize), b: (usize, usize)) -> bool {
    a.0 < b.0 || (a.0 == b.0 && a.1 < b.1)
}

/// The pairs of positions among `names` whose paths are compared, in order:
/// each path against every later one.
pub fn compared_path_pairs(names: &[&'static str], write_identity_lockfile: bool) -> (r: Vec<(usize, usize)>)
    ensures
        forall|k: int|
            0 <= k < r@.len() ==> (#[trigger] r@[k]).0 < r@[k].1 && r@[k].1 < names@.len() && pair_compared(
                names@[r@[k].0 as int]@,
                names@[r@[k].1 as int]@,
                write_identity_lockfile,
            ),
        forall|i: int, j: int|
            0 <= i < j < names@.len() && pair_compared(names@[i]@, names@[j]@, write_identity_lockfile) ==> r@.contains(
                (i as usize, j as usize),
            ),
        forall|k: int, l: int| 0 <= k < l < r@.len() ==> pair_before(#[trigger] r@[k], #[trigger] r@[l]),
{
    let n = names.len();
    let mut r: Vec<(usize, usize)> = Vec::new();
    let mut i: usize = 0;
    while i < n
        invariant
            i <= n,
            n == names@.len(),
            forall|k: int|
                0 <= k < r@.len() ==> (#[trigger] r@[k]).0 < i && r@[k].0 < r@[k].1 && r@[k].1 < n && pair_compared(
                    names@[r@[k].0 as int]@,
                    names@[r@[k].1 as int]@,
                    write_identity_lockfile,
                ),
            forall|a: int, b: int|
                0 <= a < i && a < b < n && pair_compared(names@[a]@, names@[b]@, write_identity_lockfile) ==> r@.contains(
                    (a as usize, b as usize),
                ),
            forall|k: int, l: int| 0 <= k < l < r@.len() ==> pair_before(#[trigger] r@[k], #[trigger] r@[l]),
        decreases n - i,
    {
        let mut j: usize = i + 1;
        let ghost start = r@.len();
        while j < n
            invariant
                i < n,
                i + 1 <= j <= n,
                n == names@.len(),
                start <= r@.len(),
                forall|k: int|
                    0 <= k < r@.len() ==> (#[trigger] r@[k]).0 <= i && r@[k].0 < r@[k].1 && r@[k].1 < n && pair_compared(
                        names@[r@[k].0 as int]@,
                        names@[r@[k].1 as int]@,
                        write_identity_lockfile,
                    ),
                forall|k: int| 0 <= k < start ==> (#[trigger] r@[k]).0 < i,
                forall|k: int| start <= k < r@.len() ==> (#[trigger] r@[k]).0 == i && r@[k].1 < j,
                forall|a: int, b: int|
                    0 <= a < i && a < b < n && pair_compared(names@[a]@, names@[b]@, write_identity_lockfile) ==> r@.contains(
                        (a as usize, b as usize),
                    ),
                forall|b: int|
                    i < b < j && pair_compared(names@[i as int]@, names@[b]@, write_identity_lockfile) ==> r@.contains(
                        (i, b as usize),
                    ),
                forall|k: int, l: int| 0 <= k < l < r@.len() ==> pair_before(#[trigger] r@[k], #[trigger] r@[l]),
            decreases n - j,
        {
            let left = names[i];
            let right = names[j];
            let skip_package = str_eq(left, "output") && str_eq(right, "package");
            let skip_baselines = str_eq(left, "identity_lockfile") && str_eq(right, "compare_to")
                && !write_identity_lockfile;
            if !skip_package && !skip_baselines {
                let ghost before = r@;
                r.push((i, j));
                proof {
                    assert forall|a: int, b: int|
                        0 <= a < i && a < b < n && pair_compared(
                            names@[a]@,
                            names@[b]@,
                            write_identity_lockfile,
                        ) implies r@.contains((a as usize, b as usize)) by {
                        let k = choose|k: int| 0 <= k < before.len() && before[k] == (a as usize, b as usize);
                        assert(r@[k] == before[k]);
                    }
                    assert forall|b: int|
                        i < b < j + 1 && pair_compared(
                            names@[i as int]@,
                            names@[b]@,
                            write_identity_lockfile,
                        ) implies r@.contains((i, b as usize)) by {
                        if b < j {
                            let k = choose|k: int| 0 <= k < before.len() && before[k] == (i, b as usize);
                            assert(r@[k] == before[k]);
                        } else {
                            assert(r@[before.len() as int] == (i, j));
                        }
                    }
                    assert forall|k: int, l: int| 0 <= k < l < r@.len() implies pair_before(
                        #[trigger] r@[k],
                        #[trigger] r@[l],
                    ) by {
                        if l == before.len() {
                            assert(r@[k] == before[k]);
                            if k >= start {
                                assert(before[k].0 == i && before[k].1 < j);
                            } else {
                                assert(before[k].0 < i);
                            }
                        } else {
                            assert(r@[k] == before[k] && r@[l] == before[l]);
                        }
                    }
                }
            } else {
                proof {
                    assert forall|b: int|
                        i < b < j + 1 && pair_compared(
                            names@[i as int]@,
                            names@[b]@,
                            write_identity_lockfile,
                        ) implies r@.contains((i, b as usize)) by {
                        if b == j {
                            assert(!pair_compared(names@[i as int]@, names@[b]@, write_identity_lockfile));
                        }
                    }
                }
            }
            j += 1;
        }
        i += 1;
    }
    r
}

// ---------------------------------------------------------------------------
// What each comparison means
// ---------------------------------------------------------------------------

/// The help of every path problem.
pub open spec fn path_help() -> Seq<char> {
    "choose distinct, accessible paths for APKG output, artifact package, report_json, identity lockfile, and compare_to"@
}

/// A path problem of the build option `field`.
pub open spec fn path_problem(code: Seq<char>, field: Seq<char>, message: Seq<char>) -> DiagnosticModel {
    DiagnosticModel {
        code,
        severity: Severity::Error,
        domain: Some("project"@),
        stage: Some("validate"@),
        message,
        source: Some("build."@ + field),
        help: Some(path_help()),
    }
}

pub fn path_diagnostic(code: &str, field: &str, message: String) -> (d: Diagnostic)
    ensures
        d@ == path_problem(code@, field@, message@),
{
    Diagnostic {
        code: owned(code),
        severity: Severity::Error,
        domain: Some(owned("project")),
        stage: Some(owned("validate")),
        message,
        source: Some(concat2("build.", field)),
        help: Some(
            owned(
                "choose distinct, accessible paths for APKG output, artifact package, report_json, identity lockfile, and compare_to",
            ),
        ),
    }
}

/// What comparing the paths of options `left_name` and `right_name` means:
/// nothing when they name different files, a collision when they name the
/// same one, and an I/O problem when that could not be told.
pub fn path_pair_problem(
    left_name: &str,
    left: &str,
    right_name: &str,
    right: &str,
    alias: Result<bool, String>,
) -> (r: Option<Diagnostic>)
    ensures
        match alias {
            Ok(false) => r is None,
            Ok(true) => r matches Some(d) && d@ == path_problem(
                "PROJECT.PATH_COLLISION"@,
                right_name@,
                left_name@ + " path collides with "@ + right_name@ + ": "@ + left@ + " and "@ + right@,
            ),
            Err(e) => r matches Some(d) && d@ == path_problem(
                "PROJECT.BUILD_IO"@,
                right_name@,
                "cannot verify "@ + left_name@ + " and "@ + right_name@ + " paths: "@ + e@,
            ),
        },
{
    match alias {
        Ok(false) => None,
        Ok(true) => {
            let mut message = concat3(left_name, " path collides with ", right_name);
            message.append(": ");
            message.append(left);
            message.append(" and ");
            message.append(right);
            Some(path_diagnostic("PROJECT.PATH_COLLISION", right_name, message))
        },
        Err(e) => {
            let mut message = concat3("cannot verify ", left_name, " and ");
            message.append(right_name);
            message.append(" paths: ");
            message.append(e.as_str());
            Some(path_diagnostic("PROJECT.BUILD_IO", right_name, message))
        },
    }
}

/// What checking the comparison baseline against the artifact staging
/// directory means: nothing when it lies outside, a collision when inside,
/// and an I/O problem when that could not be told.
pub fn baseline_staging_problem(overlap: Result<bool, String>) -> (r: Option<Diagnostic>)
    ensures
        match overlap {
            Ok(false) => r is None,
            Ok(true) => r matches Some(d) && d@ == path_problem(
                "PROJECT.PATH_COLLISION"@,
                "compare_to"@,
                "compare_to baseline must be outside the writable artifact staging directory"@,
            ),
            Err(e) => r matches Some(d) && d@ == path_problem("PROJECT.BUILD_IO"@, "compare_to"@, e@),
        },
{
    match overlap {
        Ok(false) => None,
        Ok(true) => Some(
            path_diagnostic(
                "PROJECT.PATH_COLLISION",
                "compare_to",
                owned("compare_to baseline must be outside the writable artifact staging directory"),
            ),
        ),
        Err(e) => Some(path_diagnostic("PROJECT.BUILD_IO", "compare_to", e)),
    }
}

/// Whether a JSON report may be written: there is one, and it is known to
/// be a different file from each other path of the build.
pub fn report_is_safe(report_json: Option<&str>, aliases: &[Result<bool, String>]) -> (r: bool)
    ensures
        r == (report_json is Some && forall|i: int| 0 <= i < aliases@.len() ==> #[trigger] aliases@[i] == Ok::<bool, String>(false)),
{
    if report_json.is_none() {
        return false;
    }
    let mut i: usize = 0;
    while i < aliases.len()
        invariant
            i <= aliases@.len(),
            forall|j: int| 0 <= j < i ==> #[trigger] aliases@[j] == Ok::<bool, String>(false),
        decreases aliases.len() - i,
    {
        match &aliases[i] {
            Ok(false) => {},
            _ => {
                return false;
            },
        }
        i += 1;
    }
    true
}

} // verus!
