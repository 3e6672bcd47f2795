use anki_forge::product::project::paths::{
    baseline_staging_problem, build_paths, compared_path_pairs, path_pair_problem, report_is_safe,
};

#[test]
fn build_paths_keep_the_options_that_are_set_in_order() {
    let paths = build_paths(Some("out.apkg"), None, Some("report.json"), None, Some("old.apkg"));
    let names: Vec<&str> = paths.iter().map(|(n, _)| *n).collect();
    assert_eq!(names, vec!["output", "report_json", "compare_to"]);
    assert_eq!(paths[2].1, "old.apkg");
}

#[test]
fn output_and_package_and_read_only_baselines_are_not_compared() {
    let names = ["output", "package", "identity_lockfile", "compare_to"];
    assert_eq!(
        compared_path_pairs(&names, false),
        vec![(0, 2), (0, 3), (1, 2), (1, 3)]
    );
    assert_eq!(
        compared_path_pairs(&names, true),
        vec![(0, 2), (0, 3), (1, 2), (1, 3), (2, 3)]
    );
    assert!(compared_path_pairs(&["output"], true).is_empty());
}

#[test]
fn aliasing_paths_collide_and_unknown_ones_are_io_problems() {
    assert!(path_pair_problem("output", "a.apkg", "report_json", "b.json", Ok(false)).is_none());
    let collision = path_pair_problem("output", "a.apkg", "report_json", "a.apkg", Ok(true)).unwrap();
    assert_eq!(collision.code, "PROJECT.PATH_COLLISION");
    assert_eq!(collision.message, "output path collides with report_json: a.apkg and a.apkg");
    assert_eq!(collision.source.as_deref(), Some("build.report_json"));
    assert_eq!(collision.domain.as_deref(), Some("project"));
    let io = path_pair_problem("output", "a", "compare_to", "b", Err("denied".to_string())).unwrap();
    assert_eq!(io.code, "PROJECT.BUILD_IO");
    assert_eq!(io.message, "cannot verify output and compare_to paths: denied");
}

#[test]
fn baselines_inside_staging_are_refused() {
    assert!(baseline_staging_problem(Ok(false)).is_none());
    let inside = baseline_staging_problem(Ok(true)).unwrap();
    assert_eq!(inside.message, "compare_to baseline must be outside the writable artifact staging directory");
    assert_eq!(inside.source.as_deref(), Some("build.compare_to"));
    assert_eq!(baseline_staging_problem(Err("gone".to_string())).unwrap().code, "PROJECT.BUILD_IO");
}

#[test]
fn reports_are_written_only_where_nothing_else_lives() {
    assert!(report_is_safe(Some("r.json"), &[Ok(false), Ok(false)]));
    assert!(!report_is_safe(Some("r.json"), &[Ok(false), Ok(true)]));
    assert!(!report_is_safe(Some("r.json"), &[Err("x".to_string())]));
    assert!(!report_is_safe(None, &[]));
}
