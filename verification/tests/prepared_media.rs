use anki_forge::prepared_media::media_preparation_jobs;

fn strings(v: &[&str]) -> Vec<String> {
    v.iter().map(|s| s.to_string()).collect()
}

#[test]
fn media_jobs_take_the_first_object_per_id_in_filename_then_id_order() {
    let ids = strings(&["b", "a", "b", "c", "d"]);
    let filenames = strings(&["z.png", "y.png", "a.png", "y.png", "bad/name"]);
    let valid = [true, true, true, true, false];
    assert_eq!(media_preparation_jobs(&ids, &filenames, &valid), vec![1, 3, 0]);
}

#[test]
fn an_invalid_first_object_keeps_later_objects_with_its_id_out() {
    let ids = strings(&["x", "x", "y"]);
    let filenames = strings(&["", "ok.png", "ok.png"]);
    let valid = [false, true, true];
    assert_eq!(media_preparation_jobs(&ids, &filenames, &valid), vec![2]);
}

#[test]
fn no_media_means_no_jobs() {
    assert!(media_preparation_jobs(&[], &[], &[]).is_empty());
}
