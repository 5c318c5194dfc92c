use local_code::fsutil::{retry_create, tmp_path_for, CREATE_ATTEMPTS};

#[test]
fn successive_tmp_paths_for_the_same_target_differ() {
    let target = "/some/dir/file.json";
    assert_ne!(tmp_path_for(target, 42, 0), tmp_path_for(target, 42, 1));
}

#[test]
fn tmp_path_names_the_process_and_the_counter() {
    assert_eq!(tmp_path_for("/d/out.txt", 1234, 7), "/d/out.txt.tmp-1234-7");
    assert_eq!(tmp_path_for("x", 0, 10), "x.tmp-0-10");
}

#[test]
fn only_a_name_collision_is_retried_and_only_three_times_in_all() {
    assert_eq!(CREATE_ATTEMPTS, 3);
    assert!(retry_create(1, true));
    assert!(retry_create(2, true));
    assert!(!retry_create(3, true));
    assert!(!retry_create(1, false));
}
