use zarr_dio::key::{key_to_fspath, resolve};

#[test]
fn chunk_key_follows_the_array_path() {
    assert_eq!(resolve("/direct", &[3, 0, 0]), Some("direct/c/3/0/0".to_string()));
    assert_eq!(resolve("/", &[1, 23, 45]), Some("c/1/23/45".to_string()));
}

#[test]
fn invalid_array_path_has_no_key() {
    assert_eq!(resolve("direct", &[0, 0, 0]), None);
    assert_eq!(resolve("/direct/", &[0, 0, 0]), None);
    assert_eq!(resolve("/a//b", &[0, 0, 0]), None);
}

#[test]
fn key_is_joined_to_the_store_root() {
    assert_eq!(key_to_fspath("/tmp/store", "direct/c/0/0/0"), "/tmp/store/direct/c/0/0/0");
    assert_eq!(key_to_fspath("/tmp/store/", "direct/c/0/0/0"), "/tmp/store/direct/c/0/0/0");
    assert_eq!(key_to_fspath("/tmp/store", "/direct/c/0/0/0"), "/tmp/store/direct/c/0/0/0");
    assert_eq!(key_to_fspath("/tmp/store", ""), "/tmp/store");
    assert_eq!(key_to_fspath("", "c/0"), "c/0");
}

#[test]
fn key_that_stays_absolute_replaces_the_root() {
    assert_eq!(key_to_fspath("/tmp/store", "//etc"), "/etc");
}

#[test]
fn separator_alone_extends_the_root_by_nothing() {
    assert_eq!(key_to_fspath("/tmp/store", "/"), "/tmp/store/");
    assert_eq!(key_to_fspath("/tmp/store/", "/"), "/tmp/store/");
    assert_eq!(key_to_fspath("", "/"), "");
}

#[test]
fn paths_agree_with_the_standard_path_join() {
    for root in ["/tmp/store", "/tmp/store/", "", "relative", "/"] {
        for key in ["direct/c/0/0/0", "/direct/c/0", "c", "/", "", "//double", "ünï/cödé"] {
            let mut expected = std::path::PathBuf::from(root);
            if !key.is_empty() {
                expected.push(key.strip_prefix('/').unwrap_or(key));
            }
            assert_eq!(key_to_fspath(root, key), expected.to_str().unwrap());
        }
    }
}

#[test]
fn chunk_key_of_a_nested_array() {
    assert_eq!(resolve("/a/b", &[0, 0, 0]), Some("a/b/c/0/0/0".to_string()));
    assert_eq!(
        resolve("/a", &[18446744073709551615, 7, 10]),
        Some("a/c/18446744073709551615/7/10".to_string())
    );
    assert_eq!(resolve("/a", &[]), Some("a/c".to_string()));
}
