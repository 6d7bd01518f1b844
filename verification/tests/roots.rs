use windows_sandbox::roots::{canonicalize_path, select_roots, Directory, Roots};

fn found(paths: &[(&str, bool)]) -> Vec<Directory> {
    paths
        .iter()
        .map(|(path, exists)| Directory {
            exists: *exists,
            first: paths.iter().position(|(other, _)| other == path).unwrap(),
        })
        .collect()
}

#[test]
fn canonical_path_wins_over_the_input() {
    assert_eq!(canonicalize_path("link", Some("C:\\real")), "C:\\real");
    assert_eq!(canonicalize_path("missing", None), "missing");
}

#[test]
fn canonical_path_is_canonical() {
    let resolve = |path: &str| match path {
        "link" | "real" => Some("real"),
        _ => None,
    };
    for path in ["link", "real", "missing"] {
        let once = canonicalize_path(path, resolve(path));
        assert_eq!(canonicalize_path(once, resolve(once)), once);
    }
}

#[test]
fn roots_exist_and_do_not_repeat() {
    let directories =
        found(&[("a", true), ("b", true), ("a", true), ("c", false), ("b", true), ("d", true)]);
    assert_eq!(select_roots(&directories), vec![0, 1, 5]);
}

#[test]
fn missing_directory_hides_no_later_one() {
    assert_eq!(select_roots(&found(&[("a", false), ("a", true)])), vec![1]);
}

#[test]
fn no_directories_give_no_roots() {
    assert_eq!(select_roots(&Vec::new()), Vec::<usize>::new());
}

#[test]
fn each_root_is_a_directory() {
    let roots = Roots { found: found(&[("a", false), ("b", true), ("b", true), ("c", true)]) };
    assert_eq!(roots.directory(0), Some(1));
    assert_eq!(roots.directory(1), Some(3));
    assert_eq!(roots.directory(2), None);
}
