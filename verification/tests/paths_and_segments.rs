use confguard::paths::{
    base_name, extract_segments, from_home_based, parent_dir, path_components, replace_prefix,
    to_home_based,
};

#[test]
fn test_extract_segments() {
    let path1 = "/a/b/c/d/e";
    let path2 = "/1/2/3";

    assert_eq!(extract_segments(path1, 2, "-", "{", "}"), "{d-e}");

    assert_eq!(extract_segments(path1, 5, "/", "[", "]"), "[a/b/c/d/e]");

    // When requesting more segments than available, it includes the root "/"
    // which appears as double slash due to how path components work
    assert_eq!(extract_segments(path1, 6, "/", "[", "]"), "[//a/b/c/d/e]");

    assert_eq!(extract_segments(path1, 0, "/", "[", "]"), "[]");

    assert_eq!(extract_segments(path2, 2, "::", "<", ">"), "<2::3>");
}

#[test]
fn test_path_components_behavior() {
    let components = path_components("/a/b/c");

    // First component is "/" due to the root
    assert_eq!(components[0].to_string(), "/");
}

#[test]
fn extract_segments_test_replace_prefix() {
    let base = "/old_base";
    let new_base = "/new_base";
    let path = "/old_base/mydir/myfile.txt";

    let new_path = replace_prefix(path, base, new_base).unwrap();

    assert_eq!(new_path, "/new_base/mydir/myfile.txt");
}

#[test]
fn extract_segments_test_replace_prefix_directory() {
    let base = "/old_base";
    let new_base = "/new_base";
    let path = "/old_base/mydir";

    let new_path = replace_prefix(path, base, new_base).unwrap();

    assert_eq!(new_path, "/new_base/mydir");
}

#[test]
fn extract_segments_test_replace_prefix_with_no_match() {
    let base = "/not_a_prefix";
    let new_base = "/new_base";
    let path = "/old_base/mydir/myfile.txt";

    let result = replace_prefix(path, base, new_base);

    assert!(result.is_err());
    assert_eq!(
        result.unwrap_err().message(),
        format!("Path does not start with: {:?}", base)
    );
}

#[test]
fn replace_base_test_replace_prefix() {
    let base = "/old_base";
    let new_base = "/new_base";
    let path = "/old_base/mydir/myfile.txt";

    let new_path = replace_prefix(path, base, new_base).unwrap();

    assert_eq!(new_path, "/new_base/mydir/myfile.txt");
}

#[test]
fn replace_base_test_replace_prefix_directory() {
    let base = "/old_base";
    let new_base = "/new_base";
    let path = "/old_base/mydir";

    let new_path = replace_prefix(path, base, new_base).unwrap();

    assert_eq!(new_path, "/new_base/mydir");
}

#[test]
fn replace_base_test_replace_prefix_with_no_match() {
    let base = "/not_a_prefix";
    let new_base = "/new_base";
    let path = "/old_base/mydir/myfile.txt";

    let result = replace_prefix(path, base, new_base);

    assert!(result.is_err());
    assert_eq!(
        result.unwrap_err().message(),
        format!("Path does not start with: {:?}", base)
    );
}

#[test]
fn test_to_home_based_with_home_directory() {
    let home = dirs::home_dir().unwrap();
    let home_str = home.to_str().unwrap();
    let path = format!("{}/Documents/test.txt", home_str);
    let result = to_home_based(&path, home_str).unwrap();
    assert_eq!(result, "$HOME/Documents/test.txt");
}

#[test]
fn test_to_home_based_with_relative_directory() {
    let home = dirs::home_dir().unwrap();
    let result = to_home_based("relative/Documents/test.txt", home.to_str().unwrap());
    assert!(result.is_err());
}

#[test]
fn test_to_home_based_without_home_directory() {
    let home = dirs::home_dir().unwrap();
    let result = to_home_based("/etc/config/settings.txt", home.to_str().unwrap()).unwrap();
    assert_eq!(result, "/etc/config/settings.txt");
}

#[test]
fn test_to_home_based_with_invalid_path() {
    let home = dirs::home_dir().unwrap();
    let result = to_home_based("/invalid_path", home.to_str().unwrap()).unwrap();
    assert_eq!(result, "/invalid_path");
}

#[test]
fn test_from_home_based() {
    let home = dirs::home_dir().unwrap();
    let home_str = home.to_str().unwrap();
    let path = from_home_based("$HOME", home_str);
    assert!(path.starts_with('/'));
    assert_eq!(path, home_str);
}

#[test]
fn from_home_based_expands_prefix_only() {
    assert_eq!(from_home_based("$HOME/a/b", "/root"), "/root/a/b");
    assert_eq!(from_home_based("/plain/path", "/root"), "/plain/path");
}

#[test]
fn parent_dir_cases() {
    assert_eq!(parent_dir("/a/b"), Some("/a".to_string()));
    assert_eq!(parent_dir("/a"), Some("/".to_string()));
    assert_eq!(parent_dir("a"), Some("".to_string()));
    assert_eq!(parent_dir("a/b"), Some("a".to_string()));
    assert_eq!(parent_dir("/"), None);
    assert_eq!(parent_dir(""), None);
}

#[test]
fn base_name_cases() {
    assert_eq!(base_name("/p/proj"), Some("proj".to_string()));
    assert_eq!(base_name("proj"), Some("proj".to_string()));
    assert_eq!(base_name("/p/proj/"), Some("proj".to_string()));
    assert_eq!(base_name("/"), None);
    assert_eq!(base_name("/p/.."), None);
    assert_eq!(base_name("/p/."), Some("p".to_string()));
}

#[test]
fn replace_prefix_accepts_a_trailing_slash_on_the_base() {
    let new_path = replace_prefix("/a/b/c", "/a/b/", "/x").unwrap();
    assert_eq!(new_path, "/x/c");
    let new_path = replace_prefix("/old_base/mydir", "/old_base/", "/new_base").unwrap();
    assert_eq!(new_path, "/new_base/mydir");
}

#[test]
fn path_components_drop_interior_dot_segments() {
    let comps = path_components("/a/./b");
    let views: Vec<&str> = comps.iter().map(|s| s.as_str()).collect();
    assert_eq!(views, vec!["/", "a", "b"]);
    let comps = path_components("./a");
    let views: Vec<&str> = comps.iter().map(|s| s.as_str()).collect();
    assert_eq!(views, vec![".", "a"]);
    assert_eq!(extract_segments("/a/./b", 2, "-", "", ""), "a-b");
}

#[test]
fn base_name_skips_a_trailing_dot_segment() {
    assert_eq!(base_name("/a/b/."), Some("b".to_string()));
    assert_eq!(base_name("."), None);
}

#[test]
fn path_components_relative() {
    let components = path_components("a/b//c/");
    let views: Vec<&str> = components.iter().map(|s| s.as_str()).collect();
    assert_eq!(views, vec!["a", "b", "c"]);
}
