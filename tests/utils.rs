use miou::utils::get_path;

#[test]
fn test_get_path_simple() {
    assert_eq!(get_path("/home/user", "config"), "/home/user/config");
}

#[test]
fn test_get_path_with_file() {
    assert_eq!(get_path("/var/data", "alerts.json"), "/var/data/alerts.json");
}

#[test]
fn test_get_path_relative_paths() {
    assert_eq!(get_path(".", "data"), "./data");
}

#[test]
fn test_get_path_empty_subdir() {
    assert_eq!(get_path("/home/user", ""), "/home/user/");
}

#[test]
fn test_get_path_nested_subdirs() {
    assert_eq!(get_path("/home/user", "config/settings"), "/home/user/config/settings");
}

#[test]
fn test_get_path_current_dir() {
    assert_eq!(get_path(".", "config.toml"), "./config.toml");
}

#[test]
fn test_get_path_parent_dir() {
    assert_eq!(get_path("..", "data"), "../data");
}

#[test]
fn test_get_path_with_spaces() {
    assert_eq!(get_path("/home/my folder", "my file.txt"), "/home/my folder/my file.txt");
}

#[test]
fn test_get_path_multiple_components() {
    let base = get_path("/home", "user");
    assert_eq!(get_path(&base, "config"), "/home/user/config");
}

#[test]
fn get_path_edge_cases() {
    assert_eq!(get_path("/home/", "x"), "/home/x");
    assert_eq!(get_path("/home", "/etc"), "/etc");
    assert_eq!(get_path("", "x"), "x");
}
