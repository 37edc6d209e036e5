use mountie::paths::{
    chromium_profile_path_in, desktop_path_in, firefox_profile_path_in, icon_path_in, icons_dir,
    is_manager_tag, path_join_exec, required_dirs_in, data_dir_in, legacy_data_dir_in,
    legacy_anchor_data_dir_in, applications_dir_in, desktop_path, same_path,
};

#[test]
fn manager_tags() {
    assert!(is_manager_tag("mountie"));
    assert!(is_manager_tag("anchor"));
    assert!(is_manager_tag("zorin-webapp-manager"));
    assert!(!is_manager_tag("Mountie"));
}

#[test]
fn layout_under_base() {
    let b = "/home/u/.local/share";
    assert_eq!(data_dir_in(b), "/home/u/.local/share/mountie");
    assert_eq!(legacy_data_dir_in(b), "/home/u/.local/share/zorin-webapp-manager");
    assert_eq!(legacy_anchor_data_dir_in(b), "/home/u/.local/share/anchor");
    assert_eq!(applications_dir_in(b), "/home/u/.local/share/applications");
    assert_eq!(desktop_path_in(b, "X1"), "/home/u/.local/share/applications/webapp-X1.desktop");
    assert_eq!(icon_path_in(b, "X1"), "/home/u/.local/share/mountie/icons/X1.png");
    assert_eq!(chromium_profile_path_in(b, "X1"), "/home/u/.local/share/mountie/profiles/X1");
    assert_eq!(firefox_profile_path_in(b, "X1"), "/home/u/.local/share/mountie/firefox/X1");
    assert_eq!(required_dirs_in(b).len(), 5);
}

#[test]
fn join_rules() {
    assert_eq!(path_join_exec("", "a"), "a");
    assert_eq!(path_join_exec("/x/", "a"), "/x/a");
    assert_eq!(path_join_exec("/x", "/a"), "/a");
    assert_eq!(path_join_exec("/x", ""), "/x/");
}

#[test]
fn environment_paths() {
    if let Ok(d) = icons_dir() {
        assert!(d.ends_with("/mountie/icons"));
    }
    if let Ok(p) = desktop_path("Q1") {
        assert!(p.ends_with("/applications/webapp-Q1.desktop"));
    }
}

#[test]
fn environment_base_shape() {
    if let Ok(b) = mountie::paths::data_base() {
        assert!(!b.is_empty());
        assert!(b.starts_with('/') || b.ends_with("/.local/share"), "got {b}");
    }
    if let Some(h) = mountie::paths::home_dir() {
        assert!(!h.is_empty());
    }
}

#[test]
fn paths_compare_by_components() {
    assert!(same_path("/a//b.png", "/a/b.png"));
    assert!(same_path("/a/./b.png", "/a/b.png"));
    assert!(same_path("/a/b/", "/a/b"));
    assert!(same_path("//a", "/a"));
    assert!(!same_path("a/b", "/a/b"));
    assert!(!same_path("./a", "a"));
    assert!(same_path("./a", "./a/"));
    assert!(!same_path("/a/../b", "/b"));
    assert!(!same_path("/a/b", "/a/c"));
    assert!(same_path("", ""));
}
