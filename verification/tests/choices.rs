use mountie::browser::ProfileMode;
use mountie::choices::{
    delete_body, mentions_icon, next_selection, profile_mode_from_index, profile_mode_hint,
    profile_mode_subtitle, profile_mode_to_index, restored_selection, row_icon, row_subtitle,
    title_bar_subtitle, RowIcon,
};

#[test]
fn profile_indices() {
    assert_eq!(profile_mode_from_index(1), ProfileMode::Shared);
    assert_eq!(profile_mode_from_index(0), ProfileMode::Isolated);
    assert_eq!(profile_mode_from_index(7), ProfileMode::Isolated);
    for m in [ProfileMode::Isolated, ProfileMode::Shared] {
        assert_eq!(profile_mode_from_index(profile_mode_to_index(m)), m);
    }
    assert!(delete_body(ProfileMode::Shared).contains("not modified"));
}

#[test]
fn selection_moves_and_wraps() {
    assert_eq!(next_selection(-1, 1, 3), 0);
    assert_eq!(next_selection(-1, -1, 3), 2);
    assert_eq!(next_selection(2, 1, 3), 0);
    assert_eq!(next_selection(0, -1, 3), 2);
    assert_eq!(next_selection(1, 1, 3), 2);
}

#[test]
fn row_pictures_and_subtitles() {
    assert!(matches!(row_icon(true, "/x/a.png"), RowIcon::File));
    assert!(matches!(row_icon(false, "brave-x"), RowIcon::Themed(n) if n == "brave-x"));
    assert!(matches!(row_icon(false, "/x/a.png"), RowIcon::Generic));
    assert!(matches!(row_icon(false, ""), RowIcon::Generic));
    assert_eq!(row_subtitle("Brave", "https://a.example/"), "Brave · https://a.example/");
}

#[test]
fn selection_restored_after_reload() {
    let names: Vec<String> = vec!["A1".into(), "B2".into(), "A1".into()];
    assert_eq!(restored_selection(&names, Some("B2")), Some(1));
    assert_eq!(restored_selection(&names, Some("A1")), Some(2));
    assert_eq!(restored_selection(&names, Some("Z9")), Some(0));
    assert_eq!(restored_selection(&names, None), Some(0));
    assert_eq!(restored_selection(&Vec::new(), Some("A1")), None);
}

#[test]
fn icon_errors_are_recognised() {
    assert!(mentions_icon("favicon fetch failed; choose an icon image instead"));
    assert!(mentions_icon("no existing icon to keep"));
    assert!(!mentions_icon("name is required"));
}

#[test]
fn dialog_texts() {
    assert_eq!(
        profile_mode_subtitle(ProfileMode::Isolated),
        "Separate empty profile — independent of your main browser"
    );
    assert!(profile_mode_hint(ProfileMode::Shared).contains("IndexedDB/localStorage"));
    assert!(profile_mode_hint(ProfileMode::Isolated).starts_with("Note: Starts signed out"));
    assert!(title_bar_subtitle(false).contains("Frameless"));
    assert!(title_bar_subtitle(true).starts_with("Native window title bar"));
}
