use mountie::browser::{BrowserFamily, ProfileMode};
use mountie::favicon::{icon_from_body, FaviconError};
use mountie::profile::{
    chromium_seed_dirs, chromium_seed_files, firefox_seed_dirs, firefox_seed_files,
    firefox_storage_files, has_extension_payload, has_origin_storage, has_site_session,
    has_substantial_file, repair_seed_needed, rewrites_profile_paths, session_subdirs,
    OriginEntry, FIREFOX_TIMES_JSON, MIN_SESSION_BYTES, chromium_config_subdir,
    firefox_profile_choice, firefox_profile_roots, is_devedition_browser,
};
use mountie::browser::Browser;
use mountie::webapp::{icon_step, keep_icon_step, IconSource, IconStep};
use mountie::choices::form_ready;

fn origin(name: &str, is_dir: bool, sizes: Vec<u64>) -> OriginEntry {
    OriginEntry { name: name.to_string(), is_dir, sizes }
}

#[test]
fn site_session_detects_substantial_idb() {
    // Empty stub (~48 KiB) should not count.
    let stub = vec![origin("https+++web.whatsapp.com", true, vec![48 * 1024])];
    assert!(!has_site_session(Some("web.whatsapp.com"), &stub));
    // Real session blob.
    let real = vec![origin("https+++web.whatsapp.com", true, vec![48 * 1024, 200 * 1024])];
    assert!(has_site_session(Some("web.whatsapp.com"), &real));
}

#[test]
fn site_session_edges() {
    assert!(has_site_session(None, &Vec::new()));
    assert!(!has_site_session(Some("web.whatsapp.com"), &Vec::new()));
    let other = vec![origin("https+++app.notion.com", true, vec![10 * 1024 * 1024])];
    assert!(!has_site_session(Some("web.whatsapp.com"), &other));
    assert!(has_substantial_file(&vec![MIN_SESSION_BYTES]));
    assert!(!has_substantial_file(&vec![MIN_SESSION_BYTES - 1]));
    assert!(!has_substantial_file(&Vec::new()));
    assert_eq!(MIN_SESSION_BYTES, 102400);
}

#[test]
fn origin_storage_needs_a_directory_for_the_host() {
    let entries = vec![
        origin("moz-extension+++83b1683e", true, Vec::new()),
        origin("https+++www.whatsapp.com", false, Vec::new()),
    ];
    assert!(!has_origin_storage(Some("web.whatsapp.com"), &entries));
    let entries = vec![origin("https+++www.whatsapp.com", true, Vec::new())];
    assert!(has_origin_storage(Some("web.whatsapp.com"), &entries));
    assert!(!has_origin_storage(None, &entries));
}

#[test]
fn extension_payloads() {
    assert!(has_extension_payload(&vec![("ublock@raymondhill.net.xpi".to_string(), false)]));
    assert!(has_extension_payload(&vec![("unpacked".to_string(), true)]));
    assert!(!has_extension_payload(&vec![("readme.txt".to_string(), false)]));
    assert!(!has_extension_payload(&Vec::new()));
}

#[test]
fn repair_seeding_decisions() {
    let (chromium, firefox) = (BrowserFamily::Chromium, BrowserFamily::Firefox);
    let (isolated, shared) = (ProfileMode::Isolated, ProfileMode::Shared);
    assert!(repair_seed_needed(shared, chromium, false, false, true, None, true));
    assert!(!repair_seed_needed(shared, chromium, true, false, false, None, false));
    assert!(!repair_seed_needed(isolated, chromium, false, false, false, None, false));
    assert!(repair_seed_needed(shared, firefox, true, true, false, None, true));
    assert!(repair_seed_needed(shared, firefox, true, true, true, Some(true), false));
    assert!(!repair_seed_needed(shared, firefox, true, true, true, Some(true), true));
    assert!(!repair_seed_needed(shared, firefox, true, true, true, Some(false), false));
    assert!(!repair_seed_needed(shared, firefox, true, true, true, None, false));
    assert!(!repair_seed_needed(isolated, firefox, false, false, false, Some(true), false));
}

#[test]
fn seed_lists() {
    let dirs = chromium_seed_dirs();
    assert_eq!(dirs.len(), 10);
    assert_eq!(dirs[0], "Extensions");
    assert!(dirs.contains(&"IndexedDB"));
    let files = chromium_seed_files();
    assert_eq!(files.len(), 11);
    assert!(files.contains(&"Login Data"));
    assert_eq!(files[10], "Bookmarks");
    assert_eq!(firefox_seed_dirs(), vec!["extensions", "extension-store", "extension-store-menus", "browser-extension-data"]);
    assert_eq!(firefox_storage_files().len(), 6);
    assert_eq!(firefox_storage_files()[3], "storage/ls-archive.sqlite");
    let ff = firefox_seed_files();
    assert_eq!(ff.len(), 23);
    assert_eq!(ff[0], "extensions.json");
    assert_eq!(ff[22], "prefs.js");
    assert_eq!(session_subdirs(), vec!["idb", "ls", "cache"]);
    assert!(rewrites_profile_paths("extensions.json"));
    assert!(rewrites_profile_paths("logins.json"));
    assert!(!rewrites_profile_paths("addonStartup.json.lz4"));
    assert!(!rewrites_profile_paths("prefs.js"));
    assert_eq!(FIREFOX_TIMES_JSON, r#"{"created":0}"#);
}

fn step_name(s: &IconStep) -> String {
    match s {
        IconStep::Fetch => "fetch".to_string(),
        IconStep::Convert(p) => format!("convert {p}"),
        IconStep::Copy(p) => format!("copy {p}"),
        IconStep::Keep => "keep".to_string(),
        IconStep::Missing => "missing".to_string(),
    }
}

#[test]
fn icon_steps() {
    let dest = "/d/icons/A1234.png";
    assert_eq!(step_name(&icon_step(&IconSource::Fetch, dest, false)), "fetch");
    assert_eq!(
        step_name(&icon_step(&IconSource::Local("/tmp/x.jpg".into()), dest, true)),
        "convert /tmp/x.jpg"
    );
    assert_eq!(
        step_name(&icon_step(&IconSource::PreparedPng("/d/icons/.preview-7.png".into()), dest, false)),
        "copy /d/icons/.preview-7.png"
    );
    assert_eq!(step_name(&icon_step(&IconSource::PreparedPng(dest.into()), dest, true)), "keep");
    assert_eq!(step_name(&icon_step(&IconSource::KeepExisting, dest, true)), "keep");
    assert_eq!(step_name(&icon_step(&IconSource::KeepExisting, dest, false)), "missing");

    assert_eq!(step_name(&keep_icon_step("/old.png", true, dest, true)), "keep");
    assert_eq!(step_name(&keep_icon_step("/old.png", true, dest, false)), "copy /old.png");
    assert_eq!(step_name(&keep_icon_step("/old.png", false, dest, false)), "missing");
    assert_eq!(step_name(&keep_icon_step(dest, true, dest, false)), "keep");
}

#[test]
fn empty_icon_body_is_refused() {
    assert_eq!(icon_from_body(&[]).unwrap_err(), FaviconError::EmptyBody);
    assert_eq!(icon_from_body(b"<html>").unwrap_err(), FaviconError::Image);
}

#[test]
fn form_readiness() {
    assert!(form_ready("YouTube", "youtube.com"));
    assert!(!form_ready("  ", "youtube.com"));
    assert!(!form_ready("YouTube", "\t"));
}

fn browser(name: &str, path: &str, family: BrowserFamily) -> Browser {
    Browser { name: name.into(), exec_path: path.into(), family }
}

#[test]
fn browser_profile_locations() {
    assert_eq!(chromium_config_subdir(&browser("Brave", "/usr/bin/brave-browser", BrowserFamily::Chromium)), "BraveSoftware/Brave-Browser");
    assert_eq!(chromium_config_subdir(&browser("Google Chrome", "/usr/bin/google-chrome-stable", BrowserFamily::Chromium)), "google-chrome");
    assert_eq!(chromium_config_subdir(&browser("Edge (Flatpak)", "/var/lib/flatpak/exports/bin/com.microsoft.Edge", BrowserFamily::Chromium)), "microsoft-edge");
    assert_eq!(chromium_config_subdir(&browser("Chromium", "/usr/bin/chromium", BrowserFamily::Chromium)), "chromium");
    let dev = browser("Firefox Developer Edition", "/usr/lib/firefox-devedition/firefox-bin", BrowserFamily::Firefox);
    assert!(is_devedition_browser(&dev));
    assert_eq!(firefox_profile_roots(&dev), vec![".config/mozilla/firefox", ".mozilla/firefox"]);
    let ff = browser("Firefox", "/usr/bin/firefox", BrowserFamily::Firefox);
    assert!(!is_devedition_browser(&ff));
    assert_eq!(firefox_profile_roots(&browser("LibreWolf", "/usr/bin/librewolf", BrowserFamily::Firefox)), vec![".librewolf"]);
    let names: Vec<String> = vec![
        "/h/.mozilla/firefox/ab.default".into(),
        "/h/.mozilla/firefox/cd.default-release".into(),
        "/h/.config/mozilla/firefox/ef.dev-edition-default".into(),
    ];
    assert_eq!(firefox_profile_choice(&names, false), Some(1));
    assert_eq!(firefox_profile_choice(&names, true), Some(2));
    assert_eq!(firefox_profile_choice(&names[..1].to_vec(), false), Some(0));
    assert_eq!(firefox_profile_choice(&names[..1].to_vec(), true), None);
}

#[test]
fn prepared_icon_at_same_path_is_kept() {
    assert_eq!(step_name(&icon_step(&IconSource::PreparedPng("/d/icons//A1.png".into()), "/d/icons/A1.png", true)), "keep");
    assert_eq!(step_name(&keep_icon_step("/d/./icons/A1.png", true, "/d/icons/A1.png", false)), "keep");
}
