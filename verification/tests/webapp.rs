use mountie::browser::{Browser, BrowserFamily, ProfileMode};
use mountie::paths::path_join_exec;
use mountie::webapp::{
    checked_name_and_url, codename_with_number, domain_suffix, firefox_user_chrome,
    firefox_user_js, generate_codename, icon_file_candidates, normalize_firefox_prefs_js,
    origin_matches_host, plan_launcher_in, plan_profile_update, repair_changed,
    repair_needs_fix, repair_step, rewrite_firefox_profile_paths, seeds_origin, RepairStep,
    WebAppError,
};
use mountie::weburl::UrlError;
use mountie::desktop::parse_desktop_entry;
use mountie::profile::plan_firefox_chrome;

#[test]
fn codename_is_alphanumeric_with_digits() {
    let c = generate_codename("You Tube!");
    assert!(c.starts_with("YouTube"), "got {c}");
    assert_eq!(c.len(), "YouTube".len() + 4);
    assert!(c.chars().all(|ch| ch.is_ascii_alphanumeric()));
}

#[test]
fn codename_fallback_when_empty() {
    let c = generate_codename("!!!");
    assert!(c.starts_with("WebApp"));
}

#[test]
fn codename_digits_exact() {
    assert_eq!(codename_with_number("You Tube!", 1234), "YouTube1234");
    assert_eq!(codename_with_number("", 9999), "WebApp9999");
    assert_eq!(codename_with_number("Ünïcode Mail", 1000), "ncodeMail1000");
}

#[test]
fn origin_matches_whatsapp_and_google_hosts() {
    assert!(origin_matches_host("https+++web.whatsapp.com", "web.whatsapp.com"));
    assert!(origin_matches_host("https+++www.whatsapp.com", "web.whatsapp.com"));
    assert!(origin_matches_host(
        "https+++flows.whatsapp.net^partitionKey=%28https%2Cwhatsapp.com%29",
        "web.whatsapp.com"
    ));
    assert!(origin_matches_host("https+++accounts.google.com", "mail.google.com"));
    assert!(!origin_matches_host("https+++app.notion.com", "web.whatsapp.com"));
    assert!(!origin_matches_host(
        "moz-extension+++83b1683e-ad7e-4388-a5d6-ec89dd05df0c",
        "web.whatsapp.com"
    ));
}

#[test]
fn domain_suffix_cases() {
    assert_eq!(domain_suffix("web.whatsapp.com").as_deref(), Some("whatsapp.com"));
    assert_eq!(domain_suffix("whatsapp.com").as_deref(), Some("whatsapp.com"));
    assert_eq!(domain_suffix("localhost"), None);
    assert_eq!(domain_suffix("a."), None);
    assert_eq!(domain_suffix(".com"), None);
    assert_eq!(domain_suffix("x..com"), None);
}

#[test]
fn seeding_filter() {
    assert!(seeds_origin("moz-extension+++abc", None));
    assert!(seeds_origin("https+++web.whatsapp.com", Some("web.whatsapp.com")));
    assert!(!seeds_origin("https+++web.whatsapp.com", None));
    assert!(!seeds_origin("https+++example.org", Some("web.whatsapp.com")));
}

#[test]
fn normalize_prefs_forces_in_titlebar() {
    let input = r#"// Mozilla User Preferences
user_pref("browser.tabs.inTitlebar", 0);
user_pref("toolkit.legacyUserProfileCustomizations.stylesheets", false);
user_pref("browser.search.region", "US");
"#;
    let out = normalize_firefox_prefs_js(input, false);
    assert!(out.contains(r#"user_pref("browser.tabs.inTitlebar", 1)"#));
    assert!(out.contains(r#"user_pref("toolkit.legacyUserProfileCustomizations.stylesheets", true)"#));
    assert!(!out.contains(r#"user_pref("browser.tabs.inTitlebar", 0)"#));
    assert!(out.contains(r#"user_pref("browser.search.region", "US")"#));

    let with_bar = normalize_firefox_prefs_js(input, true);
    assert!(with_bar.contains(r#"user_pref("browser.tabs.inTitlebar", 0)"#));
}

#[test]
fn normalize_prefs_exact_output() {
    let out = normalize_firefox_prefs_js("a\r\nuser_pref(\"sidebar.revamp\", true);\nb", true);
    assert_eq!(
        out,
        "a\nb\nuser_pref(\"toolkit.legacyUserProfileCustomizations.stylesheets\", true);\nuser_pref(\"browser.tabs.inTitlebar\", 0);\nuser_pref(\"sidebar.verticalTabs\", false);\nuser_pref(\"sidebar.revamp\", false);\nuser_pref(\"sidebar.visibility\", \"hide\");\n"
    );
    assert!(normalize_firefox_prefs_js("", false).ends_with("user_pref(\"sidebar.visibility\", \"hide\");\n"));
}

/// Profile files as the app chrome sees them: `userChrome.css`, `user.js`, `prefs.js`.
struct Profile {
    chrome: String,
    user_js: String,
    prefs: Option<String>,
}

/// Plans the app-chrome writes for `profile`, applies them, and says whether any changed.
fn ensure_chrome(profile: &mut Profile, show_title_bar: bool) -> bool {
    let w = plan_firefox_chrome(
        &profile.chrome,
        &profile.user_js,
        profile.prefs.as_deref(),
        show_title_bar,
    );
    let changed = w.changed();
    if let Some(c) = w.user_chrome {
        profile.chrome = c;
    }
    if let Some(j) = w.user_js {
        profile.user_js = j;
    }
    if let Some(p) = w.prefs {
        profile.prefs = Some(p);
    }
    changed
}

#[test]
fn ensure_firefox_app_chrome_writes_frameless_and_titled() {
    // A broken Shared profile (native title bar), with no chrome files yet.
    let mut profile = Profile {
        chrome: String::new(),
        user_js: String::new(),
        prefs: Some(
            "user_pref(\"browser.tabs.inTitlebar\", 0);\nuser_pref(\"toolkit.legacyUserProfileCustomizations.stylesheets\", true);\n"
                .to_string(),
        ),
    };

    assert!(ensure_chrome(&mut profile, false));
    let chrome = &profile.chrome;
    assert!(chrome.contains("#navigator-toolbox"));
    assert!(chrome.contains("#titlebar"));
    assert!(
        chrome.contains("#sidebar-container") && chrome.contains("#vertical-tabs"),
        "must hide Firefox vertical tabs sidebar"
    );
    let user_js = &profile.user_js;
    assert!(user_js.contains(r#"user_pref("browser.tabs.inTitlebar", 1)"#));
    assert!(user_js.contains(r#"user_pref("sidebar.verticalTabs", false)"#));
    assert!(user_js.contains(r#"user_pref("sidebar.revamp", false)"#));
    let prefs = profile.prefs.clone().unwrap();
    assert!(prefs.contains(r#"user_pref("browser.tabs.inTitlebar", 1)"#));
    assert!(!prefs.contains(r#"user_pref("browser.tabs.inTitlebar", 0)"#));
    assert!(prefs.contains(r#"user_pref("sidebar.verticalTabs", false)"#));
    assert!(!prefs.contains(r#"user_pref("sidebar.verticalTabs", true)"#));

    // Second call is a no-op when files already match.
    assert!(!ensure_chrome(&mut profile, false));

    // Switch to show title bar — sidebars still hidden.
    assert!(ensure_chrome(&mut profile, true));
    let chrome = &profile.chrome;
    assert!(!chrome.contains("#navigator-toolbox {\n  display: none"));
    assert!(chrome.contains("#TabsToolbar"));
    assert!(chrome.contains("#sidebar-container"));
    let user_js = &profile.user_js;
    assert!(user_js.contains(r#"user_pref("browser.tabs.inTitlebar", 0)"#));
    assert!(user_js.contains(r#"user_pref("sidebar.verticalTabs", false)"#));

    assert_eq!(firefox_user_chrome(true), profile.chrome);
    assert_eq!(firefox_user_js(true), profile.user_js);
}

#[test]
fn chrome_plan_without_prefs_file() {
    let w = plan_firefox_chrome("", "", None, false);
    assert!(w.changed());
    assert_eq!(w.user_chrome.as_deref(), Some(firefox_user_chrome(false)));
    assert_eq!(w.user_js, Some(firefox_user_js(false)));
    assert_eq!(w.prefs, None);
    let settled = plan_firefox_chrome(firefox_user_chrome(false), &firefox_user_js(false), None, false);
    assert!(!settled.changed());
}

#[test]
fn chrome_plan_prefs_alone_is_no_change() {
    let prefs = "user_pref(\"browser.tabs.inTitlebar\", 0);\n";
    let w = plan_firefox_chrome(firefox_user_chrome(false), &firefox_user_js(false), Some(prefs), false);
    assert!(w.user_chrome.is_none() && w.user_js.is_none());
    assert_eq!(w.prefs, Some(normalize_firefox_prefs_js(prefs, false)));
    assert!(!w.changed());
}

#[test]
fn normalize_prefs_is_idempotent() {
    let input = "// Mozilla User Preferences\nuser_pref(\"sidebar.revamp\", true);\nuser_pref(\"a.b\", 1);";
    let once = normalize_firefox_prefs_js(input, true);
    assert_eq!(normalize_firefox_prefs_js(&once, true), once);
    let once = normalize_firefox_prefs_js("", false);
    assert_eq!(normalize_firefox_prefs_js(&once, false), once);
    // A dropped line may end with a carriage return.
    let once = normalize_firefox_prefs_js("user_pref(\"sidebar.revamp\", true);\r\r\nkeep();\n", true);
    assert_eq!(normalize_firefox_prefs_js(&once, true), once);
}

#[test]
fn rewrite_profile_paths() {
    let text = r#"{"path":"/home/u/.mozilla/p1/ext.xpi","uri":"file:///home/u/.mozilla/p1/x"}"#;
    let out = rewrite_firefox_profile_paths(text, "/home/u/.mozilla/p1", "/data/ff/App1");
    assert_eq!(out, r#"{"path":"/data/ff/App1/ext.xpi","uri":"file:///data/ff/App1/x"}"#);
    assert_eq!(rewrite_firefox_profile_paths(text, "/same", "/same"), text);
    assert_eq!(rewrite_firefox_profile_paths("ab", "", "-"), "-a-b-");
}

#[test]
fn checked_fields() {
    assert_eq!(checked_name_and_url("  ", "example.com"), Err(WebAppError::NameRequired));
    assert_eq!(checked_name_and_url("X", "  "), Err(WebAppError::Url(UrlError::Empty)));
    assert_eq!(checked_name_and_url("X", "http://"), Err(WebAppError::Url(UrlError::Invalid)));
    let (n, u) = checked_name_and_url("  My App ", "example.com/path").unwrap();
    assert_eq!(n, "My App");
    assert_eq!(u, "https://example.com/path");
}

#[test]
fn launcher_plan_lists_back() {
    let browser = Browser {
        name: "Brave".into(),
        exec_path: "/usr/bin/brave-browser".into(),
        family: BrowserFamily::Chromium,
    };
    let plan = plan_launcher_in(
        "/home/u/.local/share",
        "YouTube1234",
        "YouTube",
        "https://www.youtube.com/",
        &browser,
        "/home/u/.local/share/mountie/icons/YouTube1234.png",
        ProfileMode::Isolated,
        false,
    );
    assert_eq!(plan.entry.path, "/home/u/.local/share/applications/webapp-YouTube1234.desktop");
    assert_eq!(plan.entry.startup_wm_class, "brave-www.youtube.com__-Default");
    assert_eq!(
        plan.entry.exec_line,
        "/usr/bin/brave-browser --app=https://www.youtube.com/ --class=brave-www.youtube.com__-Default --name=brave-www.youtube.com__-Default --user-data-dir=/home/u/.local/share/mountie/profiles/YouTube1234"
    );
    let back = parse_desktop_entry(
        &plan.entry.path,
        Some("webapp-YouTube1234.desktop"),
        &plan.content,
    )
    .unwrap();
    assert_eq!(back.name, plan.entry.name);
    assert_eq!(back.exec_line, plan.entry.exec_line);
    assert_eq!(back.startup_wm_class, plan.entry.startup_wm_class);
    assert_eq!(back.icon, plan.entry.icon);
    assert_eq!(back.profile_mode, ProfileMode::Isolated);
    assert!(!back.show_title_bar);
}

#[test]
fn profile_update_plans() {
    let p = plan_profile_update(ProfileMode::Shared, ProfileMode::Isolated, Some(BrowserFamily::Chromium), BrowserFamily::Firefox, "Brave", "Firefox");
    assert!(p.wipe_all && p.remove_family.is_none() && !p.force_seed);
    let p = plan_profile_update(ProfileMode::Isolated, ProfileMode::Isolated, Some(BrowserFamily::Chromium), BrowserFamily::Firefox, "Brave", "Firefox");
    assert!(!p.wipe_all && p.remove_family == Some(BrowserFamily::Chromium) && !p.force_seed);
    let p = plan_profile_update(ProfileMode::Shared, ProfileMode::Shared, None, BrowserFamily::Chromium, "Brave", "Brave");
    assert!(!p.wipe_all && p.remove_family.is_none() && !p.force_seed);
    let p = plan_profile_update(ProfileMode::Isolated, ProfileMode::Shared, Some(BrowserFamily::Chromium), BrowserFamily::Chromium, "Brave", "Brave");
    assert!(p.force_seed && p.remove_family.is_none());
}

#[test]
fn repair_decisions() {
    let browser = Browser {
        name: "Brave".into(),
        exec_path: "/usr/bin/brave-browser".into(),
        family: BrowserFamily::Chromium,
    };
    let plan = plan_launcher_in("/b", "A1234", "A", "https://a.example/", &browser, "/b/mountie/icons/A1234.png", ProfileMode::Isolated, false);
    let e = &plan.entry;
    assert!(!repair_needs_fix(e, BrowserFamily::Chromium, &e.startup_wm_class, &e.exec_line, &plan.content, &e.icon, false));
    let old = plan.content.replace("X-WebApp-ShowTitleBar=false\n", "");
    assert!(repair_needs_fix(e, BrowserFamily::Chromium, &e.startup_wm_class, &e.exec_line, &old, &e.icon, false));
    assert!(repair_needs_fix(e, BrowserFamily::Chromium, "WebApp-A1234", &e.exec_line, &plan.content, &e.icon, false));
    assert!(repair_needs_fix(e, BrowserFamily::Chromium, &e.startup_wm_class, &e.exec_line, &plan.content, "/other.png", false));
}

#[test]
fn icon_lookup_order() {
    let (c, fb) = icon_file_candidates("A1", "brave-x", Some("/b"));
    assert_eq!(c[0], "brave-x");
    assert_eq!(c[1], "/b/mountie/icons/A1.png");
    assert_eq!(c[2], "/b/icons/hicolor/256x256/apps/brave-x.png");
    assert_eq!(c.len(), 8);
    assert_eq!(fb, "/b/mountie/icons/A1.png");
    let (c, fb) = icon_file_candidates("A1", "/p/i.png", None);
    assert_eq!(c, vec!["/p/i.png".to_string()]);
    assert_eq!(fb, "/p/i.png");
    assert_eq!(path_join_exec("/b", "/abs"), "/abs");
}

#[test]
fn repair_after_write_is_noop() {
    for (browser, mode) in [
        (
            Browser {
                name: "Brave".into(),
                exec_path: "/usr/bin/brave-browser".into(),
                family: BrowserFamily::Chromium,
            },
            ProfileMode::Shared,
        ),
        (
            Browser {
                name: "Firefox".into(),
                exec_path: "/usr/bin/firefox".into(),
                family: BrowserFamily::Firefox,
            },
            ProfileMode::Shared,
        ),
    ] {
        let plan = plan_launcher_in(
            "/home/u/.local/share",
            "WhatsApp4821",
            "WhatsApp",
            "https://web.whatsapp.com/",
            &browser,
            "/home/u/.local/share/mountie/icons/WhatsApp4821.png",
            mode,
            true,
        );
        let app = parse_desktop_entry(
            &plan.entry.path,
            Some("webapp-WhatsApp4821.desktop"),
            &plan.content,
        )
        .unwrap();
        assert!(!repair_needs_fix(
            &app,
            browser.family,
            &plan.entry.startup_wm_class,
            &plan.entry.exec_line,
            &plan.content,
            &plan.entry.icon,
            false,
        ));
        // A pending re-seed of a shared Firefox profile rewrites the launcher.
        assert_eq!(
            repair_needs_fix(
                &app,
                browser.family,
                &plan.entry.startup_wm_class,
                &plan.entry.exec_line,
                &plan.content,
                &plan.entry.icon,
                true,
            ),
            browser.family == BrowserFamily::Firefox
        );
    }
}

#[test]
fn repair_step_skips_launcher_without_url() {
    assert_eq!(repair_step(true, true, true), RepairStep::Skip);
    assert_eq!(repair_step(true, false, false), RepairStep::Skip);
    assert!(!repair_changed(RepairStep::Skip));
}

#[test]
fn repair_step_rewrites_outdated_launcher() {
    assert_eq!(repair_step(false, true, false), RepairStep::Rewrite);
    assert_eq!(repair_step(false, true, true), RepairStep::Rewrite);
    assert!(repair_changed(RepairStep::Rewrite));
}

#[test]
fn repair_step_reports_chrome_change_on_current_launcher() {
    assert_eq!(repair_step(false, false, true), RepairStep::Report(true));
    assert_eq!(repair_step(false, false, false), RepairStep::Report(false));
    assert!(repair_changed(RepairStep::Report(true)));
    assert!(!repair_changed(RepairStep::Report(false)));
}
