use mountie::browser::{
    build_exec, chromium_wayland_app_id, shell_quote, window_class, Browser, BrowserFamily,
    ProfileMode,
};
use mountie::detect::{
    detect_browsers, candidates, executable_mode, default_browser, default_browser_id, exec_first_token,
    family_from_name_and_path, resolve_browser_by_name, flatpak_candidates, parse_desktop_name_and_exec,
    repair_browser, which_candidates,
};

fn brave() -> Browser {
    Browser {
        name: "Brave".into(),
        exec_path: "/usr/bin/brave-browser".into(),
        family: BrowserFamily::Chromium,
    }
}

fn firefox() -> Browser {
    Browser {
        name: "Firefox".into(),
        exec_path: "/usr/bin/firefox".into(),
        family: BrowserFamily::Firefox,
    }
}

#[test]
fn wayland_app_id_youtube() {
    assert_eq!(
        chromium_wayland_app_id(&brave(), "https://www.youtube.com/"),
        "brave-www.youtube.com__-Default"
    );
    assert_eq!(
        chromium_wayland_app_id(&brave(), "https://www.youtube.com"),
        "brave-www.youtube.com__-Default"
    );
}

#[test]
fn wayland_app_id_with_path() {
    assert_eq!(
        chromium_wayland_app_id(&brave(), "https://github.com/basecamp/omarchy"),
        "brave-github.com__basecamp_omarchy-Default"
    );
    assert_eq!(
        chromium_wayland_app_id(&brave(), "http://example.com/foo/bar"),
        "brave-example.com__foo_bar-Default"
    );
}

#[test]
fn chromium_exec_has_isolation_flags() {
    let browser = brave();
    let exec = build_exec(&browser, "YouTube1234", "https://www.youtube.com/", "/tmp/icon.png")
        .unwrap();
    assert!(exec.contains("--app="));
    assert!(exec.contains("--user-data-dir="));
    assert!(exec.contains("--class=brave-www.youtube.com__-Default"));
}

#[test]
fn firefox_exec_has_isolation_flags() {
    let browser = firefox();
    let exec = build_exec(&browser, "Maps5678", "https://maps.google.com", "/tmp/icon.png").unwrap();
    assert!(exec.contains("--no-remote"));
    assert!(exec.contains("--profile"));
    assert!(exec.contains("WebApp-Maps5678"));
}

#[test]
fn exec_first_token_handles_path_and_args() {
    assert_eq!(
        exec_first_token("/usr/lib/firefox-devedition/firefox-bin %u").as_deref(),
        Some("/usr/lib/firefox-devedition/firefox-bin")
    );
    assert_eq!(
        exec_first_token("\"/opt/Brave Software/brave\" --app=%u").as_deref(),
        Some("/opt/Brave Software/brave")
    );
}

#[test]
fn family_detects_firefox_devedition() {
    assert_eq!(
        family_from_name_and_path(
            "Firefox Developer Edition",
            "/usr/lib/firefox-devedition/firefox-bin"
        ),
        BrowserFamily::Firefox
    );
}

#[test]
fn exec_first_token_edge_cases() {
    assert_eq!(exec_first_token("   "), None);
    assert_eq!(exec_first_token("\"/unterminated path"), None);
    assert_eq!(exec_first_token("  brave\" --x").as_deref(), Some("brave"));
    assert_eq!(exec_first_token("\"\"").as_deref(), Some(""));
}

#[test]
fn family_defaults_to_chromium() {
    assert_eq!(family_from_name_and_path("Brave", "/usr/bin/brave"), BrowserFamily::Chromium);
    assert_eq!(family_from_name_and_path("Zen Browser", "/usr/bin/zen"), BrowserFamily::Firefox);
}

#[test]
fn app_id_prefixes_by_product() {
    let mk = |name: &str, path: &str| Browser {
        name: name.into(),
        exec_path: path.into(),
        family: BrowserFamily::Chromium,
    };
    let url = "https://example.com/";
    assert_eq!(
        chromium_wayland_app_id(&mk("Microsoft Edge", "/usr/bin/microsoft-edge"), url),
        "microsoft-edge-example.com__-Default"
    );
    assert_eq!(
        chromium_wayland_app_id(&mk("Edge (Flatpak)", "/var/lib/flatpak/exports/bin/com.microsoft.Edge"), url),
        "msedge-example.com__-Default"
    );
    assert_eq!(
        chromium_wayland_app_id(&mk("Google Chrome", "/usr/bin/google-chrome"), url),
        "google-chrome-example.com__-Default"
    );
    assert_eq!(
        chromium_wayland_app_id(&mk("Vivaldi", "/usr/bin/vivaldi"), url),
        "vivaldi-example.com__-Default"
    );
    assert_eq!(
        chromium_wayland_app_id(&mk("Other", "/usr/bin/other"), url),
        "chromium-example.com__-Default"
    );
}

#[test]
fn wayland_app_id_for_unparsable_url() {
    assert_eq!(chromium_wayland_app_id(&brave(), "not a url"), "brave-app__-Default");
}

#[test]
fn window_class_by_family() {
    assert_eq!(window_class(&firefox(), "Maps5678", "https://maps.google.com"), "WebApp-Maps5678");
    assert_eq!(
        window_class(&brave(), "X1", "https://maps.google.com/a/b"),
        "brave-maps.google.com__a_b-Default"
    );
}

#[test]
fn shell_quote_cases() {
    assert_eq!(shell_quote(""), "\"\"");
    assert_eq!(shell_quote("/usr/bin/brave"), "/usr/bin/brave");
    assert_eq!(shell_quote("/opt/Brave Software/brave"), "\"/opt/Brave Software/brave\"");
    assert_eq!(shell_quote("a\"b$c d"), "\"a\\\"b\\$c d\"");
}

#[test]
fn chromium_exec_exact_line() {
    let exec = build_exec(&brave(), "YouTube1234", "https://www.youtube.com/", "/tmp/icon.png").unwrap();
    assert!(exec.starts_with("/usr/bin/brave-browser --app=https://www.youtube.com/ --class=brave-www.youtube.com__-Default --name=brave-www.youtube.com__-Default --user-data-dir="));
    assert!(exec.ends_with("/mountie/profiles/YouTube1234"));
}

#[test]
fn firefox_exec_exact_line() {
    let exec = build_exec(&firefox(), "Maps5678", "https://maps.google.com", "/tmp/icon.png").unwrap();
    assert!(exec.starts_with("sh -c 'XAPP_FORCE_GTKWINDOW_ICON=/tmp/icon.png /usr/bin/firefox --class WebApp-Maps5678 --name WebApp-Maps5678 --profile "));
    assert!(exec.ends_with("/mountie/firefox/Maps5678 --no-remote https://maps.google.com'"));
}

#[test]
fn profile_mode_values_roundtrip() {
    for m in [ProfileMode::Isolated, ProfileMode::Shared] {
        assert_eq!(ProfileMode::from_desktop_value(m.as_desktop_value()), Some(m));
    }
    assert_eq!(ProfileMode::from_desktop_value("other"), None);
    assert!(ProfileMode::Isolated.is_isolated());
    assert!(ProfileMode::Shared.seeds_from_browser());
    assert!(!ProfileMode::Isolated.seeds_from_browser());
    assert!(ProfileMode::Isolated.uses_private_profile());
}

#[test]
fn candidate_tables() {
    let c = candidates();
    assert_eq!(c.len(), 23);
    assert_eq!(c[0], ("Brave", "brave-browser", BrowserFamily::Chromium));
    assert_eq!(c[22], ("Zen Browser", "zen", BrowserFamily::Firefox));
    let f = flatpak_candidates();
    assert_eq!(f.len(), 7);
    assert_eq!(f[3], ("Edge (Flatpak)", "com.microsoft.Edge", BrowserFamily::Chromium));
}

#[test]
fn which_probes_in_order() {
    assert_eq!(which_candidates("/opt/x/firefox", None), vec!["/opt/x/firefox".to_string()]);
    assert!(which_candidates("firefox", None).is_empty());
    let dirs = vec!["/home/u/bin".to_string(), "/usr/bin/".to_string()];
    assert_eq!(
        which_candidates("firefox", Some(dirs.clone())),
        vec![
            "/home/u/bin/firefox".to_string(),
            "/usr/bin/firefox".to_string(),
            "/usr/bin/firefox".to_string(),
            "/usr/local/bin/firefox".to_string(),
            "/snap/bin/firefox".to_string(),
        ]
    );
    let dev = which_candidates("firefox-devedition", Some(vec![]));
    assert_eq!(dev.len(), 3 + 12);
    assert_eq!(dev[3], "/usr/lib/firefox-devedition/firefox-devedition");
    assert_eq!(dev[14], "/opt/firefox-devedition/firefox");
}

#[test]
fn detected_list_dedups_and_keeps_default_first() {
    let mut native: Vec<Option<String>> = vec![None; 23];
    native[0] = Some("/usr/bin/brave-browser".into());
    native[1] = Some("/usr/bin/brave-browser-stable".into());
    native[11] = Some("/usr/bin/firefox".into());
    let mut flatpak: Vec<Option<String>> = vec![None; 7];
    flatpak[0] = Some("/var/lib/flatpak/exports/bin/com.brave.Browser".into());
    let default = default_browser("Firefox Web Browser", "/usr/bin/firefox");
    let list = detect_browsers(Some(default), native, flatpak);
    let names: Vec<&str> = list.iter().map(|b| b.name.as_str()).collect();
    assert_eq!(
        names,
        vec!["Default browser (Firefox Web Browser)", "Brave", "Firefox", "Brave (Flatpak)"]
    );
    assert_eq!(list[1].exec_path, "/usr/bin/brave-browser");
    assert_eq!(list[0].family, BrowserFamily::Firefox);
}

#[test]
fn lookup_by_name() {
    let list = vec![brave(), firefox()];
    assert_eq!(resolve_browser_by_name(&list, "Firefox").unwrap().name, "Firefox");
    assert_eq!(
        resolve_browser_by_name(&list, "Default browser (Firefox)").unwrap().name,
        "Firefox"
    );
    assert!(resolve_browser_by_name(&list, "Opera").is_none());
    assert_eq!(repair_browser(&list, "Opera").unwrap().name, "Brave");
    assert!(repair_browser(&Vec::<Browser>::new(), "Opera").is_none());
}

#[test]
fn default_browser_desktop_file() {
    assert_eq!(default_browser_id("  firefox.desktop\n").as_deref(), Some("firefox.desktop"));
    assert_eq!(default_browser_id(" \n"), None);
    let text = "[Desktop Entry]\nName[de]=Feuerfuchs\nName=Firefox Web Browser\nExec=firefox %u\n[Desktop Action new-window]\nName=New Window\nExec=firefox --new-window %u\n";
    let (name, exec) = parse_desktop_name_and_exec(text).unwrap();
    assert_eq!(name, "Firefox Web Browser");
    assert_eq!(exec, "firefox %u");
    assert_eq!(
        parse_desktop_name_and_exec("Exec=brave\n").unwrap(),
        ("Browser".to_string(), "brave".to_string())
    );
    assert!(parse_desktop_name_and_exec("[Desktop Entry]\nName=x\n").is_none());
}

#[test]
fn lists_default_and_firefox_devedition() {
    // A machine whose default browser is Firefox and which has Firefox Developer Edition
    // installed under /usr/lib/firefox-devedition.
    let table = candidates();
    let native: Vec<Option<String>> = table
        .iter()
        .map(|(name, bin, _)| match (*name, *bin) {
            ("Firefox", "firefox") => Some("/usr/bin/firefox".to_string()),
            ("Firefox Developer Edition", "/usr/lib/firefox-devedition/firefox-bin") => {
                Some("/usr/lib/firefox-devedition/firefox-bin".to_string())
            }
            _ => None,
        })
        .collect();
    let flatpak: Vec<Option<String>> = vec![None; flatpak_candidates().len()];
    let default = default_browser("Firefox Web Browser", "/usr/bin/firefox");
    let browsers = detect_browsers(Some(default), native, flatpak);
    assert!(
        browsers.iter().any(|b| b.name.starts_with("Default browser")),
        "missing default browser entry"
    );
    assert!(
        browsers.iter().any(|b| b.name == "Firefox Developer Edition"),
        "missing Firefox Developer Edition"
    );
    // Default should be first
    assert!(browsers[0].name.starts_with("Default browser"), "default not first: {}", browsers[0].name);
    let dev = browsers.iter().find(|b| b.name == "Firefox Developer Edition").unwrap();
    assert_eq!(dev.family, BrowserFamily::Firefox);
}

#[test]
fn execute_bits() {
    assert!(executable_mode(0o755));
    assert!(executable_mode(0o100));
    assert!(executable_mode(0o001));
    assert!(!executable_mode(0o644));
    assert!(!executable_mode(0o4666));
}
