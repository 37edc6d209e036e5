use mountie::browser::ProfileMode;
use mountie::desktop::{
    codename_from_file_name, desktop_file_content, escape_value, is_managed_file_name,
    managed_apps, parse_desktop_entry, DesktopError, DesktopFile,
};
use mountie::paths::MANAGER_TAG;

fn sample(manager: &str) -> String {
    format!(
        r#"[Desktop Entry]
Version=1.0
Type=Application
Name=Test App
Comment=Web App
Exec=/usr/bin/brave-browser --app=https://example.com --class=WebApp-TestApp9999 --name=WebApp-TestApp9999 --user-data-dir=/tmp/prof
Terminal=false
Icon=/tmp/icon.png
StartupWMClass=WebApp-TestApp9999
StartupNotify=true
Categories=Network;WebBrowser;
X-WebApp-Manager={manager}
X-WebApp-URL=https://example.com
X-WebApp-Browser=Brave
X-WebApp-Isolated=true
X-WebApp-ProfileMode=isolated
X-WebApp-ShowTitleBar=false
"#
    )
}

fn parse(file_name: &str, text: &str) -> Result<mountie::desktop::DesktopEntry, DesktopError> {
    let path = format!("/tmp/apps/{file_name}");
    parse_desktop_entry(&path, Some(file_name), text)
}

#[test]
fn write_and_parse_roundtrip() {
    let content = sample(MANAGER_TAG);

    // Legacy manager tag is accepted
    let legacy = content
        .replace(
            &format!("X-WebApp-Manager={MANAGER_TAG}"),
            "X-WebApp-Manager=zorin-webapp-manager",
        )
        .replace("TestApp9999", "Legacy9999")
        .replace("Test App", "Legacy App");
    let legacy_entry = parse("webapp-Legacy9999.desktop", &legacy).unwrap();
    assert_eq!(legacy_entry.codename, "Legacy9999");
    assert_eq!(legacy_entry.profile_mode, ProfileMode::Isolated);

    let entry = parse("webapp-TestApp9999.desktop", &content).unwrap();
    assert_eq!(entry.name, "Test App");
    assert_eq!(entry.url, "https://example.com");
    assert_eq!(entry.browser, "Brave");
    assert_eq!(entry.codename, "TestApp9999");
    assert!(entry.exec_line.contains("--app="));
    assert_eq!(entry.startup_wm_class, "WebApp-TestApp9999");
    assert_eq!(entry.profile_mode, ProfileMode::Isolated);
    assert!(!entry.show_title_bar);

    // Shared mode + legacy Isolated=false without ProfileMode
    let shared = content
        .replace("TestApp9999", "Shared9999")
        .replace("Test App", "Shared App")
        .replace("X-WebApp-Isolated=true", "X-WebApp-Isolated=false")
        .replace("X-WebApp-ProfileMode=isolated", "X-WebApp-ProfileMode=shared")
        .replace("X-WebApp-ShowTitleBar=false", "X-WebApp-ShowTitleBar=true");
    let shared_entry = parse("webapp-Shared9999.desktop", &shared).unwrap();
    assert_eq!(shared_entry.profile_mode, ProfileMode::Shared);
    assert!(shared_entry.show_title_bar);

    // Missing ShowTitleBar key defaults to false (frameless).
    let no_title_body = content
        .replace("TestApp9999", "NoTitleKey9999")
        .lines()
        .filter(|l| !l.starts_with("X-WebApp-ShowTitleBar="))
        .collect::<Vec<_>>()
        .join("\n");
    assert!(!parse("webapp-NoTitleKey9999.desktop", &no_title_body).unwrap().show_title_bar);

    let legacy_shared_body = content
        .replace("TestApp9999", "LegacyShared9999")
        .replace("X-WebApp-Isolated=true", "X-WebApp-Isolated=false")
        .lines()
        .filter(|l| !l.starts_with("X-WebApp-ProfileMode="))
        .collect::<Vec<_>>()
        .join("\n");
    assert_eq!(
        parse("webapp-LegacyShared9999.desktop", &legacy_shared_body).unwrap().profile_mode,
        ProfileMode::Shared
    );
}

#[test]
fn written_launcher_reads_back() {
    let text = desktop_file_content(
        "My App",
        "https://example.org/x",
        "Firefox",
        "/home/u/.local/share/mountie/icons/MyApp1234.png",
        "sh -c 'firefox --class WebApp-MyApp1234'",
        "WebApp-MyApp1234",
        ProfileMode::Shared,
        true,
    );
    assert!(text.starts_with("[Desktop Entry]\nVersion=1.0\nType=Application\nName=My App\n"));
    assert!(text.contains("X-WebApp-Manager=mountie\n"));
    assert!(text.contains("X-WebApp-Isolated=false\nX-WebApp-ProfileMode=shared\nX-WebApp-ShowTitleBar=true\n"));
    let e = parse("webapp-MyApp1234.desktop", &text).unwrap();
    assert_eq!(e.codename, "MyApp1234");
    assert_eq!(e.name, "My App");
    assert_eq!(e.url, "https://example.org/x");
    assert_eq!(e.browser, "Firefox");
    assert_eq!(e.icon, "/home/u/.local/share/mountie/icons/MyApp1234.png");
    assert_eq!(e.exec_line, "sh -c 'firefox --class WebApp-MyApp1234'");
    assert_eq!(e.startup_wm_class, "WebApp-MyApp1234");
    assert_eq!(e.profile_mode, ProfileMode::Shared);
    assert!(e.show_title_bar);
    assert_eq!(e.path, "/tmp/apps/webapp-MyApp1234.desktop");
}

#[test]
fn escaping_values() {
    assert_eq!(escape_value("a\\b\nc\rd"), "a\\\\b\\ncd");
    assert_eq!(escape_value("plain"), "plain");
}

#[test]
fn parse_errors() {
    let content = sample(MANAGER_TAG);
    let no_manager: String = content
        .lines()
        .filter(|l| !l.starts_with("X-WebApp-Manager="))
        .collect::<Vec<_>>()
        .join("\n");
    assert!(matches!(parse("webapp-A1.desktop", &no_manager), Err(DesktopError::MissingManager)));
    match parse("webapp-A1.desktop", &sample("someone-else")) {
        Err(DesktopError::NotManaged(t)) => assert_eq!(t, "someone-else"),
        other => panic!("unexpected {other:?}"),
    }
    assert!(matches!(
        parse_desktop_entry("/x", None, &content),
        Err(DesktopError::BadFileName)
    ));
    assert!(matches!(parse("other.desktop", &content), Err(DesktopError::UnexpectedFileName)));
    let no_name: String = content
        .lines()
        .filter(|l| !l.starts_with("Name="))
        .collect::<Vec<_>>()
        .join("\n");
    assert!(matches!(parse("webapp-A1.desktop", &no_name), Err(DesktopError::MissingName)));
}

#[test]
fn last_entry_wins_and_comments_skipped() {
    let text = format!(
        "# Name=Comment\n[Desktop Entry]\nName=First\n  Name=Second  \nX-WebApp-Manager={MANAGER_TAG}\nX-WebApp-ProfileMode=bogus\nX-WebApp-ShowTitleBar=TRUE\n"
    );
    let e = parse("webapp-Z9.desktop", &text).unwrap();
    assert_eq!(e.name, "Second");
    assert_eq!(e.profile_mode, ProfileMode::Isolated);
    assert!(e.show_title_bar);
    assert_eq!(e.url, "");
}

#[test]
fn file_names() {
    assert_eq!(codename_from_file_name("webapp-Maps5678.desktop").as_deref(), Some("Maps5678"));
    assert_eq!(codename_from_file_name("maps.desktop"), None);
    assert!(is_managed_file_name("webapp-x.desktop"));
    assert!(!is_managed_file_name("webapp-x.desktop.bak"));
}

#[test]
fn managed_apps_are_sorted_and_filtered() {
    let mk = |file: &str, name: &str| {
        let body = sample(MANAGER_TAG).replace("Name=Test App", &format!("Name={name}"));
        DesktopFile {
            path: format!("/apps/{file}"),
            file_name: Some(file.to_string()),
            text: body,
        }
    };
    let files = vec![
        mk("webapp-b1.desktop", "banana"),
        mk("webapp-a1.desktop", "Apple"),
        mk("other.desktop", "Aardvark"),
        DesktopFile { path: "/apps/webapp-bad.desktop".into(), file_name: None, text: String::new() },
        mk("webapp-c1.desktop", "cherry"),
        DesktopFile {
            path: "/apps/webapp-x.desktop".into(),
            file_name: Some("webapp-x.desktop".into()),
            text: "Name=Not managed\n".into(),
        },
    ];
    let apps = managed_apps(files);
    let names: Vec<&str> = apps.iter().map(|a| a.name.as_str()).collect();
    assert_eq!(names, vec!["Apple", "banana", "cherry"]);
    assert_eq!(apps[0].codename, "a1");

    // Ordering ignores case: "apple" sorts before "Zebra".
    let apps = managed_apps(vec![mk("webapp-z1.desktop", "Zebra"), mk("webapp-a2.desktop", "apple")]);
    let names: Vec<&str> = apps.iter().map(|a| a.name.as_str()).collect();
    assert_eq!(names, vec!["apple", "Zebra"]);
}
