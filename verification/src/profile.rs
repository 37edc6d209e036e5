//! Private browser profiles of web apps: what a shared web app copies from the browser,
//! when a profile holds a site session, and which Firefox app-chrome files to (re)write.
use vstd::prelude::*;

use crate::browser::{
    app_id_prefix_spec, chromium_app_id_prefix, Browser, BrowserFamily, BrowserView, ProfileMode,
};
use crate::text::{
    ascii_lower, ascii_lower_chars, chars_of, contains, contains_chars, ends_with, ends_with_chars,
    eq_chars, lines, push_chars, strip_cr,
};
use crate::webapp::{
    firefox_user_chrome, firefox_user_chrome_spec, firefox_user_js, firefox_user_js_spec,
    kept_lines_end_plain, law_normalize_prefs_idempotent, normalize_firefox_prefs_js, normalize_prefs_spec,
    origin_matches_host, origin_matches_host_spec,
};

verus! {

/// Views of a sequence of string slices.
pub open spec fn str_views(v: Seq<&str>) -> Seq<Seq<char>> {
    v.map_values(|s: &str| s@)
}

// ---------------------------------------------------------------------------
// What a shared web app copies from the browser
// ---------------------------------------------------------------------------

/// Directories of the browser's Chromium `Default` profile copied into a shared web app:
/// extensions, their settings, and site storage.
pub open spec fn chromium_seed_dirs_spec() -> Seq<Seq<char>> {
    seq![
        "Extensions"@,
        "Local Extension Settings"@,
        "Extension State"@,
        "Extension Rules"@,
        "Sync Extension Settings"@,
        "Managed Extension Settings"@,
        "Local Storage"@,
        "Session Storage"@,
        "IndexedDB"@,
        "Service Worker"@,
    ]
}

/// Directories of the browser's Chromium `Default` profile copied into a shared web app.
pub fn chromium_seed_dirs() -> (r: Vec<&'static str>)
    ensures
        str_views(r@) == chromium_seed_dirs_spec(),
{
    let r = vec![
        "Extensions",
        "Local Extension Settings",
        "Extension State",
        "Extension Rules",
        "Sync Extension Settings",
        "Managed Extension Settings",
        "Local Storage",
        "Session Storage",
        "IndexedDB",
        "Service Worker",
    ];
    assert(str_views(r@) =~= chromium_seed_dirs_spec());
    r
}

/// Files of the browser's Chromium `Default` profile copied into a shared web app:
/// cookies, passwords, preferences and bookmarks.
pub open spec fn chromium_seed_files_spec() -> Seq<Seq<char>> {
    seq![
        "Cookies"@,
        "Cookies-journal"@,
        "Login Data"@,
        "Login Data-journal"@,
        "Login Data For Account"@,
        "Login Data For Account-journal"@,
        "Web Data"@,
        "Web Data-journal"@,
        "Preferences"@,
        "Secure Preferences"@,
        "Bookmarks"@,
    ]
}

/// Files of the browser's Chromium `Default` profile copied into a shared web app.
pub fn chromium_seed_files() -> (r: Vec<&'static str>)
    ensures
        str_views(r@) == chromium_seed_files_spec(),
{
    let r = vec![
        "Cookies",
        "Cookies-journal",
        "Login Data",
        "Login Data-journal",
        "Login Data For Account",
        "Login Data For Account-journal",
        "Web Data",
        "Web Data-journal",
        "Preferences",
        "Secure Preferences",
        "Bookmarks",
    ];
    assert(str_views(r@) =~= chromium_seed_files_spec());
    r
}

/// Directories of the browser's Firefox profile copied into a shared web app (add-on
/// payloads and their stores).
pub open spec fn firefox_seed_dirs_spec() -> Seq<Seq<char>> {
    seq![
        "extensions"@,
        "extension-store"@,
        "extension-store-menus"@,
        "browser-extension-data"@,
    ]
}

/// Directories of the browser's Firefox profile copied into a shared web app.
pub fn firefox_seed_dirs() -> (r: Vec<&'static str>)
    ensures
        str_views(r@) == firefox_seed_dirs_spec(),
{
    let r = vec!["extensions", "extension-store", "extension-store-menus", "browser-extension-data"];
    assert(str_views(r@) =~= firefox_seed_dirs_spec());
    r
}

/// Storage registries of the browser's Firefox profile copied when present (paths relative
/// to the profile).
pub open spec fn firefox_storage_files_spec() -> Seq<Seq<char>> {
    seq![
        "storage.sqlite"@,
        "storage.sqlite-wal"@,
        "storage.sqlite-shm"@,
        "storage/ls-archive.sqlite"@,
        "storage/ls-archive.sqlite-wal"@,
        "storage/ls-archive.sqlite-shm"@,
    ]
}

/// Storage registries of the browser's Firefox profile copied when present.
pub fn firefox_storage_files() -> (r: Vec<&'static str>)
    ensures
        str_views(r@) == firefox_storage_files_spec(),
{
    let r = vec![
        "storage.sqlite",
        "storage.sqlite-wal",
        "storage.sqlite-shm",
        "storage/ls-archive.sqlite",
        "storage/ls-archive.sqlite-wal",
        "storage/ls-archive.sqlite-shm",
    ];
    assert(str_views(r@) =~= firefox_storage_files_spec());
    r
}

/// Registry and state files of the browser's Firefox profile copied into a shared web app:
/// add-on registries, cookies, logins, certificates, history, permissions, web storage and
/// preferences (SQLite write-ahead logs included).
pub open spec fn firefox_seed_files_spec() -> Seq<Seq<char>> {
    seq![
        "extensions.json"@,
        "addons.json"@,
        "addonStartup.json.lz4"@,
        "extension-preferences.json"@,
        "extension-settings.json"@,
        "cookies.sqlite"@,
        "cookies.sqlite-wal"@,
        "cookies.sqlite-shm"@,
        "logins.json"@,
        "logins-backup.json"@,
        "key4.db"@,
        "cert9.db"@,
        "places.sqlite"@,
        "places.sqlite-wal"@,
        "places.sqlite-shm"@,
        "permissions.sqlite"@,
        "permissions.sqlite-wal"@,
        "permissions.sqlite-shm"@,
        "webappsstore.sqlite"@,
        "webappsstore.sqlite-wal"@,
        "webappsstore.sqlite-shm"@,
        "serviceworker.txt"@,
        "prefs.js"@,
    ]
}

/// Registry and state files of the browser's Firefox profile copied into a shared web app.
pub fn firefox_seed_files() -> (r: Vec<&'static str>)
    ensures
        str_views(r@) == firefox_seed_files_spec(),
{
    let r = vec![
        "extensions.json",
        "addons.json",
        "addonStartup.json.lz4",
        "extension-preferences.json",
        "extension-settings.json",
        "cookies.sqlite",
        "cookies.sqlite-wal",
        "cookies.sqlite-shm",
        "logins.json",
        "logins-backup.json",
        "key4.db",
        "cert9.db",
        "places.sqlite",
        "places.sqlite-wal",
        "places.sqlite-shm",
        "permissions.sqlite",
        "permissions.sqlite-wal",
        "permissions.sqlite-shm",
        "webappsstore.sqlite",
        "webappsstore.sqlite-wal",
        "webappsstore.sqlite-shm",
        "serviceworker.txt",
        "prefs.js",
    ];
    assert(str_views(r@) =~= firefox_seed_files_spec());
    r
}

/// Whether a seeded Firefox file is JSON whose absolute profile paths are rewritten
/// (see `rewrite_firefox_profile_paths`) rather than copied byte for byte.
pub fn rewrites_profile_paths(file_name: &str) -> (r: bool)
    ensures
        r == ends_with(file_name@, ".json"@),
{
    ends_with_chars(&chars_of(file_name), &chars_of(".json"))
}

// ---------------------------------------------------------------------------
// Where the browser keeps its own profile
// ---------------------------------------------------------------------------

/// The user-data directory of a Chromium-family browser, relative to the XDG config
/// directory, by the product prefix that the browser's window class uses.
pub open spec fn chromium_config_subdir_spec(prefix: Seq<char>) -> Seq<char> {
    if prefix == "brave"@ {
        "BraveSoftware/Brave-Browser"@
    } else if prefix == "google-chrome"@ {
        "google-chrome"@
    } else if prefix == "microsoft-edge"@ || prefix == "msedge"@ {
        "microsoft-edge"@
    } else if prefix == "vivaldi"@ {
        "vivaldi"@
    } else {
        "chromium"@
    }
}

/// The user-data directory of a Chromium-family browser, relative to the XDG config
/// directory (see `chromium_config_subdir_spec`).
pub fn chromium_config_subdir(browser: &Browser) -> (r: &'static str)
    ensures
        r@ == chromium_config_subdir_spec(app_id_prefix_spec(browser@)),
{
    let p = chars_of(chromium_app_id_prefix(browser));
    if eq_chars(&p, &chars_of("brave")) {
        "BraveSoftware/Brave-Browser"
    } else if eq_chars(&p, &chars_of("google-chrome")) {
        "google-chrome"
    } else if eq_chars(&p, &chars_of("microsoft-edge")) || eq_chars(&p, &chars_of("msedge")) {
        "microsoft-edge"
    } else if eq_chars(&p, &chars_of("vivaldi")) {
        "vivaldi"
    } else {
        "chromium"
    }
}

/// The lower-cased `{name} {path}` of a browser that its Firefox profile is looked up by.
pub open spec fn firefox_key(b: BrowserView) -> Seq<char> {
    ascii_lower(b.name + " "@ + b.exec_path)
}

fn firefox_key_exec(b: &Browser) -> (r: Vec<char>)
    ensures
        r@ == firefox_key(b@),
{
    let mut k = chars_of(b.name.as_str());
    k.push(' ');
    let p = chars_of(b.exec_path.as_str());
    let mut i: usize = 0;
    let ghost start = k@;
    while i < p.len()
        invariant
            i <= p.len(),
            k@ == start + p@.take(i as int),
        decreases p.len() - i,
    {
        k.push(p[i]);
        i += 1;
        assert(p@.take(i as int) =~= p@.take(i - 1).push(p@[i - 1]));
        assert(k@ =~= start + p@.take(i as int));
    }
    assert(p@.take(p.len() as int) =~= p@);
    proof {
        reveal_strlit(" ");
    }
    assert(start =~= b.name@ + " "@);
    ascii_lower_chars(&k)
}

/// Whether a Firefox-family browser is Firefox Developer Edition, whose profile is the
/// `*.dev-edition-default` one.
pub open spec fn is_devedition_browser_spec(b: BrowserView) -> bool {
    contains(firefox_key(b), "devedition"@) || contains(firefox_key(b), "developer"@)
}

/// Whether a Firefox-family browser is Firefox Developer Edition.
pub fn is_devedition_browser(b: &Browser) -> (r: bool)
    ensures
        r == is_devedition_browser_spec(b@),
{
    let k = firefox_key_exec(b);
    contains_chars(&k, &chars_of("devedition")) || contains_chars(&k, &chars_of("developer"))
}

/// The directories, relative to the home directory, that hold a Firefox-family browser's
/// profiles, in search order: LibreWolf, Waterfox, Floorp and Zen each have their own;
/// Firefox (Developer Edition included) looks in `~/.config/mozilla/firefox`, then
/// `~/.mozilla/firefox`.
pub open spec fn firefox_profile_roots_spec(b: BrowserView) -> Seq<Seq<char>> {
    let k = firefox_key(b);
    if contains(k, "librewolf"@) {
        seq![".librewolf"@]
    } else if contains(k, "waterfox"@) {
        seq![".waterfox"@]
    } else if contains(k, "floorp"@) {
        seq![".floorp"@]
    } else if contains(k, "zen"@) {
        seq![".zen"@]
    } else {
        seq![".config/mozilla/firefox"@, ".mozilla/firefox"@]
    }
}

/// The directories, relative to the home directory, that hold a Firefox-family browser's
/// profiles (see `firefox_profile_roots_spec`).
pub fn firefox_profile_roots(b: &Browser) -> (r: Vec<&'static str>)
    ensures
        str_views(r@) == firefox_profile_roots_spec(b@),
{
    let k = firefox_key_exec(b);
    let r = if contains_chars(&k, &chars_of("librewolf")) {
        vec![".librewolf"]
    } else if contains_chars(&k, &chars_of("waterfox")) {
        vec![".waterfox"]
    } else if contains_chars(&k, &chars_of("floorp")) {
        vec![".floorp"]
    } else if contains_chars(&k, &chars_of("zen")) {
        vec![".zen"]
    } else {
        vec![".config/mozilla/firefox", ".mozilla/firefox"]
    };
    assert(str_views(r@) =~= firefox_profile_roots_spec(b@));
    r
}

/// `r` is the index of the first name that ends with `suffix`, or `None` when none does.
pub open spec fn is_first_ending(names: Seq<Seq<char>>, suffix: Seq<char>, r: Option<int>) -> bool {
    match r {
        Some(i) => 0 <= i < names.len() && ends_with(names[i], suffix) && forall|j: int|
            0 <= j < i ==> !ends_with(#[trigger] names[j], suffix),
        None => forall|j: int| 0 <= j < names.len() ==> !ends_with(#[trigger] names[j], suffix),
    }
}

fn first_ending(names: &Vec<String>, suffix: &str) -> (r: Option<usize>)
    ensures
        is_first_ending(
            crate::text::views(names@),
            suffix@,
            match r {
                Some(i) => Some(i as int),
                None => None,
            },
        ),
{
    let ghost nv = crate::text::views(names@);
    let suf = chars_of(suffix);
    let mut i: usize = 0;
    while i < names.len()
        invariant
            i <= names.len(),
            nv == crate::text::views(names@),
            suf@ == suffix@,
            forall|j: int| 0 <= j < i ==> !ends_with(#[trigger] nv[j], suffix@),
        decreases names.len() - i,
    {
        assert(nv[i as int] == names@[i as int]@);
        if ends_with_chars(&chars_of(names[i].as_str()), &suf) {
            return Some(i);
        }
        i += 1;
    }
    None
}

/// The browser's default profile among the profile directories `names` (as found under
/// `firefox_profile_roots`): for Developer Edition the first `*.dev-edition-default`; for
/// the others the first `*.default-release`, else the first `*.default`.
pub open spec fn firefox_profile_choice_spec(names: Seq<Seq<char>>, dev: bool, r: Option<int>) -> bool {
    if dev {
        is_first_ending(names, ".dev-edition-default"@, r)
    } else if exists|j: int| 0 <= j < names.len() && ends_with(#[trigger] names[j], ".default-release"@) {
        is_first_ending(names, ".default-release"@, r)
    } else {
        is_first_ending(names, ".default"@, r)
    }
}

/// The browser's default profile among the profile directories `names` (see
/// `firefox_profile_choice_spec`).
pub fn firefox_profile_choice(names: &Vec<String>, dev: bool) -> (r: Option<usize>)
    ensures
        firefox_profile_choice_spec(
            crate::text::views(names@),
            dev,
            match r {
                Some(i) => Some(i as int),
                None => None,
            },
        ),
{
    if dev {
        return first_ending(names, ".dev-edition-default");
    }
    match first_ending(names, ".default-release") {
        Some(i) => Some(i),
        None => first_ending(names, ".default"),
    }
}

// ---------------------------------------------------------------------------
// What a profile already holds
// ---------------------------------------------------------------------------

/// Files of at least this many bytes are real site data; an empty SQLite shell is about
/// 48–64 KiB.
pub const MIN_SESSION_BYTES: u64 = 100 * 1024;

/// Subdirectories of a Firefox origin directory that hold site data.
pub open spec fn session_subdirs_spec() -> Seq<Seq<char>> {
    seq!["idb"@, "ls"@, "cache"@]
}

/// Subdirectories of a Firefox origin directory that hold site data.
pub fn session_subdirs() -> (r: Vec<&'static str>)
    ensures
        str_views(r@) == session_subdirs_spec(),
{
    let r = vec!["idb", "ls", "cache"];
    assert(str_views(r@) =~= session_subdirs_spec());
    r
}

/// Whether an entry of a Firefox `extensions` directory is an add-on payload: an `.xpi`
/// file, or an unpacked add-on directory.
pub open spec fn is_extension_payload_spec(name: Seq<char>, is_dir: bool) -> bool {
    ends_with(name, ".xpi"@) || is_dir
}

/// Whether some entry (name, is a directory) of a Firefox `extensions` directory is an
/// add-on payload.
pub open spec fn has_extension_payload_spec(entries: Seq<(Seq<char>, bool)>) -> bool {
    exists|i: int|
        0 <= i < entries.len() && is_extension_payload_spec(
            (#[trigger] entries[i]).0,
            entries[i].1,
        )
}

pub open spec fn entry_views(v: Seq<(String, bool)>) -> Seq<(Seq<char>, bool)> {
    v.map_values(|e: (String, bool)| (e.0@, e.1))
}

/// Whether a Firefox profile's `extensions` directory, listed as (name, is a directory)
/// entries, holds an add-on.
pub fn has_extension_payload(entries: &Vec<(String, bool)>) -> (r: bool)
    ensures
        r == has_extension_payload_spec(entry_views(entries@)),
{
    let ghost ev = entry_views(entries@);
    let xpi = chars_of(".xpi");
    let mut i: usize = 0;
    while i < entries.len()
        invariant
            i <= entries.len(),
            ev == entry_views(entries@),
            xpi@ == ".xpi"@,
            forall|j: int| 0 <= j < i ==> !is_extension_payload_spec(ev[j].0, ev[j].1),
        decreases entries.len() - i,
    {
        assert(ev[i as int] == (entries@[i as int].0@, entries@[i as int].1));
        if entries[i].1 || ends_with_chars(&chars_of(entries[i].0.as_str()), &xpi) {
            assert(is_extension_payload_spec(ev[i as int].0, ev[i as int].1));
            return true;
        }
        i += 1;
    }
    assert forall|j: int| 0 <= j < ev.len() implies !is_extension_payload_spec(
        (#[trigger] ev[j]).0,
        ev[j].1,
    ) by {}
    false
}

/// Whether some file size reaches `MIN_SESSION_BYTES`.
pub open spec fn has_substantial_file_spec(sizes: Seq<u64>) -> bool {
    exists|i: int| 0 <= i < sizes.len() && #[trigger] sizes[i] >= MIN_SESSION_BYTES
}

/// Whether an origin directory holds real site data, given the sizes of the files under
/// its `session_subdirs()` (at any depth).
pub fn has_substantial_file(sizes: &Vec<u64>) -> (r: bool)
    ensures
        r == has_substantial_file_spec(sizes@),
{
    let mut i: usize = 0;
    while i < sizes.len()
        invariant
            i <= sizes.len(),
            forall|j: int| 0 <= j < i ==> sizes@[j] < MIN_SESSION_BYTES,
        decreases sizes.len() - i,
    {
        if sizes[i] >= MIN_SESSION_BYTES {
            return true;
        }
        i += 1;
    }
    false
}

/// An entry of a Firefox `storage/default` directory: the origin directory's name, whether
/// it is a directory, and the sizes of the files under its `session_subdirs()`.
#[derive(Debug, Clone)]
pub struct OriginEntry {
    pub name: String,
    pub is_dir: bool,
    pub sizes: Vec<u64>,
}

pub struct OriginEntryView {
    pub name: Seq<char>,
    pub is_dir: bool,
    pub sizes: Seq<u64>,
}

impl View for OriginEntry {
    type V = OriginEntryView;

    open spec fn view(&self) -> OriginEntryView {
        OriginEntryView { name: self.name@, is_dir: self.is_dir, sizes: self.sizes@ }
    }
}

pub open spec fn origin_views(v: Seq<OriginEntry>) -> Seq<OriginEntryView> {
    v.map_values(|e: OriginEntry| e@)
}

/// Whether the browser profile holds origin storage for the web app's page: an origin
/// directory whose name matches the page's host. Without a host, never.
pub open spec fn has_origin_storage_spec(host: Option<Seq<char>>, entries: Seq<OriginEntryView>) -> bool {
    match host {
        None => false,
        Some(h) => exists|i: int|
            0 <= i < entries.len() && origin_matches_host_spec((#[trigger] entries[i]).name, h)
                && entries[i].is_dir,
    }
}

/// Whether a web app's profile already holds a real session for its page: an origin
/// directory matching the page's host with a file of at least `MIN_SESSION_BYTES`.
/// Without a host there is nothing to look for, and the session counts as present.
pub open spec fn has_site_session_spec(host: Option<Seq<char>>, entries: Seq<OriginEntryView>) -> bool {
    match host {
        None => true,
        Some(h) => exists|i: int|
            0 <= i < entries.len() && origin_matches_host_spec((#[trigger] entries[i]).name, h)
                && has_substantial_file_spec(entries[i].sizes),
    }
}

/// Whether some origin entry matches `host` and either holds a session of real size
/// (`session`) or is a directory (otherwise).
pub open spec fn origin_found(host: Seq<char>, ov: Seq<OriginEntryView>, session: bool) -> bool {
    exists|i: int|
        0 <= i < ov.len() && origin_matches_host_spec((#[trigger] ov[i]).name, host) && if session {
            has_substantial_file_spec(ov[i].sizes)
        } else {
            ov[i].is_dir
        }
}

fn find_origin(host: &str, entries: &Vec<OriginEntry>, session: bool) -> (r: bool)
    ensures
        r == origin_found(host@, origin_views(entries@), session),
{
    let ghost ov = origin_views(entries@);
    let mut i: usize = 0;
    while i < entries.len()
        invariant
            i <= entries.len(),
            ov == origin_views(entries@),
            forall|j: int|
                0 <= j < i ==> !(origin_matches_host_spec((#[trigger] ov[j]).name, host@) && if session {
                    has_substantial_file_spec(ov[j].sizes)
                } else {
                    ov[j].is_dir
                }),
        decreases entries.len() - i,
    {
        let e = &entries[i];
        assert(ov[i as int] == e@);
        if origin_matches_host(e.name.as_str(), host) {
            let ok = if session {
                has_substantial_file(&e.sizes)
            } else {
                e.is_dir
            };
            if ok {
                return true;
            }
        }
        i += 1;
    }
    false
}

/// Whether the browser profile holds origin storage for the page whose host is `host`.
pub fn has_origin_storage(host: Option<&str>, entries: &Vec<OriginEntry>) -> (r: bool)
    ensures
        r == has_origin_storage_spec(
            match host {
                Some(h) => Some(h@),
                None => None,
            },
            origin_views(entries@),
        ),
{
    match host {
        None => false,
        Some(h) => {
            find_origin(h, entries, false)
        },
    }
}

/// Whether a web app's profile already holds a real session for the page whose host is
/// `host`.
pub fn has_site_session(host: Option<&str>, entries: &Vec<OriginEntry>) -> (r: bool)
    ensures
        r == has_site_session_spec(
            match host {
                Some(h) => Some(h@),
                None => None,
            },
            origin_views(entries@),
        ),
{
    match host {
        None => true,
        Some(h) => {
            find_origin(h, entries, true)
        },
    }
}

/// Whether repairing a shared web app seeds its private profile again. A Chromium profile
/// is seeded when it has neither `Default/Preferences` nor `Default/Extensions`; a Firefox
/// profile when it has no add-on, or when the browser's profile (if found) holds storage
/// for the page and the web app's profile has no session for it. An isolated web app is
/// never seeded.
pub open spec fn repair_seed_needed_spec(
    mode: ProfileMode,
    family: BrowserFamily,
    chromium_has_preferences: bool,
    chromium_has_extensions: bool,
    firefox_has_extensions: bool,
    firefox_source_storage: Option<bool>,
    firefox_site_session: bool,
) -> bool {
    mode == ProfileMode::Shared && match family {
        BrowserFamily::Chromium => !chromium_has_preferences && !chromium_has_extensions,
        BrowserFamily::Firefox => !firefox_has_extensions || match firefox_source_storage {
            Some(s) => s && !firefox_site_session,
            None => false,
        },
    }
}

/// Whether repairing a web app seeds its private profile again (see
/// `repair_seed_needed_spec`).
pub fn repair_seed_needed(
    mode: ProfileMode,
    family: BrowserFamily,
    chromium_has_preferences: bool,
    chromium_has_extensions: bool,
    firefox_has_extensions: bool,
    firefox_source_storage: Option<bool>,
    firefox_site_session: bool,
) -> (r: bool)
    ensures
        r == repair_seed_needed_spec(
            mode,
            family,
            chromium_has_preferences,
            chromium_has_extensions,
            firefox_has_extensions,
            firefox_source_storage,
            firefox_site_session,
        ),
{
    mode.seeds_from_browser() && match family {
        BrowserFamily::Chromium => !chromium_has_preferences && !chromium_has_extensions,
        BrowserFamily::Firefox => !firefox_has_extensions || match firefox_source_storage {
            Some(s) => s && !firefox_site_session,
            None => false,
        },
    }
}

// ---------------------------------------------------------------------------
// Firefox app chrome
// ---------------------------------------------------------------------------

/// The app-chrome files of a Firefox profile to (re)write, with their new contents:
/// `chrome/userChrome.css`, `user.js`, and `prefs.js`.
#[derive(Debug, Clone)]
pub struct ChromeWrites {
    pub user_chrome: Option<String>,
    pub user_js: Option<String>,
    pub prefs: Option<String>,
}

pub struct ChromeWritesView {
    pub user_chrome: Option<Seq<char>>,
    pub user_js: Option<Seq<char>>,
    pub prefs: Option<Seq<char>>,
}

pub open spec fn opt_view(o: Option<String>) -> Option<Seq<char>> {
    match o {
        Some(s) => Some(s@),
        None => None,
    }
}

impl View for ChromeWrites {
    type V = ChromeWritesView;

    open spec fn view(&self) -> ChromeWritesView {
        ChromeWritesView {
            user_chrome: opt_view(self.user_chrome),
            user_js: opt_view(self.user_js),
            prefs: opt_view(self.prefs),
        }
    }
}

/// What brings a Firefox profile's app chrome to the chosen title-bar mode, given the
/// current `userChrome.css` and `user.js` (empty when missing) and `prefs.js` (when it is
/// a readable file): each of the first two is written when it differs from the wanted
/// text, and `prefs.js` when normalising it changes it.
pub open spec fn chrome_writes_spec(
    current_chrome: Seq<char>,
    current_js: Seq<char>,
    prefs: Option<Seq<char>>,
    show_title_bar: bool,
) -> ChromeWritesView {
    let chrome = firefox_user_chrome_spec(show_title_bar);
    let js = firefox_user_js_spec(show_title_bar);
    ChromeWritesView {
        user_chrome: if current_chrome == chrome {
            None
        } else {
            Some(chrome)
        },
        user_js: if current_js == js {
            None
        } else {
            Some(js)
        },
        prefs: match prefs {
            Some(t) => if normalize_prefs_spec(t, show_title_bar) == t {
                None
            } else {
                Some(normalize_prefs_spec(t, show_title_bar))
            },
            None => None,
        },
    }
}

/// What brings a Firefox profile's app chrome to the chosen title-bar mode (see
/// `chrome_writes_spec`).
pub fn plan_firefox_chrome(
    current_chrome: &str,
    current_js: &str,
    prefs: Option<&str>,
    show_title_bar: bool,
) -> (r: ChromeWrites)
    ensures
        r@ == chrome_writes_spec(
            current_chrome@,
            current_js@,
            match prefs {
                Some(t) => Some(t@),
                None => None,
            },
            show_title_bar,
        ),
{
    let chrome = firefox_user_chrome(show_title_bar);
    let js = firefox_user_js(show_title_bar);
    let user_chrome = if eq_chars(&chars_of(current_chrome), &chars_of(chrome)) {
        None
    } else {
        Some(String::from_str(chrome))
    };
    let user_js = if eq_chars(&chars_of(current_js), &chars_of(js.as_str())) {
        None
    } else {
        Some(js)
    };
    let prefs = match prefs {
        Some(t) => {
            let fixed = normalize_firefox_prefs_js(t, show_title_bar);
            if eq_chars(&chars_of(fixed.as_str()), &chars_of(t)) {
                None
            } else {
                Some(fixed)
            }
        },
        None => None,
    };
    ChromeWrites { user_chrome, user_js, prefs }
}

impl ChromeWrites {
    /// Whether `userChrome.css` or `user.js` is created or changed; normalising
    /// `prefs.js` alone does not count.
    pub fn changed(&self) -> (r: bool)
        ensures
            r == (self@.user_chrome is Some || self@.user_js is Some),
    {
        self.user_chrome.is_some() || self.user_js.is_some()
    }
}

/// A file's content after an optional write.
pub open spec fn after_write(current: Seq<char>, write: Option<Seq<char>>) -> Seq<char> {
    match write {
        Some(w) => w,
        None => current,
    }
}

/// The `times.json` of a new Firefox profile, so that Firefox takes the directory for a
/// valid profile and starts without the profile manager.
pub const FIREFOX_TIMES_JSON: &'static str = "{\"created\":0}";

/// Once the planned app-chrome files are written, planning again for the same title-bar
/// mode finds nothing to write, whatever the profile held before, provided no line that
/// normalising keeps in its `prefs.js` ends with a carriage return.
pub proof fn law_firefox_chrome_settles(
    current_chrome: Seq<char>,
    current_js: Seq<char>,
    prefs: Option<Seq<char>>,
    show_title_bar: bool,
)
    requires
        prefs matches Some(t) ==> kept_lines_end_plain(t),
    ensures
        ({
            let w = chrome_writes_spec(current_chrome, current_js, prefs, show_title_bar);
            let again = chrome_writes_spec(
                after_write(current_chrome, w.user_chrome),
                after_write(current_js, w.user_js),
                match prefs {
                    Some(t) => Some(after_write(t, w.prefs)),
                    None => None,
                },
                show_title_bar,
            );
            again.user_chrome is None && again.user_js is None && again.prefs is None
        }),
{
    if let Some(t) = prefs {
        law_normalize_prefs_idempotent(t, show_title_bar);
    }
}

/// Switching the title-bar mode rewrites both `userChrome.css` and `user.js`: once the
/// files planned for one mode are written, planning for the other mode writes both again,
/// whatever the profile held before.
pub proof fn law_firefox_chrome_mode_switch(
    current_chrome: Seq<char>,
    current_js: Seq<char>,
    prefs: Option<Seq<char>>,
    show_title_bar: bool,
)
    ensures
        ({
            let w = chrome_writes_spec(current_chrome, current_js, prefs, show_title_bar);
            let other = chrome_writes_spec(
                after_write(current_chrome, w.user_chrome),
                after_write(current_js, w.user_js),
                match prefs {
                    Some(t) => Some(after_write(t, w.prefs)),
                    None => None,
                },
                !show_title_bar,
            );
            other.user_chrome is Some && other.user_js is Some
        }),
{
    crate::webapp::lemma_chrome_modes_differ();
}

} // verus!
