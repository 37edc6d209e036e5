//! Web apps: codenames, launcher plans, repair decisions, and the Firefox profile files
//! that give a web app its app-like window.
use rand::Rng;
use vstd::prelude::*;

use crate::browser::{
    exec_line, exec_line_spec, lemma_quoted_contains, profile_path_in, profile_path_spec,
    shell_quote_spec, window_class, window_class_spec, Browser, BrowserFamily, BrowserView,
    ProfileMode,
};
use crate::desktop::{
    desktop_file_content, desktop_file_content_spec, desktop_lines, exec_stored_verbatim,
    law_desktop_roundtrip, lemma_launcher_lines, parse_desktop_spec, stored_verbatim,
    DesktopEntry, DesktopEntryView,
};
use crate::paths::{
    data_base, desktop_file_name_spec, desktop_path_in, desktop_path_spec, icon_path_in,
    icon_path_spec, path_join, path_join_exec, PathError,
};
use crate::text::{
    ascii_lower, ascii_lower_chars, chars_of, contains, contains_chars, has_char,
    is_ascii_alnum, is_ascii_alnum_exec, join, join_strings, lines, lines_chars, matches_at,
    replace,
    replace_str, slice_chars, starts_with, starts_with_chars, string_of, strip_cr, terminated,
    trim, trim_chars, vec_views, views,
};
use crate::weburl::{normalize_url, url_parse, with_scheme, UrlError};

verus! {

/// Why a web app could not be created, updated or repaired.
#[derive(Debug, Clone, Copy, PartialEq, Eq, Structural)]
pub enum WebAppError {
    /// The name is empty (after trimming).
    NameRequired,
    /// The URL was refused.
    Url(UrlError),
    /// The XDG data directory could not be resolved.
    Path(PathError),
    /// No browser is installed to run the web app.
    NoBrowser,
}

/// Where a new web app takes its icon from.
#[derive(Debug, Clone)]
pub enum IconSource {
    /// Download the favicon from the URL.
    Fetch,
    /// Use an existing local image path.
    Local(String),
    /// A PNG already prepared (e.g. by a successful preview fetch).
    PreparedPng(String),
    /// Keep the current icon file (edit only).
    KeepExisting,
}

/// What producing a web app's icon file takes.
#[derive(Debug, Clone)]
pub enum IconStep {
    /// Download the favicon of the page.
    Fetch,
    /// Convert the image at this path to the icon PNG.
    Convert(String),
    /// Copy the PNG at this path to the icon path.
    Copy(String),
    /// The icon file is already in place.
    Keep,
    /// There is no icon to keep.
    Missing,
}

pub enum IconStepView {
    Fetch,
    Convert(Seq<char>),
    Copy(Seq<char>),
    Keep,
    Missing,
}

impl View for IconStep {
    type V = IconStepView;

    open spec fn view(&self) -> IconStepView {
        match self {
            IconStep::Fetch => IconStepView::Fetch,
            IconStep::Convert(p) => IconStepView::Convert(p@),
            IconStep::Copy(p) => IconStepView::Copy(p@),
            IconStep::Keep => IconStepView::Keep,
            IconStep::Missing => IconStepView::Missing,
        }
    }
}

/// How the icon source of a request fills the icon path `dest` (`dest_exists`: a file is
/// there): fetch the favicon; convert a local image; copy a prepared PNG unless it already
/// is `dest` (the same path, compared as `Path`s); keep the existing icon, which must
/// exist.
pub open spec fn icon_step_spec(source: IconSource, dest: Seq<char>, dest_exists: bool) -> IconStepView {
    match source {
        IconSource::Fetch => IconStepView::Fetch,
        IconSource::Local(p) => IconStepView::Convert(p@),
        IconSource::PreparedPng(p) => if crate::paths::same_path_spec(p@, dest) {
            IconStepView::Keep
        } else {
            IconStepView::Copy(p@)
        },
        IconSource::KeepExisting => if dest_exists {
            IconStepView::Keep
        } else {
            IconStepView::Missing
        },
    }
}

/// How the icon source of a request fills the icon path (see `icon_step_spec`).
pub fn icon_step(source: &IconSource, dest: &str, dest_exists: bool) -> (r: IconStep)
    ensures
        r@ == icon_step_spec(*source, dest@, dest_exists),
{
    match source {
        IconSource::Fetch => IconStep::Fetch,
        IconSource::Local(p) => IconStep::Convert(p.clone()),
        IconSource::PreparedPng(p) => {
            if crate::paths::same_path(p.as_str(), dest) {
                IconStep::Keep
            } else {
                IconStep::Copy(p.clone())
            }
        },
        IconSource::KeepExisting => {
            if dest_exists {
                IconStep::Keep
            } else {
                IconStep::Missing
            }
        },
    }
}

/// How an update that keeps the icon fills the canonical icon path `dest`: nothing to do
/// when it exists; otherwise copy the launcher's previous icon file when it exists
/// elsewhere (another path, compared as `Path`s), and fail when it does not exist.
pub open spec fn keep_icon_step_spec(
    previous: Seq<char>,
    previous_exists: bool,
    dest: Seq<char>,
    dest_exists: bool,
) -> IconStepView {
    if dest_exists {
        IconStepView::Keep
    } else if previous_exists && !crate::paths::same_path_spec(previous, dest) {
        IconStepView::Copy(previous)
    } else if !previous_exists {
        IconStepView::Missing
    } else {
        IconStepView::Keep
    }
}

/// How an update that keeps the icon fills the canonical icon path (see
/// `keep_icon_step_spec`).
pub fn keep_icon_step(previous: &str, previous_exists: bool, dest: &str, dest_exists: bool) -> (r:
    IconStep)
    ensures
        r@ == keep_icon_step_spec(previous@, previous_exists, dest@, dest_exists),
{
    if dest_exists {
        IconStep::Keep
    } else if previous_exists && !crate::paths::same_path(previous, dest) {
        IconStep::Copy(String::from_str(previous))
    } else if !previous_exists {
        IconStep::Missing
    } else {
        IconStep::Keep
    }
}

#[derive(Debug, Clone)]
pub struct CreateRequest {
    pub name: String,
    pub url: String,
    pub browser: Browser,
    /// If set, use this local image as the icon instead of fetching a favicon.
    pub icon_override: Option<String>,
    pub icon_source: IconSource,
    /// Isolated or shared browser profile.
    pub profile_mode: ProfileMode,
    /// When false (default), hide the window title bar for a frameless app look.
    pub show_title_bar: bool,
}

/// Update an existing web app while keeping its codename (launcher id).
#[derive(Debug, Clone)]
pub struct EditRequest {
    pub existing: DesktopEntry,
    pub name: String,
    pub url: String,
    pub browser: Browser,
    pub icon_source: IconSource,
    pub profile_mode: ProfileMode,
    /// When false (default), hide the window title bar for a frameless app look.
    pub show_title_bar: bool,
}

// ---------------------------------------------------------------------------
// Codenames
// ---------------------------------------------------------------------------

/// The ASCII letters and digits of `s`, in order.
pub open spec fn alnum_only(s: Seq<char>) -> Seq<char>
    decreases s.len(),
{
    if s.len() == 0 {
        seq![]
    } else if is_ascii_alnum(s.last()) {
        alnum_only(s.drop_last()).push(s.last())
    } else {
        alnum_only(s.drop_last())
    }
}

/// The name part of a codename: the name's ASCII letters and digits, or `WebApp`.
pub open spec fn codename_base_spec(name: Seq<char>) -> Seq<char> {
    if alnum_only(name).len() == 0 {
        "WebApp"@
    } else {
        alnum_only(name)
    }
}

pub open spec fn digit_char(d: int) -> char {
    (d + 48) as char
}

/// The four decimal digits of `n` (which lies in `1000..10000`).
pub open spec fn four_digits(n: int) -> Seq<char> {
    seq![
        digit_char(n / 1000),
        digit_char((n / 100) % 10),
        digit_char((n / 10) % 10),
        digit_char(n % 10),
    ]
}

pub open spec fn codename_spec(name: Seq<char>, n: int) -> Seq<char> {
    codename_base_spec(name) + four_digits(n)
}

proof fn lemma_alnum_only(s: Seq<char>)
    ensures
        forall|i: int| 0 <= i < alnum_only(s).len() ==> is_ascii_alnum(#[trigger] alnum_only(s)[i]),
    decreases s.len(),
{
    if s.len() > 0 {
        lemma_alnum_only(s.drop_last());
        let a = alnum_only(s.drop_last());
        if is_ascii_alnum(s.last()) {
            assert forall|i: int| 0 <= i < a.push(s.last()).len() implies is_ascii_alnum(
                #[trigger] a.push(s.last())[i],
            ) by {
                if i < a.len() {
                    assert(a.push(s.last())[i] == a[i]);
                }
            }
        }
    }
}

/// A codename is made of ASCII letters and digits only: the name's letters and digits (or
/// `WebApp` when it has none) followed by the four digits of a number in `1000..10000`.
pub proof fn law_codename_shape(name: Seq<char>, n: int)
    requires
        1000 <= n < 10000,
    ensures
        codename_spec(name, n).len() == codename_base_spec(name).len() + 4,
        codename_spec(name, n).take(codename_base_spec(name).len() as int) == codename_base_spec(
            name,
        ),
        forall|i: int|
            0 <= i < codename_spec(name, n).len() ==> is_ascii_alnum(
                #[trigger] codename_spec(name, n)[i],
            ),
{
    reveal_strlit("WebApp");
    lemma_alnum_only(name);
    let b = codename_base_spec(name);
    let c = codename_spec(name, n);
    assert(c.take(b.len() as int) =~= b);
    assert forall|i: int| 0 <= i < c.len() implies is_ascii_alnum(#[trigger] c[i]) by {
        if i < b.len() {
            assert(c[i] == b[i]);
        } else {
            let d = four_digits(n);
            assert(c[i] == d[i - b.len()]);
            assert(0 <= n / 1000 < 10 && 0 <= (n / 100) % 10 < 10 && 0 <= (n / 10) % 10 < 10
                && 0 <= n % 10 < 10);
        }
    }
}

fn digit_exec(d: u16) -> (c: char)
    requires
        d < 10,
    ensures
        c == digit_char(d as int),
{
    ((d as u8) + 48) as char
}

/// The codename of an app named `name` with the number `n`.
pub fn codename_with_number(name: &str, n: u16) -> (r: String)
    requires
        1000 <= n < 10000,
    ensures
        r@ == codename_spec(name@, n as int),
{
    let v = chars_of(name);
    let mut alpha: Vec<char> = Vec::new();
    let mut i: usize = 0;
    while i < v.len()
        invariant
            i <= v.len(),
            alpha@ == alnum_only(v@.take(i as int)),
        decreases v.len() - i,
    {
        if is_ascii_alnum_exec(v[i]) {
            alpha.push(v[i]);
        }
        i += 1;
        proof {
            assert(v@.take(i as int).drop_last() =~= v@.take(i - 1));
        }
    }
    assert(v@.take(v.len() as int) =~= v@);
    let mut r = if alpha.len() == 0 {
        String::from_str("WebApp")
    } else {
        string_of(&alpha)
    };
    r.push(digit_exec(n / 1000));
    r.push(digit_exec((n / 100) % 10));
    r.push(digit_exec((n / 10) % 10));
    r.push(digit_exec(n % 10));
    assert(r@ =~= codename_spec(name@, n as int));
    r
}

/// Calls `rand::thread_rng().gen_range(lo..hi)`, which panics on an empty range; the
/// contract claims only what the crate documents: the number lies in the half-open range.
#[verifier::external_body]
fn random_in_range(lo: u16, hi: u16) -> (n: u16)
    requires
        lo < hi,
    ensures
        lo <= n < hi,
{
    rand::thread_rng().gen_range(lo..hi)
}

pub fn generate_codename(name: &str) -> (r: String)
    ensures
        exists|n: int| 1000 <= n < 10000 && r@ == codename_spec(name@, n),
{
    let n = random_in_range(1000, 10000);
    codename_with_number(name, n)
}

// ---------------------------------------------------------------------------
// Site storage in Firefox profiles
// ---------------------------------------------------------------------------

/// Index of the last `c` in `s`, or -1.
pub open spec fn last_index(s: Seq<char>, c: char) -> int
    decreases s.len(),
{
    if s.len() == 0 {
        -1
    } else if s.last() == c {
        s.len() - 1
    } else {
        last_index(s.drop_last(), c)
    }
}

/// The last two labels of a host (`web.whatsapp.com` gives `whatsapp.com`); none when the
/// host has fewer than two labels or one of them is empty.
pub open spec fn domain_suffix_spec(host: Seq<char>) -> Option<Seq<char>> {
    let i = last_index(host, '.');
    if i < 0 {
        None
    } else {
        let tld = host.skip(i + 1);
        let before = host.take(i);
        let j = last_index(before, '.');
        let sld = before.skip(j + 1);
        if tld.len() == 0 || sld.len() == 0 {
            None
        } else {
            Some(host.skip(j + 1))
        }
    }
}

proof fn lemma_last_index(s: Seq<char>, c: char)
    ensures
        -1 <= last_index(s, c) < s.len(),
        last_index(s, c) >= 0 ==> s[last_index(s, c)] == c,
        forall|j: int| last_index(s, c) < j < s.len() ==> s[j] != c,
    decreases s.len(),
{
    if s.len() > 0 && s.last() != c {
        lemma_last_index(s.drop_last(), c);
        assert forall|j: int| last_index(s, c) < j < s.len() implies s[j] != c by {
            if j < s.len() - 1 {
                assert(s.drop_last()[j] == s[j]);
            }
        }
    }
}

proof fn lemma_last_index_unique(s: Seq<char>, c: char, k: int)
    requires
        -1 <= k < s.len(),
        k >= 0 ==> s[k] == c,
        forall|j: int| k < j < s.len() ==> s[j] != c,
    ensures
        last_index(s, c) == k,
{
    lemma_last_index(s, c);
    let l = last_index(s, c);
    if l < k {
        assert(s[k] == c);
    } else if k < l {
        assert(s[l] == c);
    }
}

/// Index of the last `c` in `v[..end]`, if any.
fn last_index_exec(v: &Vec<char>, end: usize, c: char) -> (k: Option<usize>)
    requires
        end <= v.len(),
    ensures
        match k {
            Some(k) => k < end && last_index(v@.take(end as int), c) == k as int,
            None => last_index(v@.take(end as int), c) == -1,
        },
{
    let mut j = end;
    while j > 0 && v[j - 1] != c
        invariant
            j <= end <= v.len(),
            forall|m: int| j <= m < end ==> v@[m] != c,
        decreases j,
    {
        j -= 1;
    }
    proof {
        lemma_last_index_unique(v@.take(end as int), c, j - 1);
    }
    if j == 0 {
        None
    } else {
        Some(j - 1)
    }
}

/// Last two labels of a host (`web.whatsapp.com` gives `whatsapp.com`).
pub fn domain_suffix(host: &str) -> (r: Option<String>)
    ensures
        match r {
            Some(s) => domain_suffix_spec(host@) == Some(s@),
            None => domain_suffix_spec(host@) is None,
        },
{
    let h = chars_of(host);
    let i = match last_index_exec(&h, h.len(), '.') {
        Some(i) => i,
        None => {
            assert(h@.take(h.len() as int) =~= h@);
            return None;
        },
    };
    assert(h@.take(h.len() as int) =~= h@);
    let sld_start: usize = match last_index_exec(&h, i, '.') {
        Some(j) => j + 1,
        None => 0,
    };
    let tld_len = h.len() - (i + 1);
    proof {
        assert(h@.skip(i + 1).len() == tld_len);
        assert(h@.take(i as int).skip(sld_start as int).len() == i - sld_start);
    }
    if tld_len == 0 || i - sld_start == 0 {
        return None;
    }
    let s = slice_chars(&h, sld_start, h.len());
    assert(s@ =~= h@.skip(sld_start as int));
    Some(string_of(&s))
}

/// Whether a Firefox `storage/default` directory belongs to `host` or its domain. Names
/// look like `https+++web.whatsapp.com` or
/// `https+++flows.whatsapp.net^partitionKey=%28https%2Cwhatsapp.com%29`; extension storage
/// (`moz-extension…`) never matches.
pub open spec fn origin_matches_host_spec(dir_name: Seq<char>, host: Seq<char>) -> bool {
    let name = ascii_lower(dir_name);
    if starts_with(name, "moz-extension"@) {
        false
    } else if contains(name, host) {
        true
    } else {
        match domain_suffix_spec(host) {
            Some(suffix) => contains(name, suffix),
            None => false,
        }
    }
}

/// Whether a Firefox `storage/default` directory name belongs to `host` / its domain.
pub fn origin_matches_host(dir_name: &str, host: &str) -> (r: bool)
    ensures
        r == origin_matches_host_spec(dir_name@, host@),
{
    let name = ascii_lower_chars(&chars_of(dir_name));
    if starts_with_chars(&name, &chars_of("moz-extension")) {
        return false;
    }
    if contains_chars(&name, &chars_of(host)) {
        return true;
    }
    match domain_suffix(host) {
        Some(suffix) => contains_chars(&name, &chars_of(suffix.as_str())),
        None => false,
    }
}

/// Which origin directories of the browser's Firefox profile a shared web app copies:
/// extension storage, and the storage of the web app's site (`host`, when known).
pub open spec fn seeds_origin_spec(dir_name: Seq<char>, host: Option<Seq<char>>) -> bool {
    let is_extension = starts_with(dir_name, "moz-extension+++"@) || starts_with(
        dir_name,
        "moz-extension+"@,
    );
    let is_site = match host {
        Some(h) => origin_matches_host_spec(dir_name, h),
        None => false,
    };
    is_extension || is_site
}

/// Whether a shared web app copies the origin directory `dir_name` of the browser profile.
pub fn seeds_origin(dir_name: &str, host: Option<&str>) -> (r: bool)
    ensures
        r == seeds_origin_spec(
            dir_name@,
            match host {
                Some(h) => Some(h@),
                None => None,
            },
        ),
{
    let n = chars_of(dir_name);
    let is_extension = starts_with_chars(&n, &chars_of("moz-extension+++")) || starts_with_chars(
        &n,
        &chars_of("moz-extension+"),
    );
    let is_site = match host {
        Some(h) => origin_matches_host(dir_name, h),
        None => false,
    };
    is_extension || is_site
}

/// Absolute profile paths inside Firefox JSON, rewritten so that seeded add-ons load from
/// the web app's profile: every `source` becomes `dest`, then every `file://{source}`
/// becomes `file://{dest}`; nothing changes when the two paths are equal.
pub open spec fn rewrite_profile_paths_spec(text: Seq<char>, source: Seq<char>, dest: Seq<char>) -> Seq<
    char,
> {
    if source == dest {
        text
    } else {
        replace(replace(text, source, dest), "file://"@ + source, "file://"@ + dest)
    }
}

/// Rewrite absolute profile paths inside Firefox JSON so seeded add-ons load from the web
/// app's profile rather than the browser's own profile.
pub fn rewrite_firefox_profile_paths(text: &str, source: &str, dest: &str) -> (r: String)
    ensures
        r@ == rewrite_profile_paths_spec(text@, source@, dest@),
{
    if crate::text::eq_chars(&chars_of(source), &chars_of(dest)) {
        return String::from_str(text);
    }
    let out = replace_str(text, source, dest);
    let mut src_uri = String::from_str("file://");
    src_uri.append(source);
    let mut dst_uri = String::from_str("file://");
    dst_uri.append(dest);
    replace_str(out.as_str(), src_uri.as_str(), dst_uri.as_str())
}

// ---------------------------------------------------------------------------
// Firefox app chrome
// ---------------------------------------------------------------------------

/// Hide tabs, URL bar and sidebars, and collapse the title strip. Firefox 133+ vertical
/// tabs live under `#sidebar-container`, outside `#navigator-toolbox`.
pub const FIREFOX_USER_CHROME_FRAMELESS: &'static str = r#"/* Mountie — frameless web-app chrome (no title bar) */
#navigator-toolbox {
  display: none !important;
}

#titlebar,
#TabsToolbar,
#tabbrowser-tabs,
#nav-bar,
#PersonalToolbar {
  display: none !important;
  visibility: collapse !important;
}

/* Vertical tabs + new sidebar (outside navigator-toolbox) */
#sidebar-container,
sidebar-main,
#vertical-tabs,
#sidebar-launcher-splitter,
#sidebar-box,
#sidebar-header,
#sidebar-splitter,
#ai-window-box,
#ai-window-splitter,
#statuspanel {
  display: none !important;
  visibility: collapse !important;
  width: 0 !important;
  min-width: 0 !important;
  max-width: 0 !important;
}
"#;

/// Hide tabs and URL bar but keep the native window title bar.
pub const FIREFOX_USER_CHROME_WITH_TITLEBAR: &'static str = r#"/* Mountie — web-app chrome with window title bar */
#TabsToolbar,
#tabbrowser-tabs,
#nav-bar,
#PersonalToolbar {
  visibility: collapse !important;
}

/* Vertical tabs + new sidebar (outside navigator-toolbox) */
#sidebar-container,
sidebar-main,
#vertical-tabs,
#sidebar-launcher-splitter,
#sidebar-box,
#sidebar-header,
#sidebar-splitter,
#ai-window-box,
#ai-window-splitter,
#statuspanel {
  display: none !important;
  visibility: collapse !important;
  width: 0 !important;
  min-width: 0 !important;
  max-width: 0 !important;
}
"#;

/// The part of `user.js` before the value of `browser.tabs.inTitlebar`.
pub const FIREFOX_USER_JS_HEAD: &'static str = r#"// Generated by Mountie — do not remove; re-applied on repair
user_pref("toolkit.legacyUserProfileCustomizations.stylesheets", true);
user_pref("browser.tabs.inTitlebar", "#;

/// The part of `user.js` after the value of `browser.tabs.inTitlebar`.
pub const FIREFOX_USER_JS_TAIL: &'static str = r#");
/* Disable Firefox vertical tabs / sidebar revamp (seeded from Shared browser). */
user_pref("sidebar.verticalTabs", false);
user_pref("sidebar.revamp", false);
user_pref("sidebar.visibility", "hide");
user_pref("browser.startup.homepage_override.mstone", "ignore");
user_pref("browser.shell.checkDefaultBrowser", false);
user_pref("datareporting.policy.dataSubmissionEnabled", false);
user_pref("toolkit.telemetry.enabled", false);
user_pref("browser.startup.firstrunSkipsHomepage", true);
user_pref("trailhead.firstrun.didSeeAboutWelcome", true);
"#;

/// `browser.tabs.inTitlebar`: 0 keeps a separate native title bar, 1 draws tabs into the
/// client-side decoration, which the app chrome then collapses.
pub open spec fn in_titlebar_value(show_title_bar: bool) -> Seq<char> {
    if show_title_bar {
        "0"@
    } else {
        "1"@
    }
}

fn in_titlebar_text(show_title_bar: bool) -> (r: &'static str)
    ensures
        r@ == in_titlebar_value(show_title_bar),
{
    if show_title_bar {
        "0"
    } else {
        "1"
    }
}

/// The `userChrome.css` for the chosen title-bar mode.
pub open spec fn firefox_user_chrome_spec(show_title_bar: bool) -> Seq<char> {
    if show_title_bar {
        FIREFOX_USER_CHROME_WITH_TITLEBAR@
    } else {
        FIREFOX_USER_CHROME_FRAMELESS@
    }
}

/// The `userChrome.css` for the chosen title-bar mode.
pub fn firefox_user_chrome(show_title_bar: bool) -> (r: &'static str)
    ensures
        r@ == firefox_user_chrome_spec(show_title_bar),
{
    if show_title_bar {
        FIREFOX_USER_CHROME_WITH_TITLEBAR
    } else {
        FIREFOX_USER_CHROME_FRAMELESS
    }
}

/// The `user.js` for the chosen title-bar mode.
pub open spec fn firefox_user_js_spec(show_title_bar: bool) -> Seq<char> {
    FIREFOX_USER_JS_HEAD@ + in_titlebar_value(show_title_bar) + FIREFOX_USER_JS_TAIL@
}

/// The `user.js` for the chosen title-bar mode.
pub fn firefox_user_js(show_title_bar: bool) -> (r: String)
    ensures
        r@ == firefox_user_js_spec(show_title_bar),
{
    let mut r = String::from_str(FIREFOX_USER_JS_HEAD);
    r.append(in_titlebar_text(show_title_bar));
    r.append(FIREFOX_USER_JS_TAIL);
    r
}

/// Preferences that `normalize_firefox_prefs_js` drops before re-appending its own.
pub open spec fn forced_pref_names() -> Seq<Seq<char>> {
    seq![
        "browser.tabs.inTitlebar"@,
        "toolkit.legacyUserProfileCustomizations.stylesheets"@,
        "sidebar.verticalTabs"@,
        "sidebar.revamp"@,
        "sidebar.visibility"@,
        "sidebar.backupState"@,
    ]
}

/// A `prefs.js` line that sets one of the forced preferences.
pub open spec fn is_forced_pref_line(line: Seq<char>) -> bool {
    let t = trim(line);
    exists|k: int| 0 <= k < forced_pref_names().len() && contains(t, #[trigger] forced_pref_names()[k])
}

/// The lines of `ls` that set none of the forced preferences.
pub open spec fn kept_pref_lines(ls: Seq<Seq<char>>) -> Seq<Seq<char>>
    decreases ls.len(),
{
    if ls.len() == 0 {
        seq![]
    } else if is_forced_pref_line(ls.last()) {
        kept_pref_lines(ls.drop_last())
    } else {
        kept_pref_lines(ls.drop_last()).push(ls.last())
    }
}

/// A `prefs.js` line `user_pref("{name}", {value});`.
pub open spec fn pref_line(name: Seq<char>, value: Seq<char>) -> Seq<char> {
    "user_pref(\""@ + name + "\", "@ + value + ");"@
}

fn pref_line_exec(name: &str, value: &str) -> (r: String)
    ensures
        r@ == pref_line(name@, value@),
{
    let mut r = String::from_str("user_pref(\"");
    r.append(name);
    r.append("\", ");
    r.append(value);
    r.append(");");
    r
}

/// The preference lines that are forced for the chosen title-bar mode.
pub open spec fn forced_pref_lines(show_title_bar: bool) -> Seq<Seq<char>> {
    seq![
        pref_line("toolkit.legacyUserProfileCustomizations.stylesheets"@, "true"@),
        pref_line("browser.tabs.inTitlebar"@, in_titlebar_value(show_title_bar)),
        pref_line("sidebar.verticalTabs"@, "false"@),
        pref_line("sidebar.revamp"@, "false"@),
        pref_line("sidebar.visibility"@, "\"hide\""@),
    ]
}

/// `prefs.js` with the forced preferences set: lines setting them are dropped, the forced
/// lines appended, lines joined by newlines, and a final newline ensured.
pub open spec fn normalize_prefs_spec(text: Seq<char>, show_title_bar: bool) -> Seq<char> {
    let joined = join(kept_pref_lines(lines(text)) + forced_pref_lines(show_title_bar), "\n"@);
    if crate::text::ends_with(joined, "\n"@) {
        joined
    } else {
        joined.push('\n')
    }
}

fn forced_name_table() -> (r: Vec<Vec<char>>)
    ensures
        vec_views(r@) == forced_pref_names(),
{
    let mut r: Vec<Vec<char>> = Vec::new();
    r.push(chars_of("browser.tabs.inTitlebar"));
    r.push(chars_of("toolkit.legacyUserProfileCustomizations.stylesheets"));
    r.push(chars_of("sidebar.verticalTabs"));
    r.push(chars_of("sidebar.revamp"));
    r.push(chars_of("sidebar.visibility"));
    r.push(chars_of("sidebar.backupState"));
    assert(vec_views(r@) =~= forced_pref_names());
    r
}

fn is_forced_pref_line_exec(line: &Vec<char>, names: &Vec<Vec<char>>) -> (r: bool)
    requires
        vec_views(names@) == forced_pref_names(),
    ensures
        r == is_forced_pref_line(line@),
{
    let t = trim_chars(line);
    let mut k: usize = 0;
    while k < names.len()
        invariant
            k <= names.len(),
            vec_views(names@) == forced_pref_names(),
            t@ == trim(line@),
            forall|m: int| 0 <= m < k ==> !contains(t@, #[trigger] forced_pref_names()[m]),
        decreases names.len() - k,
    {
        assert(vec_views(names@)[k as int] == names@[k as int]@);
        if contains_chars(&t, &names[k]) {
            return true;
        }
        k += 1;
    }
    assert(vec_views(names@).len() == names@.len());
    false
}

/// Force the critical Mountie preferences inside an existing `prefs.js` text.
pub fn normalize_firefox_prefs_js(text: &str, show_title_bar: bool) -> (r: String)
    ensures
        r@ == normalize_prefs_spec(text@, show_title_bar),
{
    let ls = lines_chars(&chars_of(text));
    let ghost all = vec_views(ls@);
    let names = forced_name_table();
    let mut kept: Vec<String> = Vec::new();
    let mut i: usize = 0;
    assert(all.take(0) =~= Seq::<Seq<char>>::empty());
    while i < ls.len()
        invariant
            i <= ls.len(),
            all == vec_views(ls@),
            vec_views(names@) == forced_pref_names(),
            views(kept@) == kept_pref_lines(all.take(i as int)),
        decreases ls.len() - i,
    {
        let ghost prev = views(kept@);
        assert(all[i as int] == ls@[i as int]@);
        if !is_forced_pref_line_exec(&ls[i], &names) {
            kept.push(string_of(&ls[i]));
            assert(views(kept@) =~= prev.push(all[i as int]));
        }
        i += 1;
        proof {
            assert(all.take(i as int).drop_last() =~= all.take(i - 1));
        }
    }
    assert(all.take(ls.len() as int) =~= all);
    let ghost kv = views(kept@);
    kept.push(pref_line_exec("toolkit.legacyUserProfileCustomizations.stylesheets", "true"));
    kept.push(pref_line_exec("browser.tabs.inTitlebar", in_titlebar_text(show_title_bar)));
    kept.push(pref_line_exec("sidebar.verticalTabs", "false"));
    kept.push(pref_line_exec("sidebar.revamp", "false"));
    kept.push(pref_line_exec("sidebar.visibility", "\"hide\""));
    assert(views(kept@) =~= kv + forced_pref_lines(show_title_bar));
    let mut out = join_strings(&kept, "\n");
    let o = chars_of(out.as_str());
    if !crate::text::ends_with_chars(&o, &chars_of("\n")) {
        out.push('\n');
    }
    out
}

/// A line that `lines` gives back unchanged once it is followed by a newline: it holds no
/// newline and does not end with a carriage return.
pub open spec fn plain_line(l: Seq<char>) -> bool {
    !l.contains('\n') && strip_cr(l) == l
}

proof fn lemma_kept_concat(a: Seq<Seq<char>>, b: Seq<Seq<char>>)
    ensures
        kept_pref_lines(a + b) == kept_pref_lines(a) + kept_pref_lines(b),
    decreases b.len(),
{
    if b.len() == 0 {
        assert(a + b =~= a);
        assert(kept_pref_lines(a) + kept_pref_lines(b) =~= kept_pref_lines(a));
    } else {
        lemma_kept_concat(a, b.drop_last());
        assert((a + b).drop_last() =~= a + b.drop_last());
        assert((a + b).last() == b.last());
        if !is_forced_pref_line(b.last()) {
            assert(kept_pref_lines(a) + kept_pref_lines(b) =~= (kept_pref_lines(a)
                + kept_pref_lines(b.drop_last())).push(b.last()));
        }
    }
}

proof fn lemma_kept_idempotent(a: Seq<Seq<char>>)
    ensures
        kept_pref_lines(kept_pref_lines(a)) == kept_pref_lines(a),
    decreases a.len(),
{
    if a.len() > 0 {
        lemma_kept_idempotent(a.drop_last());
        if !is_forced_pref_line(a.last()) {
            let k = kept_pref_lines(a.drop_last()).push(a.last());
            assert(k.drop_last() =~= kept_pref_lines(a.drop_last()));
            assert(k.last() == a.last());
        }
    }
}

proof fn lemma_kept_no_newline(a: Seq<Seq<char>>)
    requires
        forall|i: int| 0 <= i < a.len() ==> !(#[trigger] a[i]).contains('\n'),
    ensures
        forall|i: int|
            0 <= i < kept_pref_lines(a).len() ==> !(#[trigger] kept_pref_lines(a)[i]).contains('\n'),
    decreases a.len(),
{
    if a.len() > 0 {
        let d = a.drop_last();
        assert forall|i: int| 0 <= i < d.len() implies !(#[trigger] d[i]).contains('\n') by {
            assert(d[i] == a[i]);
        }
        lemma_kept_no_newline(d);
        assert(!a[a.len() - 1].contains('\n'));
        if !is_forced_pref_line(a.last()) {
            let k = kept_pref_lines(a);
            assert(k == kept_pref_lines(d).push(a.last()));
            assert forall|i: int| 0 <= i < k.len() implies !(#[trigger] k[i]).contains('\n') by {
                if i < k.len() - 1 {
                    assert(k[i] == kept_pref_lines(d)[i]);
                }
            }
        }
    }
}

proof fn lemma_kept_none(a: Seq<Seq<char>>)
    requires
        forall|i: int| 0 <= i < a.len() ==> is_forced_pref_line(#[trigger] a[i]),
    ensures
        kept_pref_lines(a) == Seq::<Seq<char>>::empty(),
    decreases a.len(),
{
    if a.len() > 0 {
        let d = a.drop_last();
        assert forall|i: int| 0 <= i < d.len() implies is_forced_pref_line(#[trigger] d[i]) by {
            assert(d[i] == a[i]);
        }
        lemma_kept_none(d);
        assert(is_forced_pref_line(a[a.len() - 1]));
    }
}

/// A forced line sets its preference and is a plain line.
proof fn lemma_pref_line_forced(k: int, value: Seq<char>)
    requires
        0 <= k < forced_pref_names().len(),
        !value.contains('\n'),
    ensures
        is_forced_pref_line(pref_line(forced_pref_names()[k], value)),
        plain_line(pref_line(forced_pref_names()[k], value)),
{
    let name = forced_pref_names()[k];
    reveal_strlit("user_pref(\"");
    reveal_strlit("\", ");
    reveal_strlit(");");
    reveal_strlit("browser.tabs.inTitlebar");
    reveal_strlit("toolkit.legacyUserProfileCustomizations.stylesheets");
    reveal_strlit("sidebar.verticalTabs");
    reveal_strlit("sidebar.revamp");
    reveal_strlit("sidebar.visibility");
    reveal_strlit("sidebar.backupState");
    let pre = "user_pref(\""@;
    let l = pref_line(name, value);
    assert(!name.contains('\n'));
    assert forall|j: int| 0 <= j < l.len() implies l[j] != '\n' by {
        if j < pre.len() {
            assert(l[j] == pre[j]);
        } else if j < pre.len() + name.len() {
            assert(l[j] == name[j - pre.len()]);
        } else if j < pre.len() + name.len() + "\", "@.len() {
            assert(l[j] == "\", "@[j - pre.len() - name.len()]);
        } else if j < pre.len() + name.len() + "\", "@.len() + value.len() {
            assert(l[j] == value[j - pre.len() - name.len() - "\", "@.len()]);
        } else {
            assert(l[j] == ");"@[j - pre.len() - name.len() - "\", "@.len() - value.len()]);
        }
    }
    assert(l.last() == ';');
    assert(l[0] == 'u');
    crate::text::lemma_trim_fixed(l);
    assert(l.subrange(pre.len() as int, (pre.len() + name.len()) as int) =~= name);
    assert(matches_at(trim(l), name, pre.len() as int));
    assert(contains(trim(l), forced_pref_names()[k]));
}

/// No line of `prefs.js` that normalising keeps (one that sets no forced preference, as
/// `str::lines` yields it) ends with a carriage return. A kept line that does would be read
/// back without it once normalising has ended it with a newline.
pub open spec fn kept_lines_end_plain(text: Seq<char>) -> bool {
    forall|i: int|
        0 <= i < kept_pref_lines(lines(text)).len() ==> strip_cr(
            #[trigger] kept_pref_lines(lines(text))[i],
        ) == kept_pref_lines(lines(text))[i]
}

/// Normalising a `prefs.js` text that is already normalised changes nothing: the result
/// keeps the lines that set no forced preference, then the forced lines, so a second pass
/// drops and re-appends the same forced lines. This holds for every text none of whose
/// kept lines ends with a carriage return.
pub proof fn law_normalize_prefs_idempotent(text: Seq<char>, show_title_bar: bool)
    requires
        kept_lines_end_plain(text),
    ensures
        normalize_prefs_spec(normalize_prefs_spec(text, show_title_bar), show_title_bar)
            == normalize_prefs_spec(text, show_title_bar),
{
    reveal_strlit("\n");
    reveal_strlit("true");
    reveal_strlit("false");
    reveal_strlit("\"hide\"");
    reveal_strlit("0");
    reveal_strlit("1");
    reveal_strlit(");");
    let f = forced_pref_lines(show_title_bar);
    let v = in_titlebar_value(show_title_bar);
    assert(!v.contains('\n'));
    lemma_pref_line_forced(1, "true"@);
    lemma_pref_line_forced(0, v);
    lemma_pref_line_forced(2, "false"@);
    lemma_pref_line_forced(3, "false"@);
    lemma_pref_line_forced(4, "\"hide\""@);
    assert forall|i: int| 0 <= i < f.len() implies is_forced_pref_line(#[trigger] f[i])
        && plain_line(f[i]) by {}
    lemma_kept_none(f);
    let ls = lines(text);
    crate::text::lemma_lines_no_newline(text);
    lemma_kept_no_newline(ls);
    let k = kept_pref_lines(ls);
    assert forall|i: int| 0 <= i < k.len() implies plain_line(#[trigger] k[i]) by {}
    let all = k + f;
    assert forall|i: int| 0 <= i < all.len() implies plain_line(#[trigger] all[i]) by {
        if i < k.len() {
            assert(all[i] == k[i]);
        } else {
            assert(all[i] == f[i - k.len()]);
        }
    }
    let joined = join(all, "\n"@);
    assert(all.last() == f[4]);
    assert(joined == join(all.drop_last(), "\n"@) + "\n"@ + all.last());
    assert(joined.last() == ';');
    assert(!crate::text::ends_with(joined, "\n"@)) by {
        if joined.len() >= 1 {
            assert(joined.skip(joined.len() - 1)[0] == joined.last());
        }
    }
    let n = normalize_prefs_spec(text, show_title_bar);
    assert(n == joined.push('\n'));
    crate::text::lemma_join_terminated(all);
    crate::text::lemma_lines_terminated(all);
    assert(all.map_values(|l: Seq<char>| strip_cr(l)) =~= all);
    assert(lines(n) == all);
    lemma_kept_concat(k, f);
    lemma_kept_idempotent(ls);
    assert(kept_pref_lines(all) =~= k);
}

/// The two title-bar modes have different `userChrome.css` and different `user.js`.
pub proof fn lemma_chrome_modes_differ()
    ensures
        firefox_user_chrome_spec(true) != firefox_user_chrome_spec(false),
        firefox_user_js_spec(true) != firefox_user_js_spec(false),
{
    reveal_strlit(r#"/* Mountie — frameless web-app chrome (no title bar) */
#navigator-toolbox {
  display: none !important;
}

#titlebar,
#TabsToolbar,
#tabbrowser-tabs,
#nav-bar,
#PersonalToolbar {
  display: none !important;
  visibility: collapse !important;
}

/* Vertical tabs + new sidebar (outside navigator-toolbox) */
#sidebar-container,
sidebar-main,
#vertical-tabs,
#sidebar-launcher-splitter,
#sidebar-box,
#sidebar-header,
#sidebar-splitter,
#ai-window-box,
#ai-window-splitter,
#statuspanel {
  display: none !important;
  visibility: collapse !important;
  width: 0 !important;
  min-width: 0 !important;
  max-width: 0 !important;
}
"#);
    reveal_strlit(r#"/* Mountie — web-app chrome with window title bar */
#TabsToolbar,
#tabbrowser-tabs,
#nav-bar,
#PersonalToolbar {
  visibility: collapse !important;
}

/* Vertical tabs + new sidebar (outside navigator-toolbox) */
#sidebar-container,
sidebar-main,
#vertical-tabs,
#sidebar-launcher-splitter,
#sidebar-box,
#sidebar-header,
#sidebar-splitter,
#ai-window-box,
#ai-window-splitter,
#statuspanel {
  display: none !important;
  visibility: collapse !important;
  width: 0 !important;
  min-width: 0 !important;
  max-width: 0 !important;
}
"#);
    reveal_strlit("0");
    reveal_strlit("1");
    assert(FIREFOX_USER_CHROME_FRAMELESS@[13] != FIREFOX_USER_CHROME_WITH_TITLEBAR@[13]);
    let h = FIREFOX_USER_JS_HEAD@;
    let t = FIREFOX_USER_JS_TAIL@;
    assert((h + "0"@ + t)[h.len() as int] == '0');
    assert((h + "1"@ + t)[h.len() as int] == '1');
}

// ---------------------------------------------------------------------------
// Creating, updating and repairing
// ---------------------------------------------------------------------------

/// The name and URL a web app is created or updated with: the trimmed name, and the
/// serialisation of the normalised URL.
pub open spec fn checked_fields_spec(name: Seq<char>, url: Seq<char>) -> Result<
    (Seq<char>, Seq<char>),
    WebAppError,
> {
    if trim(name).len() == 0 {
        Err(WebAppError::NameRequired)
    } else if trim(url).len() == 0 {
        Err(WebAppError::Url(UrlError::Empty))
    } else {
        match url_parse(with_scheme(url)) {
            Some(v) => Ok((trim(name), v.text)),
            None => Err(WebAppError::Url(UrlError::Invalid)),
        }
    }
}

/// Checks the name (required) and normalises the URL of a web app.
pub fn checked_name_and_url(name: &str, url: &str) -> (r: Result<(String, String), WebAppError>)
    ensures
        match r {
            Ok((n, u)) => checked_fields_spec(name@, url@) == Ok::<
                (Seq<char>, Seq<char>),
                WebAppError,
            >((n@, u@)),
            Err(e) => checked_fields_spec(name@, url@) == Err::<(Seq<char>, Seq<char>), WebAppError>(
                e,
            ),
        },
{
    let n = crate::text::trim_str(name);
    if n.as_str().unicode_len() == 0 {
        return Err(WebAppError::NameRequired);
    }
    match normalize_url(url) {
        Ok(u) => Ok((n, String::from_str(u.as_str()))),
        Err(e) => Err(WebAppError::Url(e)),
    }
}

/// What a launcher for a web app consists of: its entry (as it will be listed) and the
/// text of its desktop file.
pub struct LauncherPlan {
    pub entry: DesktopEntry,
    pub content: String,
}

/// The entry of the launcher of a web app, under the data directory `base`.
pub open spec fn launcher_entry_spec(
    base: Seq<char>,
    codename: Seq<char>,
    name: Seq<char>,
    url: Seq<char>,
    browser: BrowserView,
    icon_dest: Seq<char>,
    profile_mode: ProfileMode,
    show_title_bar: bool,
) -> DesktopEntryView {
    DesktopEntryView {
        path: desktop_path_spec(base, codename),
        codename,
        name,
        url,
        browser: browser.name,
        icon: icon_dest,
        exec_line: exec_line_spec(
            browser,
            codename,
            url,
            icon_dest,
            profile_path_spec(browser.family, base, codename),
        ),
        startup_wm_class: window_class_spec(browser, codename, url),
        profile_mode,
        show_title_bar,
    }
}

/// The launcher of a web app under the data directory `base`: the dock class, the
/// isolated `Exec=` line and the desktop file's text.
pub fn plan_launcher_in(
    base: &str,
    codename: &str,
    name: &str,
    url: &str,
    browser: &Browser,
    icon_dest: &str,
    profile_mode: ProfileMode,
    show_title_bar: bool,
) -> (r: LauncherPlan)
    ensures
        r.entry@ == launcher_entry_spec(
            base@,
            codename@,
            name@,
            url@,
            browser@,
            icon_dest@,
            profile_mode,
            show_title_bar,
        ),
        r.content@ == desktop_file_content_spec(
            name@,
            url@,
            browser.name@,
            icon_dest@,
            r.entry.exec_line@,
            r.entry.startup_wm_class@,
            profile_mode,
            show_title_bar,
        ),
{
    let class = window_class(browser, codename, url);
    let profile = profile_path_in(browser.family, base, codename);
    let exec = exec_line(browser, codename, url, icon_dest, profile.as_str());
    let content = desktop_file_content(
        name,
        url,
        browser.name.as_str(),
        icon_dest,
        exec.as_str(),
        class.as_str(),
        profile_mode,
        show_title_bar,
    );
    let entry = DesktopEntry {
        path: desktop_path_in(base, codename),
        codename: String::from_str(codename),
        name: String::from_str(name),
        url: String::from_str(url),
        browser: browser.name.clone(),
        icon: String::from_str(icon_dest),
        exec_line: exec,
        startup_wm_class: class,
        profile_mode,
        show_title_bar,
    };
    LauncherPlan { entry, content }
}

/// The launcher of a web app, under the user's data directory.
pub fn plan_launcher(
    codename: &str,
    name: &str,
    url: &str,
    browser: &Browser,
    icon_dest: &str,
    profile_mode: ProfileMode,
    show_title_bar: bool,
) -> (r: Result<LauncherPlan, PathError>)
    ensures
        r matches Ok(p) ==> exists|base: Seq<char>|
            crate::paths::is_xdg_data_base(base) && p.entry@ == launcher_entry_spec(
                base,
                codename@,
                name@,
                url@,
                browser@,
                icon_dest@,
                profile_mode,
                show_title_bar,
            ),
        r matches Ok(p) ==> p.content@ == desktop_file_content_spec(
            name@,
            url@,
            browser.name@,
            icon_dest@,
            p.entry.exec_line@,
            p.entry.startup_wm_class@,
            profile_mode,
            show_title_bar,
        ),
{
    let base = data_base()?;
    Ok(
        plan_launcher_in(
            base.as_str(),
            codename,
            name,
            url,
            browser,
            icon_dest,
            profile_mode,
            show_title_bar,
        ),
    )
}

/// A web app's launcher, once written, is listed back exactly as planned: its file name
/// gives the codename and its text every other field, for values that the format stores
/// verbatim.
pub proof fn law_planned_launcher_lists_back(
    base: Seq<char>,
    codename: Seq<char>,
    name: Seq<char>,
    url: Seq<char>,
    browser: BrowserView,
    icon_dest: Seq<char>,
    profile_mode: ProfileMode,
    show_title_bar: bool,
)
    requires
        crate::desktop::stored_verbatim(name),
        crate::desktop::stored_verbatim(url),
        crate::desktop::stored_verbatim(browser.name),
        crate::desktop::stored_verbatim(icon_dest),
        crate::desktop::stored_verbatim(window_class_spec(browser, codename, url)),
        crate::desktop::exec_stored_verbatim(
            launcher_entry_spec(
                base,
                codename,
                name,
                url,
                browser,
                icon_dest,
                profile_mode,
                show_title_bar,
            ).exec_line,
        ),
    ensures
        ({
            let e = launcher_entry_spec(
                base,
                codename,
                name,
                url,
                browser,
                icon_dest,
                profile_mode,
                show_title_bar,
            );
            crate::desktop::parse_desktop_spec(
                e.path,
                Some(crate::paths::desktop_file_name_spec(codename)),
                desktop_file_content_spec(
                    name,
                    url,
                    browser.name,
                    icon_dest,
                    e.exec_line,
                    e.startup_wm_class,
                    profile_mode,
                    show_title_bar,
                ),
            ) == Ok::<DesktopEntryView, crate::desktop::DesktopErrorView>(e)
        }),
{
    let e = launcher_entry_spec(
        base,
        codename,
        name,
        url,
        browser,
        icon_dest,
        profile_mode,
        show_title_bar,
    );
    crate::desktop::law_desktop_roundtrip(
        e.path,
        codename,
        name,
        url,
        browser.name,
        icon_dest,
        e.exec_line,
        e.startup_wm_class,
        profile_mode,
        show_title_bar,
    );
}

/// What an update does to the web app's private profiles.
#[derive(Debug, Clone, Copy)]
pub struct ProfilePlan {
    /// Remove every private profile (leaving Shared for Isolated: start clean).
    pub wipe_all: bool,
    /// Remove the private profile of this family (the browser family changed).
    pub remove_family: Option<BrowserFamily>,
    /// Seed the private profile from the browser again.
    pub force_seed: bool,
}

/// The profile changes of an update from (`old_mode`, the browser named `old_browser`,
/// whose family is `old_family` when it is still installed) to (`new_mode`, `new_browser`
/// of family `new_family`): leaving Shared for Isolated wipes the seeded data; otherwise a
/// change of family removes the unused family's profile; entering Shared, or changing the
/// browser while Shared, seeds again.
pub open spec fn profile_plan_spec(
    old_mode: ProfileMode,
    new_mode: ProfileMode,
    old_family: Option<BrowserFamily>,
    new_family: BrowserFamily,
    old_browser: Seq<char>,
    new_browser: Seq<char>,
) -> (bool, Option<BrowserFamily>, bool) {
    let wipe_all = old_mode == ProfileMode::Shared && new_mode != ProfileMode::Shared;
    let remove_family = if wipe_all {
        None
    } else {
        match old_family {
            Some(f) => if f != new_family {
                Some(f)
            } else {
                None
            },
            None => None,
        }
    };
    let force_seed = new_mode == ProfileMode::Shared && (old_mode != new_mode || old_browser
        != new_browser);
    (wipe_all, remove_family, force_seed)
}

/// The profile changes of an update (see `profile_plan_spec`).
pub fn plan_profile_update(
    old_mode: ProfileMode,
    new_mode: ProfileMode,
    old_family: Option<BrowserFamily>,
    new_family: BrowserFamily,
    old_browser: &str,
    new_browser: &str,
) -> (r: ProfilePlan)
    ensures
        (r.wipe_all, r.remove_family, r.force_seed) == profile_plan_spec(
            old_mode,
            new_mode,
            old_family,
            new_family,
            old_browser@,
            new_browser@,
        ),
{
    let wipe_all = old_mode.seeds_from_browser() && !new_mode.seeds_from_browser();
    let remove_family = if wipe_all {
        None
    } else {
        match old_family {
            Some(f) => if f != new_family {
                Some(f)
            } else {
                None
            },
            None => None,
        }
    };
    let same_browser = crate::text::eq_chars(&chars_of(old_browser), &chars_of(new_browser));
    let force_seed = new_mode.seeds_from_browser() && (old_mode != new_mode || !same_browser);
    ProfilePlan { wipe_all, remove_family, force_seed }
}

/// How an update decides to seed the private profile again. When the updated web app
/// shares the browser's data (Shared), it is seeded again whenever its browser changes
/// (by name), whatever the old mode, and whenever it enters Shared; it is never seeded
/// when it ends up Isolated, nor when neither mode nor browser changed. A profile is
/// removed by family only for the old family, and only when it differs from the new one.
pub proof fn law_update_seeding(
    old_mode: ProfileMode,
    new_mode: ProfileMode,
    old_family: Option<BrowserFamily>,
    new_family: BrowserFamily,
    old_browser: Seq<char>,
    new_browser: Seq<char>,
)
    ensures
        new_mode == ProfileMode::Shared && old_browser != new_browser ==> profile_plan_spec(
            old_mode,
            new_mode,
            old_family,
            new_family,
            old_browser,
            new_browser,
        ).2,
        new_mode == ProfileMode::Shared && old_mode != new_mode ==> profile_plan_spec(
            old_mode,
            new_mode,
            old_family,
            new_family,
            old_browser,
            new_browser,
        ).2,
        new_mode != ProfileMode::Shared ==> !profile_plan_spec(
            old_mode,
            new_mode,
            old_family,
            new_family,
            old_browser,
            new_browser,
        ).2,
        old_mode == new_mode && old_browser == new_browser ==> !profile_plan_spec(
            old_mode,
            new_mode,
            old_family,
            new_family,
            old_browser,
            new_browser,
        ).2,
        profile_plan_spec(old_mode, new_mode, old_family, new_family, old_browser, new_browser).1
            matches Some(f) ==> old_family == Some(f) && f != new_family,
        profile_plan_spec(old_mode, new_mode, old_family, new_family, old_browser, new_browser).0
            <==> (old_mode == ProfileMode::Shared && new_mode == ProfileMode::Isolated),
        !(old_mode == ProfileMode::Shared && new_mode == ProfileMode::Isolated) && old_family
            is Some && old_family != Some(new_family) ==> profile_plan_spec(
            old_mode,
            new_mode,
            old_family,
            new_family,
            old_browser,
            new_browser,
        ).1 == old_family,
{
}

/// Whether some line of `ls`, trimmed, equals `wanted`.
pub open spec fn has_trimmed_line(ls: Seq<Seq<char>>, wanted: Seq<char>) -> bool {
    exists|i: int| 0 <= i < ls.len() && trim(#[trigger] ls[i]) == wanted
}

/// Whether some line of `ls`, trimmed, starts with `prefix`.
pub open spec fn has_line_starting(ls: Seq<Seq<char>>, prefix: Seq<char>) -> bool {
    exists|i: int| 0 <= i < ls.len() && starts_with(trim(#[trigger] ls[i]), prefix)
}

/// Whether a web app's launcher must be rewritten: its class or `Exec=` line differs from
/// what it should be, the `Exec=` line lacks the class, the desktop file (`current`) lacks
/// the absolute `Icon=` line or the title-bar key, a Chromium launcher lacks its private
/// profile, or a shared Firefox profile still needs seeding.
pub open spec fn repair_needs_fix_spec(
    app: DesktopEntryView,
    family: BrowserFamily,
    expected_class: Seq<char>,
    new_exec: Seq<char>,
    current: Seq<char>,
    icon_path: Seq<char>,
    seed_if_needed: bool,
) -> bool {
    let ls = lines(current);
    ||| app.startup_wm_class != expected_class
    ||| app.exec_line != new_exec
    ||| !contains(app.exec_line, expected_class)
    ||| !has_trimmed_line(ls, "Icon="@ + icon_path)
    ||| !has_line_starting(ls, "X-WebApp-ShowTitleBar="@)
    ||| (family == BrowserFamily::Chromium && !contains(app.exec_line, "--user-data-dir="@))
    ||| (family == BrowserFamily::Firefox && app.profile_mode == ProfileMode::Shared
        && seed_if_needed)
}

/// Whether a web app's launcher must be rewritten (see `repair_needs_fix_spec`).
pub fn repair_needs_fix(
    app: &DesktopEntry,
    family: BrowserFamily,
    expected_class: &str,
    new_exec: &str,
    current: &str,
    icon_path: &str,
    seed_if_needed: bool,
) -> (r: bool)
    ensures
        r == repair_needs_fix_spec(
            app@,
            family,
            expected_class@,
            new_exec@,
            current@,
            icon_path@,
            seed_if_needed,
        ),
{
    let ls = lines_chars(&chars_of(current));
    let ghost all = vec_views(ls@);
    let mut wanted = String::from_str("Icon=");
    wanted.append(icon_path);
    let wanted = chars_of(wanted.as_str());
    let key = chars_of("X-WebApp-ShowTitleBar=");
    let mut icon_found = false;
    let mut title_found = false;
    let mut i: usize = 0;
    while i < ls.len()
        invariant
            i <= ls.len(),
            all == vec_views(ls@),
            wanted@ == "Icon="@ + icon_path@,
            key@ == "X-WebApp-ShowTitleBar="@,
            icon_found == exists|j: int| 0 <= j < i && trim(#[trigger] all[j]) == wanted@,
            title_found == exists|j: int| 0 <= j < i && starts_with(trim(#[trigger] all[j]), key@),
        decreases ls.len() - i,
    {
        assert(all[i as int] == ls@[i as int]@);
        let t = trim_chars(&ls[i]);
        if crate::text::eq_chars(&t, &wanted) {
            icon_found = true;
        }
        if starts_with_chars(&t, &key) {
            title_found = true;
        }
        i += 1;
    }
    let class = chars_of(expected_class);
    let exec = chars_of(app.exec_line.as_str());
    let class_differs = !crate::text::eq_chars(&chars_of(app.startup_wm_class.as_str()), &class);
    let exec_differs = !crate::text::eq_chars(&exec, &chars_of(new_exec));
    class_differs || exec_differs || !contains_chars(&exec, &class) || !icon_found
        || !title_found || (family == BrowserFamily::Chromium && !contains_chars(
        &exec,
        &chars_of("--user-data-dir="),
    )) || (family == BrowserFamily::Firefox && app.profile_mode == ProfileMode::Shared
        && seed_if_needed)
}

proof fn lemma_chromium_exec_parts(
    exec_q: Seq<char>,
    url_q: Seq<char>,
    class_q: Seq<char>,
    profile_q: Seq<char>,
)
    ensures
        contains(
            exec_q + " --app="@ + url_q + " --class="@ + class_q + " --name="@ + class_q
                + " --user-data-dir="@ + profile_q,
            class_q,
        ),
        contains(
            exec_q + " --app="@ + url_q + " --class="@ + class_q + " --name="@ + class_q
                + " --user-data-dir="@ + profile_q,
            "--user-data-dir="@,
        ),
{
    let exec = exec_q + " --app="@ + url_q + " --class="@ + class_q + " --name="@ + class_q
        + " --user-data-dir="@ + profile_q;
    let p = exec_q + " --app="@ + url_q + " --class="@;
    let q = " --name="@ + class_q + " --user-data-dir="@ + profile_q;
    assert(exec =~= p + class_q + q);
    crate::text::lemma_contains_middle(p, class_q, q);
    let flag = " --user-data-dir="@;
    let p2 = p + class_q + " --name="@ + class_q;
    assert(exec =~= p2 + flag + profile_q);
    crate::text::lemma_contains_middle(p2, flag, profile_q);
    reveal_strlit(" --user-data-dir=");
    reveal_strlit("--user-data-dir=");
    assert(flag =~= seq![' '] + "--user-data-dir="@ + Seq::<char>::empty());
    crate::text::lemma_contains_middle(seq![' '], "--user-data-dir="@, Seq::<char>::empty());
    crate::text::lemma_contains_trans(exec, flag, "--user-data-dir="@);
}

proof fn lemma_firefox_exec_parts(
    icon_q: Seq<char>,
    exec_q: Seq<char>,
    class_q: Seq<char>,
    profile_q: Seq<char>,
    url_q: Seq<char>,
)
    ensures
        contains(
            "sh -c 'XAPP_FORCE_GTKWINDOW_ICON="@ + icon_q + " "@ + exec_q + " --class "@ + class_q
                + " --name "@ + class_q + " --profile "@ + profile_q + " --no-remote "@ + url_q
                + "'"@,
            class_q,
        ),
        contains(
            "sh -c 'XAPP_FORCE_GTKWINDOW_ICON="@ + icon_q + " "@ + exec_q + " --class "@ + class_q
                + " --name "@ + class_q + " --profile "@ + profile_q + " --no-remote "@ + url_q
                + "'"@,
            " --profile "@ + profile_q + " --no-remote "@,
        ),
{
    let exec = "sh -c 'XAPP_FORCE_GTKWINDOW_ICON="@ + icon_q + " "@ + exec_q + " --class "@
        + class_q + " --name "@ + class_q + " --profile "@ + profile_q + " --no-remote "@ + url_q
        + "'"@;
    let p = "sh -c 'XAPP_FORCE_GTKWINDOW_ICON="@ + icon_q + " "@ + exec_q + " --class "@;
    let q = " --name "@ + class_q + " --profile "@ + profile_q + " --no-remote "@ + url_q + "'"@;
    assert(exec =~= p + class_q + q);
    crate::text::lemma_contains_middle(p, class_q, q);
    let p2 = p + class_q + " --name "@ + class_q;
    let mid = " --profile "@ + profile_q + " --no-remote "@;
    let q2 = url_q + "'"@;
    assert(exec =~= p2 + mid + q2);
    crate::text::lemma_contains_middle(p2, mid, q2);
}

/// A created web app is listed back by its codename, whatever its name, URL, browser name
/// and icon: once its planned launcher is among the files of the applications directory,
/// the list of managed web apps holds an entry with its codename, launcher path, profile
/// mode and title-bar choice. This holds whenever its launch command holds no newline.
pub proof fn law_created_app_listed(
    base: Seq<char>,
    codename: Seq<char>,
    name: Seq<char>,
    url: Seq<char>,
    browser: BrowserView,
    icon_dest: Seq<char>,
    profile_mode: ProfileMode,
    show_title_bar: bool,
    files: Seq<crate::desktop::DesktopFileView>,
    k: int,
)
    requires
        !launcher_entry_spec(
            base,
            codename,
            name,
            url,
            browser,
            icon_dest,
            profile_mode,
            show_title_bar,
        ).exec_line.contains('\n'),
        0 <= k < files.len(),
        ({
            let e = launcher_entry_spec(
                base,
                codename,
                name,
                url,
                browser,
                icon_dest,
                profile_mode,
                show_title_bar,
            );
            files[k] == crate::desktop::DesktopFileView {
                path: e.path,
                file_name: Some(crate::paths::desktop_file_name_spec(codename)),
                text: desktop_file_content_spec(
                    name,
                    url,
                    browser.name,
                    icon_dest,
                    e.exec_line,
                    e.startup_wm_class,
                    profile_mode,
                    show_title_bar,
                ),
            }
        }),
    ensures
        ({
            let listed = crate::desktop::sort_by_name(crate::desktop::parsed_apps(files));
            exists|i: int|
                0 <= i < listed.len() && (#[trigger] listed[i]).codename == codename
                    && listed[i].path == desktop_path_spec(base, codename) && listed[i].profile_mode
                    == profile_mode && listed[i].show_title_bar == show_title_bar
        }),
{
    let e = launcher_entry_spec(
        base,
        codename,
        name,
        url,
        browser,
        icon_dest,
        profile_mode,
        show_title_bar,
    );
    crate::desktop::law_launcher_read_as_managed(
        e.path,
        codename,
        name,
        url,
        browser.name,
        icon_dest,
        e.exec_line,
        e.startup_wm_class,
        profile_mode,
        show_title_bar,
    );
    let f = files[k];
    let parsed = parse_desktop_spec(f.path, f.file_name, f.text);
    let entry = parsed->Ok_0;
    crate::desktop::law_managed_file_listed(files, k, entry);
    let listed = crate::desktop::sort_by_name(crate::desktop::parsed_apps(files));
    let i = choose|i: int| 0 <= i < listed.len() && listed[i] == entry;
    assert(listed[i].codename == codename);
}

/// Every launch command runs the web app in its own profile, whatever the profile mode: a
/// Chromium one passes `--user-data-dir=`, a Firefox one passes `--profile` with the
/// profile directory, then `--no-remote`. The command also holds the window class
/// whenever the class has no `"` or `$` (which quoting would escape).
pub proof fn law_exec_isolates(
    browser: BrowserView,
    codename: Seq<char>,
    url: Seq<char>,
    icon: Seq<char>,
    profile: Seq<char>,
)
    ensures
        !window_class_spec(browser, codename, url).contains('"') && !window_class_spec(
            browser,
            codename,
            url,
        ).contains('$') ==> contains(
            exec_line_spec(browser, codename, url, icon, profile),
            window_class_spec(browser, codename, url),
        ),
        browser.family == BrowserFamily::Chromium ==> contains(
            exec_line_spec(browser, codename, url, icon, profile),
            "--user-data-dir="@,
        ),
        browser.family == BrowserFamily::Firefox ==> contains(
            exec_line_spec(browser, codename, url, icon, profile),
            " --profile "@ + shell_quote_spec(profile) + " --no-remote "@,
        ),
{
    let class = window_class_spec(browser, codename, url);
    let class_q = shell_quote_spec(class);
    let exec_q = shell_quote_spec(browser.exec_path);
    let url_q = shell_quote_spec(url);
    let icon_q = shell_quote_spec(icon);
    let profile_q = shell_quote_spec(profile);
    let exec = exec_line_spec(browser, codename, url, icon, profile);
    match browser.family {
        BrowserFamily::Chromium => {
            lemma_chromium_exec_parts(exec_q, url_q, class_q, profile_q);
        },
        BrowserFamily::Firefox => {
            lemma_firefox_exec_parts(icon_q, exec_q, class_q, profile_q, url_q);
        },
    }
    if !class.contains('"') && !class.contains('$') {
        lemma_quoted_contains(class);
        crate::text::lemma_contains_trans(exec, class_q, class);
    }
}

/// Repairing a launcher that was just written finds nothing to fix: its class, `Exec=`
/// line, `Icon=` line and title-bar key are what a repair would write, unless the private
/// profile still needs seeding. This holds for values that the launcher stores verbatim
/// and a window class without `"` or `$`.
pub proof fn law_repair_settles(
    path: Seq<char>,
    base: Seq<char>,
    codename: Seq<char>,
    name: Seq<char>,
    url: Seq<char>,
    browser: BrowserView,
    icon: Seq<char>,
    profile_mode: ProfileMode,
    show_title_bar: bool,
)
    requires
        stored_verbatim(name),
        stored_verbatim(url),
        stored_verbatim(browser.name),
        stored_verbatim(icon),
        stored_verbatim(window_class_spec(browser, codename, url)),
        !window_class_spec(browser, codename, url).contains('"'),
        !window_class_spec(browser, codename, url).contains('$'),
        exec_stored_verbatim(
            exec_line_spec(
                browser,
                codename,
                url,
                icon,
                profile_path_spec(browser.family, base, codename),
            ),
        ),
    ensures
        ({
            let class = window_class_spec(browser, codename, url);
            let exec = exec_line_spec(
                browser,
                codename,
                url,
                icon,
                profile_path_spec(browser.family, base, codename),
            );
            let content = desktop_file_content_spec(
                name,
                url,
                browser.name,
                icon,
                exec,
                class,
                profile_mode,
                show_title_bar,
            );
            match parse_desktop_spec(path, Some(desktop_file_name_spec(codename)), content) {
                Ok(app) => !repair_needs_fix_spec(
                    app,
                    browser.family,
                    class,
                    exec,
                    content,
                    icon,
                    false,
                ),
                Err(_) => false,
            }
        }),
{
    let class = window_class_spec(browser, codename, url);
    let profile = profile_path_spec(browser.family, base, codename);
    let exec = exec_line_spec(browser, codename, url, icon, profile);
    law_desktop_roundtrip(
        path,
        codename,
        name,
        url,
        browser.name,
        icon,
        exec,
        class,
        profile_mode,
        show_title_bar,
    );
    lemma_launcher_lines(
        name,
        url,
        browser.name,
        icon,
        exec,
        class,
        profile_mode,
        show_title_bar,
    );
    law_exec_isolates(browser, codename, url, icon, profile);
    let content = desktop_file_content_spec(
        name,
        url,
        browser.name,
        icon,
        exec,
        class,
        profile_mode,
        show_title_bar,
    );
    let dl = desktop_lines(name, url, browser.name, icon, exec, class, profile_mode, show_title_bar);
    let ls = lines(content);
    assert(ls == dl);
    assert(dl[7] == "Icon="@ + icon);
    assert(trim(ls[6int + 1]) == ls[7]);
    assert(has_trimmed_line(ls, "Icon="@ + icon));
    let key = "X-WebApp-ShowTitleBar="@;
    assert(trim(ls[15int + 1]) == ls[16]);
    assert(ls[16] == key + crate::desktop::bool_value(show_title_bar));
    assert(ls[16].take(key.len() as int) =~= key);
    assert(starts_with(trim(ls[16]), key));
    assert(has_line_starting(ls, key));
}

/// A launcher that repair leaves alone is current: its class is the expected one, its
/// `Exec=` line is exactly the freshly built one and names that class, and its desktop
/// file has the absolute `Icon=` line and the title-bar key. So a launcher whose stored
/// `Exec=` line differs from the freshly built one in any way, or whose class differs,
/// is rewritten.
pub proof fn law_repair_rewrites_stale_launchers(
    app: DesktopEntryView,
    family: BrowserFamily,
    expected_class: Seq<char>,
    new_exec: Seq<char>,
    current: Seq<char>,
    icon_path: Seq<char>,
    seed_if_needed: bool,
)
    ensures
        app.exec_line != new_exec ==> repair_needs_fix_spec(
            app,
            family,
            expected_class,
            new_exec,
            current,
            icon_path,
            seed_if_needed,
        ),
        app.startup_wm_class != expected_class ==> repair_needs_fix_spec(
            app,
            family,
            expected_class,
            new_exec,
            current,
            icon_path,
            seed_if_needed,
        ),
        !repair_needs_fix_spec(
            app,
            family,
            expected_class,
            new_exec,
            current,
            icon_path,
            seed_if_needed,
        ) ==> {
            &&& app.exec_line == new_exec
            &&& app.startup_wm_class == expected_class
            &&& contains(new_exec, expected_class)
            &&& has_trimmed_line(lines(current), "Icon="@ + icon_path)
            &&& has_line_starting(lines(current), "X-WebApp-ShowTitleBar="@)
            &&& (family == BrowserFamily::Chromium ==> contains(app.exec_line, "--user-data-dir="@))
            &&& !(family == BrowserFamily::Firefox && app.profile_mode == ProfileMode::Shared
                && seed_if_needed)
        },
        ({
            &&& app.exec_line == new_exec
            &&& app.startup_wm_class == expected_class
            &&& contains(new_exec, expected_class)
            &&& has_trimmed_line(lines(current), "Icon="@ + icon_path)
            &&& has_line_starting(lines(current), "X-WebApp-ShowTitleBar="@)
            &&& (family == BrowserFamily::Chromium ==> contains(new_exec, "--user-data-dir="@))
            &&& !(family == BrowserFamily::Firefox && app.profile_mode == ProfileMode::Shared
                && seed_if_needed)
        }) ==> !repair_needs_fix_spec(
            app,
            family,
            expected_class,
            new_exec,
            current,
            icon_path,
            seed_if_needed,
        ),
{
}

/// What repairing one web app does once its launcher has been checked.
#[derive(Debug, Clone, Copy, PartialEq, Eq, Structural)]
pub enum RepairStep {
    /// Nothing to repair (the launcher has no URL): report no change.
    Skip,
    /// The launcher is current: report whether the Firefox app chrome was rewritten.
    Report(bool),
    /// Write the launcher again and report a change.
    Rewrite,
}

/// What repairing one web app does: a launcher without a URL is skipped; otherwise one
/// that needs fixing is written again, and a current one reports whether its Firefox app
/// chrome was rewritten (`chrome_fixed`).
pub open spec fn repair_step_spec(url_empty: bool, needs_fix: bool, chrome_fixed: bool) -> RepairStep {
    if url_empty {
        RepairStep::Skip
    } else if needs_fix {
        RepairStep::Rewrite
    } else {
        RepairStep::Report(chrome_fixed)
    }
}

/// What repairing one web app does (see `repair_step_spec`).
pub fn repair_step(url_empty: bool, needs_fix: bool, chrome_fixed: bool) -> (r: RepairStep)
    ensures
        r == repair_step_spec(url_empty, needs_fix, chrome_fixed),
{
    if url_empty {
        RepairStep::Skip
    } else if needs_fix {
        RepairStep::Rewrite
    } else {
        RepairStep::Report(chrome_fixed)
    }
}

/// Whether repairing a web app reports a change: a skipped launcher does not, a rewritten
/// one does, a current one when its app chrome was rewritten.
pub fn repair_changed(step: RepairStep) -> (r: bool)
    ensures
        r == match step {
            RepairStep::Skip => false,
            RepairStep::Report(b) => b,
            RepairStep::Rewrite => true,
        },
{
    match step {
        RepairStep::Skip => false,
        RepairStep::Report(b) => b,
        RepairStep::Rewrite => true,
    }
}

/// Sizes of the themed icons looked for when a launcher names a theme icon.
pub open spec fn theme_icon_rel(size: Seq<char>, icon_field: Seq<char>) -> Seq<char> {
    "icons/hicolor/"@ + size + "/apps/"@ + icon_field + ".png"@
}

/// Where the PNG of a web app may be, in search order, and the path used when none is a
/// file: the `Icon=` value itself (when not empty), the canonical icon path, then, for a
/// theme name (no `/`), the user's hicolor icons from 256 down to 16 pixels. `base` is the
/// user's data directory, if known.
pub open spec fn icon_candidates_spec(
    codename: Seq<char>,
    icon_field: Seq<char>,
    base: Option<Seq<char>>,
) -> (Seq<Seq<char>>, Seq<char>) {
    let direct = if icon_field.len() > 0 {
        seq![icon_field]
    } else {
        seq![]
    };
    match base {
        None => (direct, icon_field),
        Some(b) => {
            let canonical = icon_path_spec(b, codename);
            let themed = if icon_field.len() > 0 && !icon_field.contains('/') {
                seq![
                    path_join(b, theme_icon_rel("256x256"@, icon_field)),
                    path_join(b, theme_icon_rel("128x128"@, icon_field)),
                    path_join(b, theme_icon_rel("64x64"@, icon_field)),
                    path_join(b, theme_icon_rel("48x48"@, icon_field)),
                    path_join(b, theme_icon_rel("32x32"@, icon_field)),
                    path_join(b, theme_icon_rel("16x16"@, icon_field)),
                ]
            } else {
                seq![]
            };
            (direct + seq![canonical] + themed, canonical)
        },
    }
}

fn push_theme_icon(v: &mut Vec<String>, base: &str, size: &str, icon_field: &str)
    ensures
        views(final(v)@) == views(old(v)@).push(path_join(base@, theme_icon_rel(size@, icon_field@))),
{
    let mut rel = String::from_str("icons/hicolor/");
    rel.append(size);
    rel.append("/apps/");
    rel.append(icon_field);
    rel.append(".png");
    v.push(path_join_exec(base, rel.as_str()));
    assert(views(v@) =~= views(old(v)@).push(path_join(base@, theme_icon_rel(size@, icon_field@))));
}

/// Where the PNG of a web app may be (see `icon_candidates_spec`).
pub fn icon_file_candidates(codename: &str, icon_field: &str, base: Option<&str>) -> (r: (
    Vec<String>,
    String,
))
    ensures
        (views(r.0@), r.1@) == icon_candidates_spec(
            codename@,
            icon_field@,
            match base {
                Some(b) => Some(b@),
                None => None,
            },
        ),
{
    let field = chars_of(icon_field);
    let mut v: Vec<String> = Vec::new();
    if field.len() > 0 {
        v.push(String::from_str(icon_field));
    }
    match base {
        None => {
            assert(views(v@) =~= icon_candidates_spec(codename@, icon_field@, None).0);
            (v, String::from_str(icon_field))
        },
        Some(b) => {
            let canonical = icon_path_in(b, codename);
            v.push(canonical.clone());
            if field.len() > 0 && !has_char(&field, '/') {
                push_theme_icon(&mut v, b, "256x256", icon_field);
                push_theme_icon(&mut v, b, "128x128", icon_field);
                push_theme_icon(&mut v, b, "64x64", icon_field);
                push_theme_icon(&mut v, b, "48x48", icon_field);
                push_theme_icon(&mut v, b, "32x32", icon_field);
                push_theme_icon(&mut v, b, "16x16", icon_field);
            }
            assert(views(v@) =~= icon_candidates_spec(codename@, icon_field@, Some(b@)).0);
            (v, canonical)
        },
    }
}

} // verus!
