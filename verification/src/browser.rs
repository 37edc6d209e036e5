//! Browsers: families, profile modes, window classes and isolated launch commands.
use vstd::prelude::*;

use crate::paths::{
    chromium_profile_path_in, chromium_profile_path_spec, data_base, firefox_profile_path_in,
    firefox_profile_path_spec, PathError,
};
use crate::text::{
    ascii_lower, ascii_lower_chars, chars_of, contains, contains_chars, eq_chars, has_char,
    is_ascii_alnum, is_ascii_alnum_exec, matches_at, push_chars, slice_chars, string_of,
    trim_start_char,
};
use crate::weburl::{url_parse, UrlParts, UrlView};

verus! {

#[derive(Debug, Clone, Copy, PartialEq, Eq, Structural)]
pub enum BrowserFamily {
    Chromium,
    Firefox,
}

/// Whether a web app gets an empty private profile or one seeded from the browser.
///
/// Both modes launch with a private profile directory of their own, so that the web app
/// keeps its own process and dock icon; `Shared` copies the browser's logins, site data and
/// extensions into it.
#[derive(Debug, Clone, Copy, PartialEq, Eq, Structural)]
pub enum ProfileMode {
    Isolated,
    Shared,
}

/// The value stored as `X-WebApp-ProfileMode`.
pub open spec fn profile_mode_value(m: ProfileMode) -> Seq<char> {
    match m {
        ProfileMode::Isolated => "isolated"@,
        ProfileMode::Shared => "shared"@,
    }
}

/// The mode that `X-WebApp-ProfileMode` names, if any.
pub open spec fn profile_mode_from_value(raw: Seq<char>) -> Option<ProfileMode> {
    if raw == "isolated"@ {
        Some(ProfileMode::Isolated)
    } else if raw == "shared"@ {
        Some(ProfileMode::Shared)
    } else {
        None
    }
}

impl ProfileMode {
    pub fn is_isolated(&self) -> (r: bool)
        ensures
            r == (*self == ProfileMode::Isolated),
    {
        match self {
            ProfileMode::Isolated => true,
            ProfileMode::Shared => false,
        }
    }

    /// Whether the private profile is seeded from the browser's own profile.
    pub fn seeds_from_browser(&self) -> (r: bool)
        ensures
            r == (*self == ProfileMode::Shared),
    {
        match self {
            ProfileMode::Isolated => false,
            ProfileMode::Shared => true,
        }
    }

    /// Whether the web app runs with a profile directory owned by this manager (always).
    pub fn uses_private_profile(&self) -> (r: bool)
        ensures
            r,
    {
        true
    }

    pub fn as_desktop_value(&self) -> (r: &'static str)
        ensures
            r@ == profile_mode_value(*self),
    {
        match self {
            ProfileMode::Isolated => "isolated",
            ProfileMode::Shared => "shared",
        }
    }

    pub fn from_desktop_value(raw: &str) -> (r: Option<ProfileMode>)
        ensures
            r == profile_mode_from_value(raw@),
    {
        let v = chars_of(raw);
        let iso = chars_of("isolated");
        let sha = chars_of("shared");
        if eq_chars(&v, &iso) {
            Some(ProfileMode::Isolated)
        } else if eq_chars(&v, &sha) {
            Some(ProfileMode::Shared)
        } else {
            None
        }
    }
}

/// Reading back the stored value of a profile mode gives the mode.
pub proof fn law_profile_mode_value_roundtrip(m: ProfileMode)
    ensures
        profile_mode_from_value(profile_mode_value(m)) == Some(m),
{
    reveal_strlit("isolated");
    reveal_strlit("shared");
    assert("isolated"@ != "shared"@) by {
        assert("isolated"@.len() != "shared"@.len());
    }
}

#[derive(Debug, Clone)]
pub struct Browser {
    pub name: String,
    pub exec_path: String,
    pub family: BrowserFamily,
}

pub ghost struct BrowserView {
    pub name: Seq<char>,
    pub exec_path: Seq<char>,
    pub family: BrowserFamily,
}

impl View for Browser {
    type V = BrowserView;

    open spec fn view(&self) -> BrowserView {
        BrowserView { name: self.name@, exec_path: self.exec_path@, family: self.family }
    }
}

impl Browser {
    /// A copy of this browser entry.
    pub fn copy(&self) -> (r: Browser)
        ensures
            r@ == self@,
    {
        Browser { name: self.name.clone(), exec_path: self.exec_path.clone(), family: self.family }
    }
}

// ---------------------------------------------------------------------------
// Window classes
// ---------------------------------------------------------------------------

/// The lower-cased `"{exec_path} {name}"` that the product prefix is read from.
pub open spec fn prefix_key(b: BrowserView) -> Seq<char> {
    ascii_lower(b.exec_path) + " "@ + ascii_lower(b.name)
}

/// Short product prefix that Chromium embeds in its Wayland `app_id`.
pub open spec fn app_id_prefix_spec(b: BrowserView) -> Seq<char> {
    let path = ascii_lower(b.exec_path);
    let key = prefix_key(b);
    if contains(key, "brave"@) {
        "brave"@
    } else if contains(key, "msedge"@) || contains(key, "microsoft-edge"@) || contains(
        key,
        "edge"@,
    ) {
        if contains(key, "flatpak"@) || contains(path, "com.microsoft.edge"@) {
            "msedge"@
        } else {
            "microsoft-edge"@
        }
    } else if contains(key, "vivaldi"@) {
        "vivaldi"@
    } else if contains(key, "ungoogled"@) {
        "chromium"@
    } else if contains(key, "chromium"@) {
        "chromium"@
    } else if contains(key, "chrome"@) {
        "google-chrome"@
    } else {
        "chromium"@
    }
}

/// `{prefix}-{host}__{path, leading slashes dropped, other slashes as underscores}-Default`,
/// with host `app` and path `/` when the URL does not parse or has no host.
pub open spec fn wayland_app_id_spec(prefix: Seq<char>, parsed: Option<UrlView>) -> Seq<char> {
    let host = match parsed {
        Some(v) => match v.host {
            Some(h) => h,
            None => "app"@,
        },
        None => "app"@,
    };
    let path = match parsed {
        Some(v) => v.path,
        None => "/"@,
    };
    let path_part = trim_start_char(path, '/').map_values(
        |c: char|
            if c == '/' {
                '_'
            } else {
                c
            },
    );
    prefix + "-"@ + host + "__"@ + path_part + "-Default"@
}

pub open spec fn chromium_wayland_app_id_spec(b: BrowserView, page_url: Seq<char>) -> Seq<char> {
    wayland_app_id_spec(app_id_prefix_spec(b), url_parse(page_url))
}

/// Window class / `StartupWMClass` used for dock matching.
pub open spec fn window_class_spec(b: BrowserView, codename: Seq<char>, page_url: Seq<char>) -> Seq<
    char,
> {
    match b.family {
        BrowserFamily::Chromium => chromium_wayland_app_id_spec(b, page_url),
        BrowserFamily::Firefox => "WebApp-"@ + codename,
    }
}

/// Whether the lower-cased key names the literal `pat`.
fn key_has(key: &Vec<char>, pat: &str) -> (r: bool)
    ensures
        r == contains(key@, pat@),
{
    let p = chars_of(pat);
    contains_chars(key, &p)
}

/// Short product prefix Chromium embeds in Wayland `app_id`.
pub fn chromium_app_id_prefix(browser: &Browser) -> (r: &'static str)
    ensures
        r@ == app_id_prefix_spec(browser@),
{
    let path = ascii_lower_chars(&chars_of(browser.exec_path.as_str()));
    let name = ascii_lower_chars(&chars_of(browser.name.as_str()));
    let mut key = slice_chars(&path, 0, path.len());
    key.push(' ');
    proof {
        reveal_strlit(" ");
        assert(name@.take(0) =~= Seq::<char>::empty());
        assert(key@ =~= path@ + " "@ + name@.take(0));
    }
    let mut i: usize = 0;
    while i < name.len()
        invariant
            i <= name.len(),
            key@ == path@ + " "@ + name@.take(i as int),
        decreases name.len() - i,
    {
        proof {
            reveal_strlit(" ");
        }
        key.push(name[i]);
        i += 1;
        assert(name@.take(i as int) =~= name@.take(i - 1).push(name@[i - 1]));
    }
    proof {
        reveal_strlit(" ");
        assert(name@.take(name.len() as int) =~= name@);
        assert(key@ == prefix_key(browser@));
    }
    if key_has(&key, "brave") {
        "brave"
    } else if key_has(&key, "msedge") || key_has(&key, "microsoft-edge") || key_has(&key, "edge") {
        if key_has(&key, "flatpak") || key_has(&path, "com.microsoft.edge") {
            "msedge"
        } else {
            "microsoft-edge"
        }
    } else if key_has(&key, "vivaldi") {
        "vivaldi"
    } else if key_has(&key, "ungoogled") {
        "chromium"
    } else if key_has(&key, "chromium") {
        "chromium"
    } else if key_has(&key, "chrome") {
        "google-chrome"
    } else {
        "chromium"
    }
}

/// The path of a URL with leading slashes dropped and the other slashes turned into
/// underscores.
fn underscored_path(path: &Vec<char>) -> (r: Vec<char>)
    ensures
        r@ == trim_start_char(path@, '/').map_values(
            |c: char|
                if c == '/' {
                    '_'
                } else {
                    c
                },
        ),
{
    let mut a: usize = 0;
    assert(path@.skip(0) =~= path@);
    while a < path.len() && path[a] == '/'
        invariant
            a <= path.len(),
            trim_start_char(path@, '/') == trim_start_char(path@.skip(a as int), '/'),
        decreases path.len() - a,
    {
        proof {
            let t = path@.skip(a as int);
            assert(t.drop_first() =~= path@.skip(a + 1));
        }
        a += 1;
    }
    let ghost t = path@.skip(a as int);
    assert(trim_start_char(t, '/') == t);
    let mut r: Vec<char> = Vec::new();
    let mut i = a;
    while i < path.len()
        invariant
            a <= i <= path.len(),
            t == path@.skip(a as int),
            r@ =~= t.take(i - a).map_values(
                |c: char|
                    if c == '/' {
                        '_'
                    } else {
                        c
                    },
            ),
        decreases path.len() - i,
    {
        let c = path[i];
        if c == '/' {
            r.push('_');
        } else {
            r.push(c);
        }
        i += 1;
        assert(t.take(i - a) =~= t.take(i - a - 1).push(c));
    }
    assert(t.take(path.len() - a) =~= t);
    r
}

/// The Wayland `app_id` from a product prefix and the parsed page URL (if it parsed).
pub fn wayland_app_id_from(prefix: &str, parsed: &Option<UrlParts>) -> (r: String)
    ensures
        r@ == wayland_app_id_spec(
            prefix@,
            match parsed {
                Some(u) => Some(u@),
                None => None,
            },
        ),
{
    let host: &str = match parsed {
        Some(u) => match u.host_str() {
            Some(h) => h,
            None => "app",
        },
        None => "app",
    };
    let path: &str = match parsed {
        Some(u) => u.path(),
        None => "/",
    };
    let part = underscored_path(&chars_of(path));
    let mut r = String::from_str(prefix);
    r.append("-");
    r.append(host);
    r.append("__");
    push_chars(&mut r, &part);
    r.append("-Default");
    r
}

/// Chromium-on-Wayland ignores `--class` and sets the xdg-shell `app_id` to
/// `{prefix}-{host}__{path_with_slashes_as_underscores}-Default`, e.g. Brave +
/// `https://www.youtube.com/` gives `brave-www.youtube.com__-Default`. Docks match windows
/// through `StartupWMClass`, so it must equal this value.
pub fn chromium_wayland_app_id(browser: &Browser, page_url: &str) -> (r: String)
    ensures
        r@ == chromium_wayland_app_id_spec(browser@, page_url@),
{
    let prefix = chromium_app_id_prefix(browser);
    let parsed = UrlParts::parse(page_url);
    wayland_app_id_from(prefix, &parsed)
}

/// Window class / `StartupWMClass` for dock matching.
pub fn window_class(browser: &Browser, codename: &str, page_url: &str) -> (r: String)
    ensures
        r@ == window_class_spec(browser@, codename@, page_url@),
{
    match browser.family {
        BrowserFamily::Chromium => chromium_wayland_app_id(browser, page_url),
        BrowserFamily::Firefox => {
            let mut r = String::from_str("WebApp-");
            r.append(codename);
            r
        },
    }
}

// ---------------------------------------------------------------------------
// Launch commands
// ---------------------------------------------------------------------------

/// Characters that need no quoting besides ASCII letters and digits.
pub const SHELL_SAFE: &'static str = "-_./:@?&=+%#";

pub open spec fn is_shell_safe(c: char) -> bool {
    is_ascii_alnum(c) || SHELL_SAFE@.contains(c)
}

/// One character inside double quotes: `"` and `$` get a backslash.
pub open spec fn quote_char(c: char) -> Seq<char> {
    if c == '"' {
        seq!['\\', '"']
    } else if c == '$' {
        seq!['\\', '$']
    } else {
        seq![c]
    }
}

pub open spec fn quote_body(s: Seq<char>) -> Seq<char>
    decreases s.len(),
{
    if s.len() == 0 {
        seq![]
    } else {
        quote_body(s.drop_last()) + quote_char(s.last())
    }
}

/// Quote a value for use inside a desktop `Exec=` key / shell: `""` when empty, unchanged
/// when every character is safe, else in double quotes with `"` and `$` escaped.
pub open spec fn shell_quote_spec(s: Seq<char>) -> Seq<char> {
    if s.len() == 0 {
        seq!['"', '"']
    } else if forall|i: int| 0 <= i < s.len() ==> is_shell_safe(#[trigger] s[i]) {
        s
    } else {
        seq!['"'] + quote_body(s) + seq!['"']
    }
}

/// Quote a value for use inside a desktop `Exec=` key / shell.
pub fn shell_quote(s: &str) -> (r: String)
    ensures
        r@ == shell_quote_spec(s@),
{
    let v = chars_of(s);
    if v.len() == 0 {
        let mut r = String::new();
        r.push('"');
        r.push('"');
        assert(r@ =~= seq!['"', '"']);
        return r;
    }
    let safe = chars_of(SHELL_SAFE);
    let mut all_safe = true;
    let mut i: usize = 0;
    while i < v.len()
        invariant
            i <= v.len(),
            safe@ == SHELL_SAFE@,
            all_safe == forall|j: int| 0 <= j < i ==> is_shell_safe(#[trigger] v@[j]),
        decreases v.len() - i,
    {
        let ok = is_ascii_alnum_exec(v[i]) || has_char(&safe, v[i]);
        if !ok {
            all_safe = false;
        }
        i += 1;
        assert(all_safe == forall|j: int| 0 <= j < i ==> is_shell_safe(#[trigger] v@[j])) by {
            if !ok {
                assert(!is_shell_safe(v@[i - 1]));
            }
        }
    }
    if all_safe {
        return string_of(&v);
    }
    let mut r = String::new();
    r.push('"');
    let mut k: usize = 0;
    while k < v.len()
        invariant
            k <= v.len(),
            r@ == seq!['"'] + quote_body(v@.take(k as int)),
        decreases v.len() - k,
    {
        let c = v[k];
        if c == '"' {
            r.push('\\');
            r.push('"');
        } else if c == '$' {
            r.push('\\');
            r.push('$');
        } else {
            r.push(c);
        }
        k += 1;
        proof {
            assert(v@.take(k as int).drop_last() =~= v@.take(k - 1));
            assert(r@ =~= seq!['"'] + quote_body(v@.take(k as int)));
        }
    }
    r.push('"');
    assert(v@.take(v.len() as int) =~= v@);
    r
}

proof fn lemma_quote_body_plain(s: Seq<char>)
    requires
        !s.contains('"'),
        !s.contains('$'),
    ensures
        quote_body(s) == s,
    decreases s.len(),
{
    if s.len() > 0 {
        let d = s.drop_last();
        assert(!d.contains('"') && !d.contains('$')) by {
            assert forall|c: char| #[trigger] d.contains(c) implies s.contains(c) by {
                let j = choose|j: int| 0 <= j < d.len() && d[j] == c;
                assert(s[j] == c);
            }
        }
        lemma_quote_body_plain(d);
        assert(s.last() == s[s.len() - 1]);
        assert(d.push(s.last()) =~= s);
    }
}

/// A value without `"` or `$` occurs in its quoted form.
pub proof fn lemma_quoted_contains(s: Seq<char>)
    requires
        !s.contains('"'),
        !s.contains('$'),
    ensures
        contains(shell_quote_spec(s), s),
{
    let q = shell_quote_spec(s);
    if s.len() == 0 {
        assert(q.subrange(0, 0) =~= s);
        assert(matches_at(q, s, 0));
    } else if forall|i: int| 0 <= i < s.len() ==> is_shell_safe(#[trigger] s[i]) {
        assert(q.subrange(0, s.len() as int) =~= s);
        assert(matches_at(q, s, 0));
    } else {
        lemma_quote_body_plain(s);
        crate::text::lemma_contains_middle(seq!['"'], s, seq!['"']);
    }
}

/// The `Exec=` line of a web app whose private profile lives at `profile`.
pub open spec fn exec_line_spec(
    b: BrowserView,
    codename: Seq<char>,
    page_url: Seq<char>,
    icon_path: Seq<char>,
    profile: Seq<char>,
) -> Seq<char> {
    let class_q = shell_quote_spec(window_class_spec(b, codename, page_url));
    let exec_q = shell_quote_spec(b.exec_path);
    let url_q = shell_quote_spec(page_url);
    let icon_q = shell_quote_spec(icon_path);
    let profile_q = shell_quote_spec(profile);
    match b.family {
        BrowserFamily::Chromium => exec_q + " --app="@ + url_q + " --class="@ + class_q
            + " --name="@ + class_q + " --user-data-dir="@ + profile_q,
        BrowserFamily::Firefox => "sh -c 'XAPP_FORCE_GTKWINDOW_ICON="@ + icon_q + " "@ + exec_q
            + " --class "@ + class_q + " --name "@ + class_q + " --profile "@ + profile_q
            + " --no-remote "@ + url_q + "'"@,
    }
}

/// The private profile directory of `codename` for a browser family.
pub open spec fn profile_path_spec(family: BrowserFamily, base: Seq<char>, codename: Seq<char>) -> Seq<
    char,
> {
    match family {
        BrowserFamily::Chromium => chromium_profile_path_spec(base, codename),
        BrowserFamily::Firefox => firefox_profile_path_spec(base, codename),
    }
}

/// The `Exec=` line for a `.desktop` file, given the private profile directory.
///
/// Chromium-family browsers run in app mode with their own `--user-data-dir`; Firefox
/// runs with a dedicated `--profile` and `--no-remote`, wrapped in `sh -c` so that the
/// window icon can be forced.
pub fn exec_line(
    browser: &Browser,
    codename: &str,
    url: &str,
    icon_path: &str,
    profile: &str,
) -> (r: String)
    ensures
        r@ == exec_line_spec(browser@, codename@, url@, icon_path@, profile@),
{
    let class = window_class(browser, codename, url);
    let exec_q = shell_quote(browser.exec_path.as_str());
    let url_q = shell_quote(url);
    let icon_q = shell_quote(icon_path);
    let class_q = shell_quote(class.as_str());
    let profile_q = shell_quote(profile);
    match browser.family {
        BrowserFamily::Chromium => {
            let mut r = exec_q;
            r.append(" --app=");
            r.append(url_q.as_str());
            r.append(" --class=");
            r.append(class_q.as_str());
            r.append(" --name=");
            r.append(class_q.as_str());
            r.append(" --user-data-dir=");
            r.append(profile_q.as_str());
            r
        },
        BrowserFamily::Firefox => {
            let mut r = String::from_str("sh -c 'XAPP_FORCE_GTKWINDOW_ICON=");
            r.append(icon_q.as_str());
            r.append(" ");
            r.append(exec_q.as_str());
            r.append(" --class ");
            r.append(class_q.as_str());
            r.append(" --name ");
            r.append(class_q.as_str());
            r.append(" --profile ");
            r.append(profile_q.as_str());
            r.append(" --no-remote ");
            r.append(url_q.as_str());
            r.append("'");
            r
        },
    }
}

/// The private profile directory of `codename` under the data directory `base`.
pub fn profile_path_in(family: BrowserFamily, base: &str, codename: &str) -> (r: String)
    ensures
        r@ == profile_path_spec(family, base@, codename@),
{
    match family {
        BrowserFamily::Chromium => chromium_profile_path_in(base, codename),
        BrowserFamily::Firefox => firefox_profile_path_in(base, codename),
    }
}

/// Build the `Exec=` line for a `.desktop` file; the private profile lies under the
/// user's data directory.
pub fn build_exec(browser: &Browser, codename: &str, url: &str, icon_path: &str) -> (r: Result<
    String,
    PathError,
>)
    ensures
        r matches Ok(s) ==> exists|base: Seq<char>|
            crate::paths::is_xdg_data_base(base) && s@ == exec_line_spec(
                browser@,
                codename@,
                url@,
                icon_path@,
                profile_path_spec(browser.family, base, codename@),
            ),
{
    let base = data_base()?;
    let profile = profile_path_in(browser.family, base.as_str(), codename);
    Ok(exec_line(browser, codename, url, icon_path, profile.as_str()))
}

} // verus!
