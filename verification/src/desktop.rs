//! The XDG `.desktop` launcher of a managed web app: its text, how it is read back, and
//! the list of managed launchers.
use vstd::prelude::*;

use crate::browser::{profile_mode_from_value, profile_mode_value, ProfileMode};
use crate::paths::{
    desktop_file_name_spec, is_manager_tag, is_manager_tag_spec, DESKTOP_PREFIX, DESKTOP_SUFFIX,
    MANAGER_TAG,
};
use crate::text::{
    is_ws, ascii_lower, ascii_lower_chars, chars_of, ends_with, ends_with_chars, eq_chars,
    first_index, first_index_exec, lines, lines_chars, slice_chars, split_once, starts_with,
    starts_with_chars, string_of, terminated, terminated_string, trim, trim_chars, trim_end,
    trim_start, vec_views, views,
};

verus! {

#[derive(Debug, Clone)]
pub struct DesktopEntry {
    pub path: String,
    pub codename: String,
    pub name: String,
    pub url: String,
    pub browser: String,
    pub icon: String,
    /// The `Exec=` line.
    pub exec_line: String,
    pub startup_wm_class: String,
    pub profile_mode: ProfileMode,
    /// When false (default), Firefox web apps hide the window title bar (frameless).
    /// Chromium `--app` windows always use the browser's app chrome; the flag is stored
    /// for consistency.
    pub show_title_bar: bool,
}

pub ghost struct DesktopEntryView {
    pub path: Seq<char>,
    pub codename: Seq<char>,
    pub name: Seq<char>,
    pub url: Seq<char>,
    pub browser: Seq<char>,
    pub icon: Seq<char>,
    pub exec_line: Seq<char>,
    pub startup_wm_class: Seq<char>,
    pub profile_mode: ProfileMode,
    pub show_title_bar: bool,
}

impl View for DesktopEntry {
    type V = DesktopEntryView;

    open spec fn view(&self) -> DesktopEntryView {
        DesktopEntryView {
            path: self.path@,
            codename: self.codename@,
            name: self.name@,
            url: self.url@,
            browser: self.browser@,
            icon: self.icon@,
            exec_line: self.exec_line@,
            startup_wm_class: self.startup_wm_class@,
            profile_mode: self.profile_mode,
            show_title_bar: self.show_title_bar,
        }
    }
}

// ---------------------------------------------------------------------------
// Writing
// ---------------------------------------------------------------------------

/// One character of a desktop-entry value: backslashes doubled, newlines as `\n`, carriage
/// returns dropped.
pub open spec fn escape_char(c: char) -> Seq<char> {
    if c == '\\' {
        seq!['\\', '\\']
    } else if c == '\n' {
        seq!['\\', 'n']
    } else if c == '\r' {
        seq![]
    } else {
        seq![c]
    }
}

/// Escape a value for a desktop-entry key (no newlines).
pub open spec fn escape_value_spec(s: Seq<char>) -> Seq<char>
    decreases s.len(),
{
    if s.len() == 0 {
        seq![]
    } else {
        escape_value_spec(s.drop_last()) + escape_char(s.last())
    }
}

/// Escape a value for a desktop-entry key (no newlines).
pub fn escape_value(s: &str) -> (r: String)
    ensures
        r@ == escape_value_spec(s@),
{
    let v = chars_of(s);
    let mut r = String::new();
    let mut i: usize = 0;
    while i < v.len()
        invariant
            i <= v.len(),
            r@ == escape_value_spec(v@.take(i as int)),
        decreases v.len() - i,
    {
        let c = v[i];
        if c == '\\' {
            r.push('\\');
            r.push('\\');
        } else if c == '\n' {
            r.push('\\');
            r.push('n');
        } else if c == '\r' {
        } else {
            r.push(c);
        }
        i += 1;
        proof {
            assert(v@.take(i as int).drop_last() =~= v@.take(i - 1));
            assert(r@ =~= escape_value_spec(v@.take(i as int)));
        }
    }
    assert(v@.take(v.len() as int) =~= v@);
    r
}

pub open spec fn bool_value(b: bool) -> Seq<char> {
    if b {
        "true"@
    } else {
        "false"@
    }
}

/// The lines of the launcher of a web app.
pub open spec fn desktop_lines(
    name: Seq<char>,
    url: Seq<char>,
    browser_name: Seq<char>,
    icon: Seq<char>,
    exec_line: Seq<char>,
    window_class: Seq<char>,
    profile_mode: ProfileMode,
    show_title_bar: bool,
) -> Seq<Seq<char>> {
    seq![
        "[Desktop Entry]"@,
        "Version=1.0"@,
        "Type=Application"@,
        "Name="@ + escape_value_spec(name),
        "Comment=Web App"@,
        "Exec="@ + exec_line,
        "Terminal=false"@,
        "Icon="@ + escape_value_spec(icon),
        "StartupWMClass="@ + escape_value_spec(window_class),
        "StartupNotify=true"@,
        "Categories=Network;WebBrowser;"@,
        "X-WebApp-Manager="@ + MANAGER_TAG@,
        "X-WebApp-URL="@ + escape_value_spec(url),
        "X-WebApp-Browser="@ + escape_value_spec(browser_name),
        "X-WebApp-Isolated="@ + bool_value(profile_mode == ProfileMode::Isolated),
        "X-WebApp-ProfileMode="@ + profile_mode_value(profile_mode),
        "X-WebApp-ShowTitleBar="@ + bool_value(show_title_bar),
    ]
}

/// The text of the launcher of a web app: its lines, each ended by a newline. The `Exec=`
/// line is written as given; the other values are escaped.
pub open spec fn desktop_file_content_spec(
    name: Seq<char>,
    url: Seq<char>,
    browser_name: Seq<char>,
    icon: Seq<char>,
    exec_line: Seq<char>,
    window_class: Seq<char>,
    profile_mode: ProfileMode,
    show_title_bar: bool,
) -> Seq<char> {
    terminated(
        desktop_lines(
            name,
            url,
            browser_name,
            icon,
            exec_line,
            window_class,
            profile_mode,
            show_title_bar,
        ),
    )
}

fn key_value(key: &str, value: &str) -> (r: String)
    ensures
        r@ == key@ + value@,
{
    let mut r = String::from_str(key);
    r.append(value);
    r
}

fn bool_text(b: bool) -> (r: &'static str)
    ensures
        r@ == bool_value(b),
{
    if b {
        "true"
    } else {
        "false"
    }
}

/// The text of the launcher of a web app.
pub fn desktop_file_content(
    name: &str,
    url: &str,
    browser_name: &str,
    icon: &str,
    exec_line: &str,
    window_class: &str,
    profile_mode: ProfileMode,
    show_title_bar: bool,
) -> (r: String)
    ensures
        r@ == desktop_file_content_spec(
            name@,
            url@,
            browser_name@,
            icon@,
            exec_line@,
            window_class@,
            profile_mode,
            show_title_bar,
        ),
{
    let mut ls: Vec<String> = Vec::new();
    ls.push(String::from_str("[Desktop Entry]"));
    ls.push(String::from_str("Version=1.0"));
    ls.push(String::from_str("Type=Application"));
    ls.push(key_value("Name=", escape_value(name).as_str()));
    ls.push(String::from_str("Comment=Web App"));
    ls.push(key_value("Exec=", exec_line));
    ls.push(String::from_str("Terminal=false"));
    ls.push(key_value("Icon=", escape_value(icon).as_str()));
    ls.push(key_value("StartupWMClass=", escape_value(window_class).as_str()));
    ls.push(String::from_str("StartupNotify=true"));
    ls.push(String::from_str("Categories=Network;WebBrowser;"));
    ls.push(key_value("X-WebApp-Manager=", MANAGER_TAG));
    ls.push(key_value("X-WebApp-URL=", escape_value(url).as_str()));
    ls.push(key_value("X-WebApp-Browser=", escape_value(browser_name).as_str()));
    ls.push(key_value("X-WebApp-Isolated=", bool_text(profile_mode.is_isolated())));
    ls.push(key_value("X-WebApp-ProfileMode=", profile_mode.as_desktop_value()));
    ls.push(key_value("X-WebApp-ShowTitleBar=", bool_text(show_title_bar)));
    assert(views(ls@) =~= desktop_lines(
        name@,
        url@,
        browser_name@,
        icon@,
        exec_line@,
        window_class@,
        profile_mode,
        show_title_bar,
    ));
    terminated_string(&ls)
}

// ---------------------------------------------------------------------------
// Reading
// ---------------------------------------------------------------------------

/// The key and value of a line, if it is a `key=value` entry: blank lines, comments and
/// group headers are not; the line is trimmed and split at its first `=`.
pub open spec fn entry_kv(raw: Seq<char>) -> Option<(Seq<char>, Seq<char>)> {
    let line = trim(raw);
    if line.len() == 0 || line[0] == '#' || line[0] == '[' {
        None
    } else {
        split_once(line, '=')
    }
}

/// The value of the last entry for `key` among the lines `ls`.
pub open spec fn last_value(ls: Seq<Seq<char>>, key: Seq<char>) -> Option<Seq<char>>
    decreases ls.len(),
{
    if ls.len() == 0 {
        None
    } else {
        match entry_kv(ls.last()) {
            Some((k, v)) => if k == key {
                Some(v)
            } else {
                last_value(ls.drop_last(), key)
            },
            None => last_value(ls.drop_last(), key),
        }
    }
}

/// The codename in a launcher file name `webapp-{codename}.desktop`.
pub open spec fn codename_of_file_name(f: Seq<char>) -> Option<Seq<char>> {
    if starts_with(f, DESKTOP_PREFIX@) {
        let rest = f.skip(DESKTOP_PREFIX@.len() as int);
        if ends_with(rest, DESKTOP_SUFFIX@) {
            Some(rest.take(rest.len() - DESKTOP_SUFFIX@.len()))
        } else {
            None
        }
    } else {
        None
    }
}

/// Why a launcher was not read as a managed web app.
#[derive(Debug, Clone)]
pub enum DesktopError {
    /// No `X-WebApp-Manager` key.
    MissingManager,
    /// `X-WebApp-Manager` names another manager.
    NotManaged(String),
    /// The file name is not valid Unicode.
    BadFileName,
    /// The file name is not `webapp-{codename}.desktop`.
    UnexpectedFileName,
    /// No `Name` key.
    MissingName,
}

pub ghost enum DesktopErrorView {
    MissingManager,
    NotManaged(Seq<char>),
    BadFileName,
    UnexpectedFileName,
    MissingName,
}

impl View for DesktopError {
    type V = DesktopErrorView;

    open spec fn view(&self) -> DesktopErrorView {
        match self {
            DesktopError::MissingManager => DesktopErrorView::MissingManager,
            DesktopError::NotManaged(t) => DesktopErrorView::NotManaged(t@),
            DesktopError::BadFileName => DesktopErrorView::BadFileName,
            DesktopError::UnexpectedFileName => DesktopErrorView::UnexpectedFileName,
            DesktopError::MissingName => DesktopErrorView::MissingName,
        }
    }
}

/// The profile mode a launcher records: `X-WebApp-ProfileMode` when present (an unknown
/// value means isolated), else shared when the older `X-WebApp-Isolated` is `false`, else
/// isolated (older launchers always used isolated profiles).
pub open spec fn stored_profile_mode(ls: Seq<Seq<char>>) -> ProfileMode {
    match last_value(ls, "X-WebApp-ProfileMode"@) {
        Some(raw) => match profile_mode_from_value(raw) {
            Some(m) => m,
            None => ProfileMode::Isolated,
        },
        None => if last_value(ls, "X-WebApp-Isolated"@) == Some("false"@) {
            ProfileMode::Shared
        } else {
            ProfileMode::Isolated
        },
    }
}

/// Whether a launcher asks for the native title bar: only `true` (any ASCII case) or `1`
/// does; a missing key means frameless.
pub open spec fn stored_show_title_bar(ls: Seq<Seq<char>>) -> bool {
    match last_value(ls, "X-WebApp-ShowTitleBar"@) {
        Some(v) => ascii_lower(v) == ascii_lower("true"@) || v == "1"@,
        None => false,
    }
}

pub open spec fn or_empty(o: Option<Seq<char>>) -> Seq<char> {
    match o {
        Some(v) => v,
        None => seq![],
    }
}

/// A launcher read back: the text `text` of the file at `path`, whose file name is
/// `file_name` (`None` when it is not valid Unicode).
pub open spec fn parse_desktop_spec(
    path: Seq<char>,
    file_name: Option<Seq<char>>,
    text: Seq<char>,
) -> Result<DesktopEntryView, DesktopErrorView> {
    let ls = lines(text);
    match last_value(ls, "X-WebApp-Manager"@) {
        None => Err(DesktopErrorView::MissingManager),
        Some(tag) => if !is_manager_tag_spec(tag) {
            Err(DesktopErrorView::NotManaged(tag))
        } else {
            match file_name {
                None => Err(DesktopErrorView::BadFileName),
                Some(f) => match codename_of_file_name(f) {
                    None => Err(DesktopErrorView::UnexpectedFileName),
                    Some(codename) => match last_value(ls, "Name"@) {
                        None => Err(DesktopErrorView::MissingName),
                        Some(name) => Ok(
                            DesktopEntryView {
                                path,
                                codename,
                                name,
                                url: or_empty(last_value(ls, "X-WebApp-URL"@)),
                                browser: or_empty(last_value(ls, "X-WebApp-Browser"@)),
                                icon: or_empty(last_value(ls, "Icon"@)),
                                exec_line: or_empty(last_value(ls, "Exec"@)),
                                startup_wm_class: or_empty(last_value(ls, "StartupWMClass"@)),
                                profile_mode: stored_profile_mode(ls),
                                show_title_bar: stored_show_title_bar(ls),
                            },
                        ),
                    },
                },
            }
        },
    }
}

pub open spec fn result_view(r: Result<DesktopEntry, DesktopError>) -> Result<
    DesktopEntryView,
    DesktopErrorView,
> {
    match r {
        Ok(e) => Ok(e@),
        Err(e) => Err(e@),
    }
}

/// The keys that a launcher is read for, in the order of `parse_desktop_entry`'s table.
pub open spec fn desktop_keys() -> Seq<Seq<char>> {
    seq![
        "Name"@,
        "Icon"@,
        "Exec"@,
        "StartupWMClass"@,
        "X-WebApp-URL"@,
        "X-WebApp-Browser"@,
        "X-WebApp-Manager"@,
        "X-WebApp-ProfileMode"@,
        "X-WebApp-Isolated"@,
        "X-WebApp-ShowTitleBar"@,
    ]
}

fn desktop_key_table() -> (r: Vec<Vec<char>>)
    ensures
        vec_views(r@) == desktop_keys(),
{
    let mut r: Vec<Vec<char>> = Vec::new();
    r.push(chars_of("Name"));
    r.push(chars_of("Icon"));
    r.push(chars_of("Exec"));
    r.push(chars_of("StartupWMClass"));
    r.push(chars_of("X-WebApp-URL"));
    r.push(chars_of("X-WebApp-Browser"));
    r.push(chars_of("X-WebApp-Manager"));
    r.push(chars_of("X-WebApp-ProfileMode"));
    r.push(chars_of("X-WebApp-Isolated"));
    r.push(chars_of("X-WebApp-ShowTitleBar"));
    assert(vec_views(r@) =~= desktop_keys());
    r
}

/// The key and value of a line, if it is a `key=value` entry.
fn line_entry(raw: &Vec<char>) -> (r: Option<(Vec<char>, Vec<char>)>)
    ensures
        match r {
            Some((k, v)) => entry_kv(raw@) == Some((k@, v@)),
            None => entry_kv(raw@) is None,
        },
{
    let line = trim_chars(raw);
    if line.len() == 0 || line[0] == '#' || line[0] == '[' {
        return None;
    }
    let k = first_index_exec(&line, 0, '=');
    assert(line@.skip(0) =~= line@);
    if k >= line.len() {
        return None;
    }
    let key = slice_chars(&line, 0, k);
    let value = slice_chars(&line, k + 1, line.len());
    assert(key@ =~= line@.take(k as int));
    assert(value@ =~= line@.skip(k + 1));
    Some((key, value))
}

pub open spec fn opt_vec_view(o: Option<Vec<char>>) -> Option<Seq<char>> {
    match o {
        Some(v) => Some(v@),
        None => None,
    }
}

fn opt_string(o: &Option<Vec<char>>) -> (r: String)
    ensures
        r@ == or_empty(opt_vec_view(*o)),
{
    match o {
        Some(v) => string_of(v),
        None => String::new(),
    }
}

/// The codename in a launcher file name `webapp-{codename}.desktop`.
pub fn codename_from_file_name(file_name: &str) -> (r: Option<String>)
    ensures
        match r {
            Some(c) => codename_of_file_name(file_name@) == Some(c@),
            None => codename_of_file_name(file_name@) is None,
        },
{
    let f = chars_of(file_name);
    let p = chars_of(DESKTOP_PREFIX);
    let s = chars_of(DESKTOP_SUFFIX);
    if !starts_with_chars(&f, &p) {
        return None;
    }
    let rest = slice_chars(&f, p.len(), f.len());
    assert(rest@ =~= f@.skip(DESKTOP_PREFIX@.len() as int));
    if !ends_with_chars(&rest, &s) {
        return None;
    }
    let c = slice_chars(&rest, 0, rest.len() - s.len());
    assert(c@ =~= rest@.take(rest.len() - DESKTOP_SUFFIX@.len()));
    Some(string_of(&c))
}

/// Whether a file name has the shape of a managed launcher (`webapp-*.desktop`).
pub open spec fn is_managed_file_name_spec(name: Seq<char>) -> bool {
    starts_with(name, DESKTOP_PREFIX@) && ends_with(name, DESKTOP_SUFFIX@)
}

/// Whether a file name has the shape of a managed launcher (`webapp-*.desktop`).
pub fn is_managed_file_name(name: &str) -> (r: bool)
    ensures
        r == is_managed_file_name_spec(name@),
{
    let f = chars_of(name);
    starts_with_chars(&f, &chars_of(DESKTOP_PREFIX)) && ends_with_chars(&f, &chars_of(DESKTOP_SUFFIX))
}

/// Reads a launcher: `text` is the content of the file at `path`, whose file name is
/// `file_name` (`None` when it is not valid Unicode).
pub fn parse_desktop_entry(path: &str, file_name: Option<&str>, text: &str) -> (r: Result<
    DesktopEntry,
    DesktopError,
>)
    ensures
        result_view(r) == parse_desktop_spec(
            path@,
            match file_name {
                Some(f) => Some(f@),
                None => None,
            },
            text@,
        ),
{
    let ls = lines_chars(&chars_of(text));
    let ghost all = vec_views(ls@);
    let keys = desktop_key_table();
    let mut vals: Vec<Option<Vec<char>>> = Vec::new();
    let mut j: usize = 0;
    while j < keys.len()
        invariant
            j <= keys.len(),
            vals.len() == j,
            forall|m: int| 0 <= m < j ==> (#[trigger] vals@[m]) is None,
        decreases keys.len() - j,
    {
        vals.push(None);
        j += 1;
    }
    let mut i: usize = 0;
    while i < ls.len()
        invariant
            i <= ls.len(),
            all == vec_views(ls@),
            vec_views(keys@) == desktop_keys(),
            vals.len() == keys.len(),
            forall|m: int|
                0 <= m < keys.len() ==> opt_vec_view(#[trigger] vals@[m]) == last_value(
                    all.take(i as int),
                    keys@[m]@,
                ),
        decreases ls.len() - i,
    {
        let entry = line_entry(&ls[i]);
        let ghost before = vals@;
        proof {
            assert(all.take(i + 1).drop_last() =~= all.take(i as int));
            assert(all.take(i + 1).last() == ls@[i as int]@);
        }
        match entry {
            Some((k, v)) => {
                let mut m: usize = 0;
                while m < keys.len()
                    invariant
                        m <= keys.len(),
                        vals.len() == keys.len(),
                        before.len() == keys.len(),
                        entry_kv(all.take(i + 1).last()) == Some((k@, v@)),
                        forall|q: int|
                            0 <= q < m ==> opt_vec_view(#[trigger] vals@[q]) == (if k@
                                == keys@[q]@ {
                                Some(v@)
                            } else {
                                opt_vec_view(before[q])
                            }),
                        forall|q: int| m <= q < keys.len() ==> #[trigger] vals@[q] == before[q],
                    decreases keys.len() - m,
                {
                    if eq_chars(&k, &keys[m]) {
                        vals.set(m, Some(slice_chars(&v, 0, v.len())));
                    }
                    m += 1;
                }
            },
            None => {},
        }
        i += 1;
    }
    assert(all.take(ls.len() as int) =~= all);
    assert(all == lines(text@));
    proof {
        assert(vec_views(keys@).len() == keys@.len());
        assert(desktop_keys().len() == 10);
        assert(keys.len() == 10);
        assert forall|m: int| 0 <= m < 10 implies keys@[m]@ == desktop_keys()[m] by {
            assert(vec_views(keys@)[m] == keys@[m]@);
        }
        assert(keys@[0]@ == "Name"@);
        assert(keys@[1]@ == "Icon"@);
        assert(keys@[2]@ == "Exec"@);
        assert(keys@[3]@ == "StartupWMClass"@);
        assert(keys@[4]@ == "X-WebApp-URL"@);
        assert(keys@[5]@ == "X-WebApp-Browser"@);
        assert(keys@[6]@ == "X-WebApp-Manager"@);
        assert(keys@[7]@ == "X-WebApp-ProfileMode"@);
        assert(keys@[8]@ == "X-WebApp-Isolated"@);
        assert(keys@[9]@ == "X-WebApp-ShowTitleBar"@);
    }
    let manager = match &vals[6] {
        None => {
            return Err(DesktopError::MissingManager);
        },
        Some(t) => string_of(t),
    };
    if !is_manager_tag(manager.as_str()) {
        return Err(DesktopError::NotManaged(manager));
    }
    let profile_mode = match &vals[7] {
        Some(raw) => match ProfileMode::from_desktop_value(string_of(raw).as_str()) {
            Some(m) => m,
            None => ProfileMode::Isolated,
        },
        None => match &vals[8] {
            Some(iso) => if eq_chars(iso, &chars_of("false")) {
                ProfileMode::Shared
            } else {
                ProfileMode::Isolated
            },
            None => ProfileMode::Isolated,
        },
    };
    let show_title_bar = match &vals[9] {
        Some(v) => eq_chars(&ascii_lower_chars(v), &ascii_lower_chars(&chars_of("true")))
            || eq_chars(v, &chars_of("1")),
        None => false,
    };
    let f = match file_name {
        Some(f) => f,
        None => {
            return Err(DesktopError::BadFileName);
        },
    };
    let codename = match codename_from_file_name(f) {
        Some(c) => c,
        None => {
            return Err(DesktopError::UnexpectedFileName);
        },
    };
    let name = match &vals[0] {
        Some(n) => string_of(n),
        None => {
            return Err(DesktopError::MissingName);
        },
    };
    Ok(
        DesktopEntry {
            path: String::from_str(path),
            codename,
            name,
            url: opt_string(&vals[4]),
            browser: opt_string(&vals[5]),
            icon: opt_string(&vals[1]),
            exec_line: opt_string(&vals[2]),
            startup_wm_class: opt_string(&vals[3]),
            profile_mode,
            show_title_bar,
        },
    )
}

// ---------------------------------------------------------------------------
// Reading back what was written
// ---------------------------------------------------------------------------

/// A value that a launcher stores verbatim: nothing to escape, and no trailing whitespace
/// (lines are trimmed when read).
pub open spec fn stored_verbatim(v: Seq<char>) -> bool {
    &&& !v.contains('\\')
    &&& !v.contains('\n')
    &&& !v.contains('\r')
    &&& (v.len() == 0 || !is_ws(v.last()))
}

/// An `Exec=` line that a launcher stores verbatim (it is written unescaped).
pub open spec fn exec_stored_verbatim(v: Seq<char>) -> bool {
    &&& !v.contains('\n')
    &&& (v.len() == 0 || !is_ws(v.last()))
}

/// A key that `entry_kv` reads back.
pub open spec fn good_key(k: Seq<char>) -> bool {
    &&& k.len() > 0
    &&& !is_ws(k[0])
    &&& k[0] != '#'
    &&& k[0] != '['
    &&& !k.contains('=')
    &&& !k.contains('\n')
}

/// A value that `entry_kv` reads back.
pub open spec fn good_value(v: Seq<char>) -> bool {
    &&& !v.contains('\n')
    &&& (v.len() == 0 || !is_ws(v.last()))
}

proof fn lemma_escape_identity(v: Seq<char>)
    requires
        !v.contains('\\'),
        !v.contains('\n'),
        !v.contains('\r'),
    ensures
        escape_value_spec(v) == v,
    decreases v.len(),
{
    if v.len() > 0 {
        assert(!v.drop_last().contains('\\') && !v.drop_last().contains('\n')
            && !v.drop_last().contains('\r')) by {
            assert forall|c: char| #[trigger] v.drop_last().contains(c) implies v.contains(c) by {
                let j = choose|j: int| 0 <= j < v.drop_last().len() && v.drop_last()[j] == c;
                assert(v[j] == c);
            }
        }
        lemma_escape_identity(v.drop_last());
        assert(v.last() != '\\' && v.last() != '\n' && v.last() != '\r') by {
            assert(v[v.len() - 1] == v.last());
        }
        assert(v.drop_last().push(v.last()) =~= v);
    }
}

/// The line `key=value` reads back as that entry.
proof fn lemma_entry_line(k: Seq<char>, v: Seq<char>)
    requires
        good_key(k),
        good_value(v),
    ensures
        entry_kv(k.push('=') + v) == Some((k, v)),
        !(k.push('=') + v).contains('\n'),
        crate::text::strip_cr(k.push('=') + v) == k.push('=') + v,
        trim(k.push('=') + v) == k.push('=') + v,
{
    let s = k.push('=') + v;
    assert(s[0] == k[0]);
    assert(s.last() == if v.len() == 0 {
        '='
    } else {
        v.last()
    });
    crate::text::lemma_trim_fixed(s);
    assert forall|j: int| 0 <= j < k.len() implies s[j] != '=' by {
        assert(s[j] == k[j]);
    }
    crate::text::lemma_first_index_unique(s, '=', k.len() as int);
    assert(s.take(k.len() as int) =~= k);
    assert(s.skip(k.len() as int + 1) =~= v);
    assert(!s.contains('\n')) by {
        if s.contains('\n') {
            let j = choose|j: int| 0 <= j < s.len() && s[j] == '\n';
            if j < k.len() {
                assert(k[j] == '\n');
            } else if j > k.len() {
                assert(v[j - k.len() - 1] == '\n');
            }
        }
    }
}

/// A line `key=value` holds an entry for `key`, whatever its value, once `str::lines` has
/// dropped a carriage return that ends it.
proof fn lemma_entry_key(k: Seq<char>, v: Seq<char>)
    requires
        good_key(k),
        !v.contains('\n'),
    ensures
        !(k.push('=') + v).contains('\n'),
        entry_kv(crate::text::strip_cr(k.push('=') + v)) matches Some(kv) && kv.0 == k,
{
    let s = k.push('=') + v;
    assert(!s.contains('\n')) by {
        if s.contains('\n') {
            let j = choose|j: int| 0 <= j < s.len() && s[j] == '\n';
            if j < k.len() {
                assert(k[j] == '\n');
            } else if j > k.len() {
                assert(v[j - k.len() - 1] == '\n');
            }
        }
    }
    let l = crate::text::strip_cr(s);
    assert(l.len() > k.len() && l.take((k.len() + 1) as int) =~= k.push('=')) by {
        if s.len() > 0 && s.last() == '\r' {
            assert(v.len() > 0);
        }
    }
    assert(l[0] == k[0]);
    crate::text::lemma_trim_fixed(seq![l[0]]);
    assert(trim_start(l) == l);
    crate::text::lemma_trim_end_prefix(l, k.len() as int);
    let line = trim(l);
    assert(line == trim_end(l));
    assert(line.len() > k.len());
    assert(line[0] == k[0]);
    assert forall|j: int| 0 <= j < k.len() implies line[j] != '=' by {
        assert(line[j] == k[j]);
    }
    assert(line[k.len() as int] == '=');
    crate::text::lemma_first_index_unique(line, '=', k.len() as int);
    assert(line.take(k.len() as int) =~= k);
}

/// The last entry of a key is the value of the last line that holds it.
proof fn lemma_last_value_at(ls: Seq<Seq<char>>, key: Seq<char>, j: int, v: Seq<char>)
    requires
        0 <= j < ls.len(),
        entry_kv(ls[j]) == Some((key, v)),
        forall|i: int|
            j < i < ls.len() ==> match entry_kv(#[trigger] ls[i]) {
                Some(kv) => kv.0 != key,
                None => true,
            },
    ensures
        last_value(ls, key) == Some(v),
    decreases ls.len(),
{
    if j < ls.len() - 1 {
        let d = ls.drop_last();
        assert forall|i: int| j < i < d.len() implies match entry_kv(#[trigger] d[i]) {
            Some(kv) => kv.0 != key,
            None => true,
        } by {
            assert(d[i] == ls[i]);
        }
        assert(d[j] == ls[j]);
        lemma_last_value_at(d, key, j, v);
        assert(ls.last() == ls[ls.len() - 1]);
    }
}

/// The (key, value) entries of a launcher after its group header.
pub open spec fn desktop_entries(
    name: Seq<char>,
    url: Seq<char>,
    browser_name: Seq<char>,
    icon: Seq<char>,
    exec_line: Seq<char>,
    window_class: Seq<char>,
    profile_mode: ProfileMode,
    show_title_bar: bool,
) -> Seq<(Seq<char>, Seq<char>)> {
    seq![
        ("Version"@, "1.0"@),
        ("Type"@, "Application"@),
        ("Name"@, name),
        ("Comment"@, "Web App"@),
        ("Exec"@, exec_line),
        ("Terminal"@, "false"@),
        ("Icon"@, icon),
        ("StartupWMClass"@, window_class),
        ("StartupNotify"@, "true"@),
        ("Categories"@, "Network;WebBrowser;"@),
        ("X-WebApp-Manager"@, MANAGER_TAG@),
        ("X-WebApp-URL"@, url),
        ("X-WebApp-Browser"@, browser_name),
        ("X-WebApp-Isolated"@, bool_value(profile_mode == ProfileMode::Isolated)),
        ("X-WebApp-ProfileMode"@, profile_mode_value(profile_mode)),
        ("X-WebApp-ShowTitleBar"@, bool_value(show_title_bar)),
    ]
}

proof fn lemma_reveal_desktop_literals()
    ensures
        "[Desktop Entry]"@ =~= seq!['[', 'D', 'e', 's', 'k', 't', 'o', 'p', ' ', 'E', 'n', 't', 'r', 'y', ']'],
{
    reveal_strlit("[Desktop Entry]");
}

/// The lines of a launcher whose values are stored verbatim: `lines` gives back the
/// written lines, the header is no entry, and every other line is its own trim and reads
/// back as the matching entry of `desktop_entries`.
#[verifier::spinoff_prover]
#[verifier::rlimit(40)]
pub proof fn lemma_launcher_lines(
    name: Seq<char>,
    url: Seq<char>,
    browser_name: Seq<char>,
    icon: Seq<char>,
    exec_line: Seq<char>,
    window_class: Seq<char>,
    profile_mode: ProfileMode,
    show_title_bar: bool,
)
    requires
        stored_verbatim(name),
        stored_verbatim(url),
        stored_verbatim(browser_name),
        stored_verbatim(icon),
        stored_verbatim(window_class),
        exec_stored_verbatim(exec_line),
    ensures
        ({
            let dl = desktop_lines(name, url, browser_name, icon, exec_line, window_class, profile_mode, show_title_bar);
            let es = desktop_entries(name, url, browser_name, icon, exec_line, window_class, profile_mode, show_title_bar);
            &&& lines(desktop_file_content_spec(name, url, browser_name, icon, exec_line, window_class, profile_mode, show_title_bar)) == dl
            &&& dl.len() == 17
            &&& es.len() == 16
            &&& entry_kv(dl[0]) is None
            &&& forall|i: int|
                0 <= i < 16 ==> entry_kv(#[trigger] dl[i + 1]) == Some(es[i]) && trim(dl[i + 1])
                    == dl[i + 1] && dl[i + 1] == es[i].0.push('=') + es[i].1
        }),
        escape_value_spec(name) == name,
        escape_value_spec(url) == url,
        escape_value_spec(browser_name) == browser_name,
        escape_value_spec(icon) == icon,
        escape_value_spec(window_class) == window_class,
{
    lemma_escape_identity(name);
    lemma_escape_identity(url);
    lemma_escape_identity(browser_name);
    lemma_escape_identity(icon);
    lemma_escape_identity(window_class);
    reveal_strlit("Version");
    reveal_strlit("1.0");
    reveal_strlit("Version=1.0");
    reveal_strlit("Type");
    reveal_strlit("Application");
    reveal_strlit("Type=Application");
    reveal_strlit("Name");
    reveal_strlit("Name=");
    reveal_strlit("Comment");
    reveal_strlit("Web App");
    reveal_strlit("Comment=Web App");
    reveal_strlit("Exec");
    reveal_strlit("Exec=");
    reveal_strlit("Terminal");
    reveal_strlit("false");
    reveal_strlit("Terminal=false");
    reveal_strlit("Icon");
    reveal_strlit("Icon=");
    reveal_strlit("StartupWMClass");
    reveal_strlit("StartupWMClass=");
    reveal_strlit("StartupNotify");
    reveal_strlit("true");
    reveal_strlit("StartupNotify=true");
    reveal_strlit("Categories");
    reveal_strlit("Network;WebBrowser;");
    reveal_strlit("Categories=Network;WebBrowser;");
    reveal_strlit("X-WebApp-Manager");
    reveal_strlit("X-WebApp-Manager=");
    reveal_strlit("mountie");
    reveal_strlit("X-WebApp-URL");
    reveal_strlit("X-WebApp-URL=");
    reveal_strlit("X-WebApp-Browser");
    reveal_strlit("X-WebApp-Browser=");
    reveal_strlit("X-WebApp-Isolated");
    reveal_strlit("X-WebApp-Isolated=");
    reveal_strlit("X-WebApp-ProfileMode");
    reveal_strlit("X-WebApp-ProfileMode=");
    reveal_strlit("isolated");
    reveal_strlit("shared");
    reveal_strlit("X-WebApp-ShowTitleBar");
    reveal_strlit("X-WebApp-ShowTitleBar=");
    reveal_strlit("1");
    lemma_reveal_desktop_literals();
    let es = desktop_entries(
        name,
        url,
        browser_name,
        icon,
        exec_line,
        window_class,
        profile_mode,
        show_title_bar,
    );
    let dl = desktop_lines(
        name,
        url,
        browser_name,
        icon,
        exec_line,
        window_class,
        profile_mode,
        show_title_bar,
    );
    assert(dl.len() == 17 && es.len() == 16);
    assert forall|i: int| 0 <= i < 16 implies good_key((#[trigger] es[i]).0) && good_value(
        es[i].1,
    ) && dl[i + 1] == es[i].0.push('=') + es[i].1 by {
        if i == 0 {
            assert("Version=1.0"@ =~= "Version"@.push('=') + "1.0"@);
        } else if i == 1 {
            assert("Type=Application"@ =~= "Type"@.push('=') + "Application"@);
        } else if i == 2 {
            assert("Name="@ =~= "Name"@.push('='));
        } else if i == 3 {
            assert("Comment=Web App"@ =~= "Comment"@.push('=') + "Web App"@);
        } else if i == 4 {
            assert("Exec="@ =~= "Exec"@.push('='));
        } else if i == 5 {
            assert("Terminal=false"@ =~= "Terminal"@.push('=') + "false"@);
        } else if i == 6 {
            assert("Icon="@ =~= "Icon"@.push('='));
        } else if i == 7 {
            assert("StartupWMClass="@ =~= "StartupWMClass"@.push('='));
        } else if i == 8 {
            assert("StartupNotify=true"@ =~= "StartupNotify"@.push('=') + "true"@);
        } else if i == 9 {
            assert("Categories=Network;WebBrowser;"@ =~= "Categories"@.push('=')
                + "Network;WebBrowser;"@);
        } else if i == 10 {
            assert("X-WebApp-Manager="@ =~= "X-WebApp-Manager"@.push('='));
        } else if i == 11 {
            assert("X-WebApp-URL="@ =~= "X-WebApp-URL"@.push('='));
        } else if i == 12 {
            assert("X-WebApp-Browser="@ =~= "X-WebApp-Browser"@.push('='));
        } else if i == 13 {
            assert("X-WebApp-Isolated="@ =~= "X-WebApp-Isolated"@.push('='));
        } else if i == 14 {
            assert("X-WebApp-ProfileMode="@ =~= "X-WebApp-ProfileMode"@.push('='));
        } else {
            assert("X-WebApp-ShowTitleBar="@ =~= "X-WebApp-ShowTitleBar"@.push('='));
        }
    }
    assert forall|i: int| 0 <= i < 16 implies entry_kv(#[trigger] dl[i + 1]) == Some(es[i])
        && !dl[i + 1].contains('\n') && crate::text::strip_cr(dl[i + 1]) == dl[i + 1] && trim(
        dl[i + 1],
    ) == dl[i + 1] by {
        lemma_entry_line(es[i].0, es[i].1);
    }
    assert(!dl[0].contains('\n') && crate::text::strip_cr(dl[0]) == dl[0]);
    assert(entry_kv(dl[0]) is None);
    assert forall|i: int| 0 <= i < dl.len() implies !(#[trigger] dl[i]).contains('\n') by {
        if i > 0 {
            assert(dl[(i - 1) + 1] == dl[i]);
        }
    }
    crate::text::lemma_lines_terminated(dl);
    let ls = lines(terminated(dl));
    assert(ls =~= dl) by {
        assert forall|i: int| 0 <= i < dl.len() implies ls[i] == dl[i] by {
            if i > 0 {
                assert(dl[(i - 1) + 1] == dl[i]);
            }
        }
    }
}

/// A launcher written for a web app reads back as that web app: every stored field comes
/// back, for values that the format stores verbatim (nothing to escape, no trailing
/// whitespace) and a file named after the codename.
#[verifier::spinoff_prover]
#[verifier::rlimit(40)]
pub proof fn law_desktop_roundtrip(
    path: Seq<char>,
    codename: Seq<char>,
    name: Seq<char>,
    url: Seq<char>,
    browser_name: Seq<char>,
    icon: Seq<char>,
    exec_line: Seq<char>,
    window_class: Seq<char>,
    profile_mode: ProfileMode,
    show_title_bar: bool,
)
    requires
        stored_verbatim(name),
        stored_verbatim(url),
        stored_verbatim(browser_name),
        stored_verbatim(icon),
        stored_verbatim(window_class),
        exec_stored_verbatim(exec_line),
    ensures
        parse_desktop_spec(
            path,
            Some(desktop_file_name_spec(codename)),
            desktop_file_content_spec(
                name,
                url,
                browser_name,
                icon,
                exec_line,
                window_class,
                profile_mode,
                show_title_bar,
            ),
        ) == Ok::<DesktopEntryView, DesktopErrorView>(
            DesktopEntryView {
                path,
                codename,
                name,
                url,
                browser: browser_name,
                icon,
                exec_line,
                startup_wm_class: window_class,
                profile_mode,
                show_title_bar,
            },
        ),
{
    reveal_strlit("Version");
    reveal_strlit("1.0");
    reveal_strlit("Version=1.0");
    reveal_strlit("Type");
    reveal_strlit("Application");
    reveal_strlit("Type=Application");
    reveal_strlit("Name");
    reveal_strlit("Name=");
    reveal_strlit("Comment");
    reveal_strlit("Web App");
    reveal_strlit("Comment=Web App");
    reveal_strlit("Exec");
    reveal_strlit("Exec=");
    reveal_strlit("Terminal");
    reveal_strlit("false");
    reveal_strlit("Terminal=false");
    reveal_strlit("Icon");
    reveal_strlit("Icon=");
    reveal_strlit("StartupWMClass");
    reveal_strlit("StartupWMClass=");
    reveal_strlit("StartupNotify");
    reveal_strlit("true");
    reveal_strlit("StartupNotify=true");
    reveal_strlit("Categories");
    reveal_strlit("Network;WebBrowser;");
    reveal_strlit("Categories=Network;WebBrowser;");
    reveal_strlit("X-WebApp-Manager");
    reveal_strlit("X-WebApp-Manager=");
    reveal_strlit("mountie");
    reveal_strlit("X-WebApp-URL");
    reveal_strlit("X-WebApp-URL=");
    reveal_strlit("X-WebApp-Browser");
    reveal_strlit("X-WebApp-Browser=");
    reveal_strlit("X-WebApp-Isolated");
    reveal_strlit("X-WebApp-Isolated=");
    reveal_strlit("X-WebApp-ProfileMode");
    reveal_strlit("X-WebApp-ProfileMode=");
    reveal_strlit("isolated");
    reveal_strlit("shared");
    reveal_strlit("X-WebApp-ShowTitleBar");
    reveal_strlit("X-WebApp-ShowTitleBar=");
    reveal_strlit("1");
    lemma_reveal_desktop_literals();
    lemma_launcher_lines(name, url, browser_name, icon, exec_line, window_class, profile_mode, show_title_bar);
    let es = desktop_entries(name, url, browser_name, icon, exec_line, window_class, profile_mode, show_title_bar);
    let dl = desktop_lines(name, url, browser_name, icon, exec_line, window_class, profile_mode, show_title_bar);
    let ls = lines(desktop_file_content_spec(name, url, browser_name, icon, exec_line, window_class, profile_mode, show_title_bar));
    assert(ls == dl);
    assert forall|j: int, i: int| 0 <= j < i < 16 implies (#[trigger] es[j]).0 != (
    #[trigger] es[i]).0 by {
        if es[j].0 == es[i].0 {
            assert(es[j].0.len() == es[i].0.len());
            assert(es[j].0[0] == es[i].0[0]);
            assert(es[j].0[es[j].0.len() - 1] == es[i].0[es[i].0.len() - 1]);
            assert(es[j].0[9] == es[i].0[9]);
        }
    }
    assert forall|j: int| 0 <= j < 16 implies last_value(ls, (#[trigger] es[j]).0) == Some(
        es[j].1,
    ) by {
        assert(entry_kv(ls[j + 1]) == Some(es[j]));
        assert forall|i: int| j + 1 < i < ls.len() implies match entry_kv(#[trigger] ls[i]) {
            Some(kv) => kv.0 != es[j].0,
            None => true,
        } by {
            assert(ls[(i - 1) + 1] == ls[i]);
            assert(entry_kv(ls[i]) == Some(es[i - 1]));
        }
        lemma_last_value_at(ls, es[j].0, j + 1, es[j].1);
    }
    assert(last_value(ls, "Name"@) == Some(name)) by {
        assert(es[2].0 == "Name"@);
    }
    assert(last_value(ls, "Exec"@) == Some(exec_line)) by {
        assert(es[4].0 == "Exec"@);
    }
    assert(last_value(ls, "Icon"@) == Some(icon)) by {
        assert(es[6].0 == "Icon"@);
    }
    assert(last_value(ls, "StartupWMClass"@) == Some(window_class)) by {
        assert(es[7].0 == "StartupWMClass"@);
    }
    assert(last_value(ls, "X-WebApp-Manager"@) == Some(MANAGER_TAG@)) by {
        assert(es[10].0 == "X-WebApp-Manager"@);
    }
    assert(last_value(ls, "X-WebApp-URL"@) == Some(url)) by {
        assert(es[11].0 == "X-WebApp-URL"@);
    }
    assert(last_value(ls, "X-WebApp-Browser"@) == Some(browser_name)) by {
        assert(es[12].0 == "X-WebApp-Browser"@);
    }
    assert(last_value(ls, "X-WebApp-ProfileMode"@) == Some(profile_mode_value(profile_mode))) by {
        assert(es[14].0 == "X-WebApp-ProfileMode"@);
    }
    assert(last_value(ls, "X-WebApp-ShowTitleBar"@) == Some(bool_value(show_title_bar))) by {
        assert(es[15].0 == "X-WebApp-ShowTitleBar"@);
    }
    crate::browser::law_profile_mode_value_roundtrip(profile_mode);
    assert(stored_show_title_bar(ls) == show_title_bar) by {
        if !show_title_bar {
            assert(ascii_lower("false"@).len() != ascii_lower("true"@).len());
            assert("false"@ != "1"@) by {
                assert("false"@.len() != "1"@.len());
            }
        }
    }
    let f = desktop_file_name_spec(codename);
    reveal_strlit("webapp-");
    reveal_strlit(".desktop");
    assert(f.take(DESKTOP_PREFIX@.len() as int) =~= DESKTOP_PREFIX@);
    let rest = f.skip(DESKTOP_PREFIX@.len() as int);
    assert(rest =~= codename + DESKTOP_SUFFIX@);
    assert(rest.skip(rest.len() - DESKTOP_SUFFIX@.len()) =~= DESKTOP_SUFFIX@);
    assert(rest.take(rest.len() - DESKTOP_SUFFIX@.len()) =~= codename);
    assert(codename_of_file_name(f) == Some(codename));
}

spec fn kv_value(o: Option<(Seq<char>, Seq<char>)>) -> Seq<char> {
    match o {
        Some(kv) => kv.1,
        None => seq![],
    }
}

proof fn lemma_escape_no_newline(v: Seq<char>)
    ensures
        !escape_value_spec(v).contains('\n'),
    decreases v.len(),
{
    if v.len() > 0 {
        lemma_escape_no_newline(v.drop_last());
        let a = escape_value_spec(v.drop_last());
        let b = escape_char(v.last());
        assert(escape_value_spec(v) == a + b);
        assert forall|j: int| 0 <= j < (a + b).len() implies (a + b)[j] != '\n' by {
            if j >= a.len() {
                assert((a + b)[j] == b[j - a.len()]);
            } else {
                assert((a + b)[j] == a[j]);
            }
        }
    }
}

/// Every launcher written for a web app is read back as a managed launcher of its codename,
/// with its path, profile mode and title-bar choice, whatever its name, URL, browser name,
/// icon and window class are (they are escaped), provided its `Exec=` line (written as
/// given) holds no newline.
#[verifier::spinoff_prover]
#[verifier::rlimit(60)]
pub proof fn law_launcher_read_as_managed(
    path: Seq<char>,
    codename: Seq<char>,
    name: Seq<char>,
    url: Seq<char>,
    browser_name: Seq<char>,
    icon: Seq<char>,
    exec_line: Seq<char>,
    window_class: Seq<char>,
    profile_mode: ProfileMode,
    show_title_bar: bool,
)
    requires
        !exec_line.contains('\n'),
    ensures
        is_managed_file_name_spec(desktop_file_name_spec(codename)),
        parse_desktop_spec(
            path,
            Some(desktop_file_name_spec(codename)),
            desktop_file_content_spec(name, url, browser_name, icon, exec_line, window_class, profile_mode, show_title_bar),
        ) matches Ok(e) && e.path == path && e.codename == codename && e.profile_mode
            == profile_mode && e.show_title_bar == show_title_bar,
{
    reveal_strlit("Version");
    reveal_strlit("1.0");
    reveal_strlit("Version=1.0");
    reveal_strlit("Type");
    reveal_strlit("Application");
    reveal_strlit("Type=Application");
    reveal_strlit("Name");
    reveal_strlit("Name=");
    reveal_strlit("Comment");
    reveal_strlit("Web App");
    reveal_strlit("Comment=Web App");
    reveal_strlit("Exec");
    reveal_strlit("Exec=");
    reveal_strlit("Terminal");
    reveal_strlit("false");
    reveal_strlit("Terminal=false");
    reveal_strlit("Icon");
    reveal_strlit("Icon=");
    reveal_strlit("StartupWMClass");
    reveal_strlit("StartupWMClass=");
    reveal_strlit("StartupNotify");
    reveal_strlit("true");
    reveal_strlit("StartupNotify=true");
    reveal_strlit("Categories");
    reveal_strlit("Network;WebBrowser;");
    reveal_strlit("Categories=Network;WebBrowser;");
    reveal_strlit("X-WebApp-Manager");
    reveal_strlit("X-WebApp-Manager=");
    reveal_strlit("mountie");
    reveal_strlit("X-WebApp-URL");
    reveal_strlit("X-WebApp-URL=");
    reveal_strlit("X-WebApp-Browser");
    reveal_strlit("X-WebApp-Browser=");
    reveal_strlit("X-WebApp-Isolated");
    reveal_strlit("X-WebApp-Isolated=");
    reveal_strlit("X-WebApp-ProfileMode");
    reveal_strlit("X-WebApp-ProfileMode=");
    reveal_strlit("isolated");
    reveal_strlit("shared");
    reveal_strlit("X-WebApp-ShowTitleBar");
    reveal_strlit("X-WebApp-ShowTitleBar=");
    reveal_strlit("1");
    lemma_reveal_desktop_literals();
    lemma_escape_no_newline(name);
    lemma_escape_no_newline(url);
    lemma_escape_no_newline(browser_name);
    lemma_escape_no_newline(icon);
    lemma_escape_no_newline(window_class);
    let es = desktop_entries(name, url, browser_name, icon, exec_line, window_class, profile_mode, show_title_bar);
    let dl = desktop_lines(name, url, browser_name, icon, exec_line, window_class, profile_mode, show_title_bar);
    let vs = seq![
        "1.0"@,
        "Application"@,
        escape_value_spec(name),
        "Web App"@,
        exec_line,
        "false"@,
        escape_value_spec(icon),
        escape_value_spec(window_class),
        "true"@,
        "Network;WebBrowser;"@,
        MANAGER_TAG@,
        escape_value_spec(url),
        escape_value_spec(browser_name),
        bool_value(profile_mode == ProfileMode::Isolated),
        profile_mode_value(profile_mode),
        bool_value(show_title_bar),
    ];
    assert(dl.len() == 17 && es.len() == 16 && vs.len() == 16);
    assert forall|i: int| 0 <= i < 16 implies good_key((#[trigger] es[i]).0) && !vs[i].contains(
        '\n',
    ) && dl[i + 1] == es[i].0.push('=') + vs[i] by {
        if i == 0 {
            assert("Version=1.0"@ =~= "Version"@.push('=') + "1.0"@);
        } else if i == 1 {
            assert("Type=Application"@ =~= "Type"@.push('=') + "Application"@);
        } else if i == 2 {
            assert("Name="@ =~= "Name"@.push('='));
        } else if i == 3 {
            assert("Comment=Web App"@ =~= "Comment"@.push('=') + "Web App"@);
        } else if i == 4 {
            assert("Exec="@ =~= "Exec"@.push('='));
        } else if i == 5 {
            assert("Terminal=false"@ =~= "Terminal"@.push('=') + "false"@);
        } else if i == 6 {
            assert("Icon="@ =~= "Icon"@.push('='));
        } else if i == 7 {
            assert("StartupWMClass="@ =~= "StartupWMClass"@.push('='));
        } else if i == 8 {
            assert("StartupNotify=true"@ =~= "StartupNotify"@.push('=') + "true"@);
        } else if i == 9 {
            assert("Categories=Network;WebBrowser;"@ =~= "Categories"@.push('=')
                + "Network;WebBrowser;"@);
        } else if i == 10 {
            assert("X-WebApp-Manager="@ =~= "X-WebApp-Manager"@.push('='));
        } else if i == 11 {
            assert("X-WebApp-URL="@ =~= "X-WebApp-URL"@.push('='));
        } else if i == 12 {
            assert("X-WebApp-Browser="@ =~= "X-WebApp-Browser"@.push('='));
        } else if i == 13 {
            assert("X-WebApp-Isolated="@ =~= "X-WebApp-Isolated"@.push('='));
        } else if i == 14 {
            assert("X-WebApp-ProfileMode="@ =~= "X-WebApp-ProfileMode"@.push('='));
        } else {
            assert("X-WebApp-ShowTitleBar="@ =~= "X-WebApp-ShowTitleBar"@.push('='));
        }
    }
    assert forall|i: int| 0 <= i < 16 implies (entry_kv(
        crate::text::strip_cr(#[trigger] dl[i + 1]),
    ) matches Some(kv) && kv.0 == es[i].0) && !dl[i + 1].contains('\n') by {
        lemma_entry_key(es[i].0, vs[i]);
    }
    assert(!dl[0].contains('\n') && crate::text::strip_cr(dl[0]) == dl[0]);
    assert forall|i: int| 0 <= i < dl.len() implies !(#[trigger] dl[i]).contains('\n') by {
        if i > 0 {
            assert(dl[(i - 1) + 1] == dl[i]);
        }
    }
    crate::text::lemma_lines_terminated(dl);
    let ls = lines(terminated(dl));
    assert(ls.len() == 17);
    assert forall|i: int| 0 <= i < 16 implies entry_kv(#[trigger] ls[i + 1]) matches Some(kv)
        && kv.0 == es[i].0 by {
        assert(ls[i + 1] == crate::text::strip_cr(dl[i + 1]));
    }
    assert(entry_kv(ls[0]) is None) by {
        assert(ls[0] == dl[0]);
    }
    assert forall|j: int, i: int| 0 <= j < i < 16 implies (#[trigger] es[j]).0 != (
    #[trigger] es[i]).0 by {
        if es[j].0 == es[i].0 {
            assert(es[j].0.len() == es[i].0.len());
            assert(es[j].0[0] == es[i].0[0]);
            assert(es[j].0[es[j].0.len() - 1] == es[i].0[es[i].0.len() - 1]);
            assert(es[j].0[9] == es[i].0[9]);
        }
    }
    // The manager tag, the profile mode and the title-bar choice come back exactly.
    lemma_entry_line(es[10].0, es[10].1);
    lemma_entry_line(es[14].0, es[14].1);
    lemma_entry_line(es[15].0, es[15].1);
    assert(ls[11] == dl[11] && ls[15] == dl[15] && ls[16] == dl[16]);
    assert forall|j: int| 0 <= j < 16 implies last_value(ls, (#[trigger] es[j]).0) == Some(
        kv_value(entry_kv(ls[j + 1])),
    ) by {
        assert forall|i: int| j + 1 < i < ls.len() implies match entry_kv(#[trigger] ls[i]) {
            Some(kv) => kv.0 != es[j].0,
            None => true,
        } by {
            assert(ls[(i - 1) + 1] == ls[i]);
        }
        lemma_last_value_at(ls, es[j].0, j + 1, kv_value(entry_kv(ls[j + 1])));
    }
    assert(last_value(ls, "X-WebApp-Manager"@) == Some(MANAGER_TAG@)) by {
        assert(es[10].0 == "X-WebApp-Manager"@);
    }
    assert(last_value(ls, "Name"@) is Some) by {
        assert(es[2].0 == "Name"@);
    }
    assert(last_value(ls, "X-WebApp-ProfileMode"@) == Some(profile_mode_value(profile_mode))) by {
        assert(es[14].0 == "X-WebApp-ProfileMode"@);
    }
    assert(last_value(ls, "X-WebApp-ShowTitleBar"@) == Some(bool_value(show_title_bar))) by {
        assert(es[15].0 == "X-WebApp-ShowTitleBar"@);
    }
    crate::browser::law_profile_mode_value_roundtrip(profile_mode);
    assert(stored_show_title_bar(ls) == show_title_bar) by {
        if !show_title_bar {
            assert(ascii_lower("false"@).len() != ascii_lower("true"@).len());
            assert("false"@ != "1"@) by {
                assert("false"@.len() != "1"@.len());
            }
        }
    }
    let f = desktop_file_name_spec(codename);
    reveal_strlit("webapp-");
    reveal_strlit(".desktop");
    assert(f.take(DESKTOP_PREFIX@.len() as int) =~= DESKTOP_PREFIX@);
    let rest = f.skip(DESKTOP_PREFIX@.len() as int);
    assert(rest =~= codename + DESKTOP_SUFFIX@);
    assert(rest.skip(rest.len() - DESKTOP_SUFFIX@.len()) =~= DESKTOP_SUFFIX@);
    assert(rest.take(rest.len() - DESKTOP_SUFFIX@.len()) =~= codename);
    assert(codename_of_file_name(f) == Some(codename));
    assert(f.skip(f.len() - DESKTOP_SUFFIX@.len()) =~= DESKTOP_SUFFIX@);
}

// ---------------------------------------------------------------------------
// The list of managed launchers
// ---------------------------------------------------------------------------

/// A file of the applications directory: its path, its file name (`None` when it is not
/// valid Unicode) and its text.
pub struct DesktopFile {
    pub path: String,
    pub file_name: Option<String>,
    pub text: String,
}

pub ghost struct DesktopFileView {
    pub path: Seq<char>,
    pub file_name: Option<Seq<char>>,
    pub text: Seq<char>,
}

impl View for DesktopFile {
    type V = DesktopFileView;

    open spec fn view(&self) -> DesktopFileView {
        DesktopFileView {
            path: self.path@,
            file_name: match self.file_name {
                Some(n) => Some(n@),
                None => None,
            },
            text: self.text@,
        }
    }
}

pub open spec fn file_views(v: Seq<DesktopFile>) -> Seq<DesktopFileView> {
    v.map_values(|f: DesktopFile| f@)
}

pub open spec fn entry_views(v: Seq<DesktopEntry>) -> Seq<DesktopEntryView> {
    v.map_values(|e: DesktopEntry| e@)
}

/// `str::to_lowercase` (full Unicode lower-casing) of `s`.
pub uninterp spec fn unicode_lowercase(s: Seq<char>) -> Seq<char>;

/// Calls `str::to_lowercase`; the contract claims that the result is `unicode_lowercase`
/// of the input (a function of it alone).
#[verifier::external_body]
fn lowercase(s: &str) -> (r: String)
    ensures
        r@ == unicode_lowercase(s@),
{
    s.to_lowercase()
}

/// `a < b` in the order of `String` (lexicographic by character).
pub open spec fn seq_lt(a: Seq<char>, b: Seq<char>) -> bool
    decreases a.len(),
{
    if a.len() == 0 {
        b.len() > 0
    } else if b.len() == 0 {
        false
    } else if a[0] != b[0] {
        a[0] < b[0]
    } else {
        seq_lt(a.drop_first(), b.drop_first())
    }
}

/// The key that launchers are listed by: the lower-cased name.
pub open spec fn sort_key(e: DesktopEntryView) -> Seq<char> {
    unicode_lowercase(e.name)
}

/// `x` placed after every entry of `s` whose key is not greater than its own.
pub open spec fn insert_sorted(s: Seq<DesktopEntryView>, x: DesktopEntryView) -> Seq<DesktopEntryView>
    decreases s.len(),
{
    if s.len() == 0 {
        seq![x]
    } else if seq_lt(sort_key(x), sort_key(s.last())) {
        insert_sorted(s.drop_last(), x).push(s.last())
    } else {
        s.push(x)
    }
}

/// The entries sorted by key, entries of equal key in their input order (a stable sort).
pub open spec fn sort_by_name(items: Seq<DesktopEntryView>) -> Seq<DesktopEntryView>
    decreases items.len(),
{
    if items.len() == 0 {
        seq![]
    } else {
        insert_sorted(sort_by_name(items.drop_last()), items.last())
    }
}

/// The managed web apps among `files`, in file order: files named `webapp-*.desktop` that
/// read back as managed launchers; the others are skipped.
pub open spec fn parsed_apps(files: Seq<DesktopFileView>) -> Seq<DesktopEntryView>
    decreases files.len(),
{
    if files.len() == 0 {
        seq![]
    } else {
        let rest = parsed_apps(files.drop_last());
        let f = files.last();
        match f.file_name {
            Some(n) => if is_managed_file_name_spec(n) {
                match parse_desktop_spec(f.path, Some(n), f.text) {
                    Ok(e) => rest.push(e),
                    Err(_) => rest,
                }
            } else {
                rest
            },
            None => rest,
        }
    }
}

/// Position where `insert_sorted` places `x`.
pub open spec fn insert_pos(s: Seq<DesktopEntryView>, x: DesktopEntryView) -> int
    decreases s.len(),
{
    if s.len() == 0 {
        0
    } else if seq_lt(sort_key(x), sort_key(s.last())) {
        insert_pos(s.drop_last(), x)
    } else {
        s.len() as int
    }
}

proof fn lemma_insert_sorted_pos(s: Seq<DesktopEntryView>, x: DesktopEntryView)
    ensures
        0 <= insert_pos(s, x) <= s.len(),
        insert_sorted(s, x) == s.insert(insert_pos(s, x), x),
    decreases s.len(),
{
    if s.len() == 0 {
        assert(s.insert(0, x) =~= seq![x]);
    } else if seq_lt(sort_key(x), sort_key(s.last())) {
        lemma_insert_sorted_pos(s.drop_last(), x);
        let p = insert_pos(s.drop_last(), x);
        assert(s.drop_last().insert(p, x).push(s.last()) =~= s.insert(p, x));
    } else {
        assert(s.push(x) =~= s.insert(s.len() as int, x));
    }
}

/// `a < b` on character vectors (`String` order).
fn seq_lt_exec(a: &Vec<char>, b: &Vec<char>) -> (r: bool)
    ensures
        r == seq_lt(a@, b@),
{
    let mut i: usize = 0;
    assert(a@.skip(0) =~= a@ && b@.skip(0) =~= b@);
    while i < a.len() && i < b.len() && a[i] == b[i]
        invariant
            i <= a.len(),
            i <= b.len(),
            seq_lt(a@, b@) == seq_lt(a@.skip(i as int), b@.skip(i as int)),
        decreases a.len() - i,
    {
        proof {
            assert(a@.skip(i as int).drop_first() =~= a@.skip(i + 1));
            assert(b@.skip(i as int).drop_first() =~= b@.skip(i + 1));
        }
        i += 1;
    }
    proof {
        if i < a.len() && i < b.len() {
            assert(a@.skip(i as int)[0] == a@[i as int]);
            assert(b@.skip(i as int)[0] == b@[i as int]);
        }
    }
    if i == a.len() {
        i < b.len()
    } else if i == b.len() {
        false
    } else {
        a[i] < b[i]
    }
}

/// The managed web apps among `files`, sorted by lower-cased name (stable).
pub fn managed_apps(files: Vec<DesktopFile>) -> (r: Vec<DesktopEntry>)
    ensures
        entry_views(r@) == sort_by_name(parsed_apps(file_views(files@))),
{
    let ghost fv = file_views(files@);
    let mut out: Vec<DesktopEntry> = Vec::new();
    let mut keys: Vec<Vec<char>> = Vec::new();
    let mut i: usize = 0;
    assert(fv.take(0) =~= Seq::<DesktopFileView>::empty());
    assert(entry_views(out@) =~= Seq::<DesktopEntryView>::empty());
    while i < files.len()
        invariant
            i <= files.len(),
            fv == file_views(files@),
            keys.len() == out.len(),
            forall|m: int| 0 <= m < out.len() ==> (#[trigger] keys@[m])@ == sort_key(out@[m]@),
            entry_views(out@) == sort_by_name(parsed_apps(fv.take(i as int))),
        decreases files.len() - i,
    {
        let f = &files[i];
        proof {
            assert(fv[i as int] == f@);
            assert(fv.take(i + 1).drop_last() =~= fv.take(i as int));
            assert(fv.take(i + 1).last() == f@);
        }
        let parsed = match &f.file_name {
            Some(n) => if is_managed_file_name(n.as_str()) {
                match parse_desktop_entry(f.path.as_str(), Some(n.as_str()), f.text.as_str()) {
                    Ok(e) => Some(e),
                    Err(_) => None,
                }
            } else {
                None
            },
            None => None,
        };
        let ghost rest = parsed_apps(fv.take(i as int));
        proof {
            assert(parsed_apps(fv.take(i + 1)) == match parsed {
                Some(e) => rest.push(e@),
                None => rest,
            });
        }
        match parsed {
            Some(e) => {
                let ghost s = entry_views(out@);
                proof {
                    assert(rest.push(e@).drop_last() =~= rest);
                    assert(sort_by_name(rest.push(e@)) == insert_sorted(sort_by_name(rest), e@));
                }
                let key = chars_of(lowercase(e.name.as_str()).as_str());
                let mut j = out.len();
                proof {
                    assert(s.take(j as int) =~= s);
                }
                while j > 0 && seq_lt_exec(&key, &keys[j - 1])
                    invariant
                        j <= out.len(),
                        keys.len() == out.len(),
                        s == entry_views(out@),
                        key@ == sort_key(e@),
                        forall|m: int| 0 <= m < out.len() ==> (#[trigger] keys@[m])@ == sort_key(
                            out@[m]@,
                        ),
                        insert_pos(s, e@) == insert_pos(s.take(j as int), e@),
                    decreases j,
                {
                    proof {
                        assert(s.take(j as int).drop_last() =~= s.take(j - 1));
                        assert(s.take(j as int).last() == out@[j - 1]@);
                    }
                    j -= 1;
                }
                proof {
                    if j > 0 {
                        assert(s.take(j as int).last() == out@[j - 1]@);
                    }
                    lemma_insert_sorted_pos(s, e@);
                }
                let ghost ev = e@;
                let ghost old_keys = keys@;
                let ghost old_out = out@;
                out.insert(j, e);
                keys.insert(j, key);
                proof {
                    assert(entry_views(out@) =~= s.insert(j as int, ev));
                    assert forall|m: int| 0 <= m < out.len() implies (#[trigger] keys@[m])@
                        == sort_key(out@[m]@) by {
                        if m < j {
                            assert(keys@[m] == old_keys[m] && out@[m] == old_out[m]);
                        } else if m == j {
                        } else {
                            assert(keys@[m] == old_keys[m - 1] && out@[m] == old_out[m - 1]);
                        }
                    }
                }
            },
            None => {},
        }
        i += 1;
    }
    assert(fv.take(files.len() as int) =~= fv);
    out
}

/// Entries whose keys never decrease.
pub open spec fn sorted_by_key(s: Seq<DesktopEntryView>) -> bool {
    forall|i: int, j: int| 0 <= i < j < s.len() ==> !seq_lt(sort_key(s[j]), sort_key(s[i]))
}

proof fn lemma_lt_trans(a: Seq<char>, b: Seq<char>, c: Seq<char>)
    requires
        seq_lt(a, b),
        seq_lt(b, c),
    ensures
        seq_lt(a, c),
    decreases a.len(),
{
    if a.len() > 0 && b.len() > 0 && c.len() > 0 && a[0] == b[0] && b[0] == c[0] {
        lemma_lt_trans(a.drop_first(), b.drop_first(), c.drop_first());
    }
}

proof fn lemma_lt_total(a: Seq<char>, b: Seq<char>)
    ensures
        a == b || seq_lt(a, b) || seq_lt(b, a),
    decreases a.len(),
{
    if a.len() > 0 && b.len() > 0 && a[0] == b[0] {
        lemma_lt_total(a.drop_first(), b.drop_first());
        if a.drop_first() == b.drop_first() {
            assert(a =~= seq![a[0]] + a.drop_first());
            assert(b =~= seq![b[0]] + b.drop_first());
        }
    } else if a.len() == 0 && b.len() == 0 {
        assert(a =~= b);
    }
}

proof fn lemma_lt_irrefl(a: Seq<char>)
    ensures
        !seq_lt(a, a),
    decreases a.len(),
{
    if a.len() > 0 {
        lemma_lt_irrefl(a.drop_first());
    }
}

proof fn lemma_lt_asym(a: Seq<char>, b: Seq<char>)
    requires
        seq_lt(a, b),
    ensures
        !seq_lt(b, a),
{
    if seq_lt(b, a) {
        lemma_lt_trans(a, b, a);
        lemma_lt_irrefl(a);
    }
}

/// `a <= b` and `b <= c` give `a <= c`.
proof fn lemma_le_trans(a: Seq<char>, b: Seq<char>, c: Seq<char>)
    requires
        !seq_lt(b, a),
        !seq_lt(c, b),
    ensures
        !seq_lt(c, a),
{
    if seq_lt(c, a) {
        lemma_lt_total(a, b);
        lemma_lt_total(b, c);
        if seq_lt(a, b) && seq_lt(b, c) {
            lemma_lt_trans(a, b, c);
            lemma_lt_asym(a, c);
        } else if a == b {
        } else if seq_lt(a, b) {
            lemma_lt_trans(c, a, b);
        } else {
            lemma_lt_trans(b, c, a);
        }
    }
}

proof fn lemma_insert_sorted_sorted(s: Seq<DesktopEntryView>, x: DesktopEntryView)
    requires
        sorted_by_key(s),
    ensures
        sorted_by_key(insert_sorted(s, x)),
        insert_sorted(s, x).to_multiset() == s.to_multiset().insert(x),
    decreases s.len(),
{
    lemma_insert_sorted_pos(s, x);
    vstd::seq_lib::to_multiset_insert(s, insert_pos(s, x), x);
    if s.len() == 0 {
    } else if seq_lt(sort_key(x), sort_key(s.last())) {
        let d = s.drop_last();
        assert(sorted_by_key(d)) by {
            assert forall|i: int, j: int| 0 <= i < j < d.len() implies !seq_lt(
                sort_key(d[j]),
                sort_key(d[i]),
            ) by {
                assert(d[i] == s[i] && d[j] == s[j]);
            }
        }
        lemma_insert_sorted_sorted(d, x);
        lemma_insert_sorted_pos(d, x);
        let t = insert_sorted(d, x);
        let p = insert_pos(d, x);
        let r = t.push(s.last());
        assert forall|i: int, j: int| 0 <= i < j < r.len() implies !seq_lt(
            sort_key(r[j]),
            sort_key(r[i]),
        ) by {
            if j == r.len() - 1 {
                assert(t[i] == d.insert(p, x)[i]);
                if i < p {
                    assert(t[i] == s[i]);
                } else if i == p {
                    lemma_lt_asym(sort_key(x), sort_key(s.last()));
                } else {
                    assert(t[i] == s[i - 1]);
                }
            } else {
                assert(r[i] == t[i] && r[j] == t[j]);
            }
        }
    } else {
        let r = s.push(x);
        assert forall|i: int, j: int| 0 <= i < j < r.len() implies !seq_lt(
            sort_key(r[j]),
            sort_key(r[i]),
        ) by {
            if j == s.len() {
                if i < s.len() - 1 {
                    lemma_le_trans(sort_key(s[i]), sort_key(s.last()), sort_key(x));
                }
            } else {
                assert(r[i] == s[i] && r[j] == s[j]);
            }
        }
    }
}

proof fn lemma_sort_by_name(items: Seq<DesktopEntryView>)
    ensures
        sorted_by_key(sort_by_name(items)),
        sort_by_name(items).to_multiset() == items.to_multiset(),
    decreases items.len(),
{
    broadcast use vstd::seq_lib::to_multiset_build;

    if items.len() == 0 {
        assert(items =~= Seq::<DesktopEntryView>::empty());
    } else {
        lemma_sort_by_name(items.drop_last());
        lemma_insert_sorted_sorted(sort_by_name(items.drop_last()), items.last());
        assert(items.drop_last().push(items.last()) =~= items);
    }
}

/// The list of managed web apps is sorted by lower-cased name and holds every managed
/// launcher that was read, each as often as it was read.
pub proof fn law_managed_apps_sorted(files: Seq<DesktopFileView>)
    ensures
        sorted_by_key(sort_by_name(parsed_apps(files))),
        sort_by_name(parsed_apps(files)).to_multiset() == parsed_apps(files).to_multiset(),
{
    lemma_sort_by_name(parsed_apps(files));
}

proof fn lemma_parsed_apps_contains(files: Seq<DesktopFileView>, k: int, e: DesktopEntryView)
    requires
        0 <= k < files.len(),
        files[k].file_name matches Some(n) && is_managed_file_name_spec(n) && parse_desktop_spec(
            files[k].path,
            Some(n),
            files[k].text,
        ) == Ok::<DesktopEntryView, DesktopErrorView>(e),
    ensures
        parsed_apps(files).contains(e),
    decreases files.len(),
{
    let rest = parsed_apps(files.drop_last());
    if k == files.len() - 1 {
        assert(files.last() == files[k]);
        assert(parsed_apps(files) == rest.push(e));
        assert(rest.push(e)[rest.len() as int] == e);
    } else {
        assert(files.drop_last()[k] == files[k]);
        lemma_parsed_apps_contains(files.drop_last(), k, e);
        let i = choose|i: int| 0 <= i < rest.len() && rest[i] == e;
        let p = parsed_apps(files);
        assert(p == rest || p == rest.push(p.last()));
        if p != rest {
            assert(p[i] == rest[i]);
        }
        assert(p[i] == e);
    }
}

/// A file of the applications directory that is named like a managed launcher and reads as
/// one is in the list of managed web apps.
pub proof fn law_managed_file_listed(files: Seq<DesktopFileView>, k: int, e: DesktopEntryView)
    requires
        0 <= k < files.len(),
        files[k].file_name matches Some(n) && is_managed_file_name_spec(n) && parse_desktop_spec(
            files[k].path,
            Some(n),
            files[k].text,
        ) == Ok::<DesktopEntryView, DesktopErrorView>(e),
    ensures
        sort_by_name(parsed_apps(files)).contains(e),
{
    broadcast use vstd::seq_lib::to_multiset_contains;

    lemma_parsed_apps_contains(files, k, e);
    lemma_sort_by_name(parsed_apps(files));
    assert(parsed_apps(files).to_multiset().count(e) > 0);
    assert(sort_by_name(parsed_apps(files)).to_multiset().count(e) > 0);
}

proof fn lemma_codename_file_name(n: Seq<char>, c: Seq<char>)
    requires
        codename_of_file_name(n) == Some(c),
    ensures
        n == desktop_file_name_spec(c),
{
    let rest = n.skip(DESKTOP_PREFIX@.len() as int);
    assert(n.take(DESKTOP_PREFIX@.len() as int) == DESKTOP_PREFIX@);
    assert(rest.skip(rest.len() - DESKTOP_SUFFIX@.len()) == DESKTOP_SUFFIX@);
    assert(rest =~= c + DESKTOP_SUFFIX@);
    assert(n =~= DESKTOP_PREFIX@ + c + DESKTOP_SUFFIX@);
}

/// Every entry of the parsed list comes from a file named after its codename.
proof fn lemma_parsed_apps_named(files: Seq<DesktopFileView>)
    ensures
        forall|i: int|
            0 <= i < parsed_apps(files).len() ==> exists|k: int|
                0 <= k < files.len() && (#[trigger] files[k]).file_name == Some(
                    desktop_file_name_spec((#[trigger] parsed_apps(files)[i]).codename),
                ),
    decreases files.len(),
{
    if files.len() > 0 {
        let d = files.drop_last();
        lemma_parsed_apps_named(d);
        let rest = parsed_apps(d);
        let p = parsed_apps(files);
        let f = files.last();
        assert forall|i: int| 0 <= i < p.len() implies exists|k: int|
            0 <= k < files.len() && (#[trigger] files[k]).file_name == Some(
                desktop_file_name_spec((#[trigger] p[i]).codename),
            ) by {
            if i < rest.len() {
                assert(p[i] == rest[i]);
                let k = choose|k: int|
                    0 <= k < d.len() && (#[trigger] d[k]).file_name == Some(
                        desktop_file_name_spec(rest[i].codename),
                    );
                assert(files[k] == d[k]);
            } else {
                let n = f.file_name->0;
                let e = parse_desktop_spec(f.path, Some(n), f.text)->Ok_0;
                assert(p == rest.push(e));
                assert(p[i] == e);
                lemma_codename_file_name(n, e.codename);
                assert(files[files.len() - 1] == f);
            }
        }
    }
}

/// Once no file of the applications directory is named `webapp-{codename}.desktop` (the
/// launcher was deleted), the list of managed web apps holds no entry of that codename.
pub proof fn law_deleted_app_not_listed(files: Seq<DesktopFileView>, codename: Seq<char>)
    requires
        forall|k: int|
            0 <= k < files.len() ==> (#[trigger] files[k]).file_name != Some(
                desktop_file_name_spec(codename),
            ),
    ensures
        forall|i: int|
            0 <= i < sort_by_name(parsed_apps(files)).len() ==> (#[trigger] sort_by_name(
                parsed_apps(files),
            )[i]).codename != codename,
{
    broadcast use vstd::seq_lib::to_multiset_contains;

    let p = parsed_apps(files);
    let sorted = sort_by_name(p);
    lemma_sort_by_name(p);
    lemma_parsed_apps_named(files);
    assert forall|i: int| 0 <= i < sorted.len() implies (#[trigger] sorted[i]).codename
        != codename by {
        let x = sorted[i];
        assert(sorted.contains(x));
        assert(sorted.to_multiset().count(x) > 0);
        assert(p.to_multiset().count(x) > 0);
        let j = choose|j: int| 0 <= j < p.len() && p[j] == x;
        let k = choose|k: int|
            0 <= k < files.len() && (#[trigger] files[k]).file_name == Some(
                desktop_file_name_spec(p[j].codename),
            );
    }
}

} // verus!
