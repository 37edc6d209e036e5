//! The choices the user makes in the manager's window and dialogs: profile mode options,
//! their explanations, and keyboard movement through the list of web apps.
use vstd::prelude::*;

use crate::browser::ProfileMode;
use crate::text::{chars_of, contains, contains_chars, eq_chars, has_char, trim, trim_chars};

verus! {

/// The option index of the profile chooser that means `mode` (0: isolated, 1: shared).
pub open spec fn profile_mode_index_spec(mode: ProfileMode) -> u32 {
    match mode {
        ProfileMode::Isolated => 0,
        ProfileMode::Shared => 1,
    }
}

/// The mode an option index of the profile chooser means (1: shared, any other: isolated).
pub open spec fn profile_mode_at_spec(idx: u32) -> ProfileMode {
    if idx == 1 {
        ProfileMode::Shared
    } else {
        ProfileMode::Isolated
    }
}

pub fn profile_mode_from_index(idx: u32) -> (r: ProfileMode)
    ensures
        r == profile_mode_at_spec(idx),
{
    match idx {
        1 => ProfileMode::Shared,
        _ => ProfileMode::Isolated,
    }
}

pub fn profile_mode_to_index(mode: ProfileMode) -> (r: u32)
    ensures
        r == profile_mode_index_spec(mode),
{
    match mode {
        ProfileMode::Isolated => 0,
        ProfileMode::Shared => 1,
    }
}

/// Choosing the option shown for a mode gives back that mode.
pub proof fn law_profile_mode_index_roundtrip(mode: ProfileMode)
    ensures
        profile_mode_at_spec(profile_mode_index_spec(mode)) == mode,
{
}

pub fn profile_mode_subtitle(mode: ProfileMode) -> (r: &'static str)
    ensures
        r@ == match mode {
            ProfileMode::Isolated => "Separate empty profile — independent of your main browser"@,
            ProfileMode::Shared => "Private profile, seeded with your browser’s logins, site data & extensions"@,
        },
{
    match mode {
        ProfileMode::Isolated => "Separate empty profile — independent of your main browser",
        ProfileMode::Shared => {
            "Private profile, seeded with your browser’s logins, site data & extensions"
        },
    }
}

pub fn profile_mode_hint(mode: ProfileMode) -> (r: &'static str)
    ensures
        r@ == match mode {
            ProfileMode::Isolated => "Note: Starts signed out with its own dock icon. Sign in once inside the web app."@,
            ProfileMode::Shared => "Note: Copies extensions, cookies, and site storage (IndexedDB/localStorage — needed for WhatsApp, etc.) from your browser into a private profile so the web app keeps its own dock icon. Close the browser and the web app first for a complete copy. Re-seed by switching away from Shared and back again."@,
        },
{
    match mode {
        ProfileMode::Isolated => {
            "Note: Starts signed out with its own dock icon. Sign in once inside the web app."
        },
        ProfileMode::Shared => {
            "Note: Copies extensions, cookies, and site storage (IndexedDB/localStorage — needed for WhatsApp, etc.) from your browser into a private profile so the web app keeps its own dock icon. Close the browser and the web app first for a complete copy. Re-seed by switching away from Shared and back again."
        },
    }
}

pub fn title_bar_subtitle(show: bool) -> (r: &'static str)
    ensures
        r@ == if show {
            "Native window title bar with close / minimize / maximize (Firefox)"@
        } else {
            "Frameless window — hide the title bar for an app-like look (Firefox; default)"@
        },
{
    if show {
        "Native window title bar with close / minimize / maximize (Firefox)"
    } else {
        "Frameless window — hide the title bar for an app-like look (Firefox; default)"
    }
}

/// Whether the create / save button is enabled: both the name and the URL are non-empty
/// once trimmed.
pub fn form_ready(name: &str, url: &str) -> (r: bool)
    ensures
        r == (trim(name@).len() > 0 && trim(url@).len() > 0),
{
    trim_chars(&chars_of(name)).len() > 0 && trim_chars(&chars_of(url)).len() > 0
}

/// What removing a web app deletes, as told to the user before confirming.
pub fn delete_body(mode: ProfileMode) -> (r: &'static str)
    ensures
        r@ == match mode {
            ProfileMode::Shared => "This deletes the launcher, icon, and private copy of browser data used by this app. Your main browser profile is not modified."@,
            ProfileMode::Isolated => "This deletes the launcher, icon, and private browser profile. You will need to sign in again if you recreate it."@,
        },
{
    match mode {
        ProfileMode::Shared => {
            "This deletes the launcher, icon, and private copy of browser data used by this app. Your main browser profile is not modified."
        },
        ProfileMode::Isolated => {
            "This deletes the launcher, icon, and private browser profile. You will need to sign in again if you recreate it."
        },
    }
}

/// The row selected after moving by `delta` in a list of `n` rows from row `current`
/// (negative: none selected): with no selection, the first row when moving down and the
/// last when moving up; otherwise wrapping around the ends.
pub open spec fn next_selection_spec(current: int, delta: int, n: int) -> int {
    if current < 0 {
        if delta > 0 {
            0
        } else {
            n - 1
        }
    } else {
        (current + delta) % n
    }
}

proof fn lemma_negative_mod(a: int, n: int, b: int, r: int)
    requires
        a < 0,
        n > 0,
        b == -a - 1,
        r == b % n,
    ensures
        a % n == n - 1 - r,
{
    let q = b / n;
    assert(b == q * n + r && 0 <= r < n) by (nonlinear_arith)
        requires
            n > 0,
            b >= 0,
            q == b / n,
            r == b % n,
    ;
    assert(a == (-(q + 1)) * n + (n - 1 - r)) by (nonlinear_arith)
        requires
            a == -b - 1,
            b == q * n + r,
    ;
    vstd::arithmetic::div_mod::lemma_fundamental_div_mod_converse(a, n, -(q + 1), n - 1 - r);
}

/// The row selected after moving by `delta` (see `next_selection_spec`).
pub fn next_selection(current: i32, delta: i32, n: i32) -> (r: i32)
    requires
        n > 0,
        current >= 0 ==> i32::MIN <= current + delta <= i32::MAX,
    ensures
        r == next_selection_spec(current as int, delta as int, n as int),
        0 <= r < n,
{
    if current < 0 {
        if delta > 0 {
            0
        } else {
            n - 1
        }
    } else {
        let a = current + delta;
        if a >= 0 {
            a % n
        } else {
            let b = -(a + 1);
            let r = b % n;
            proof {
                lemma_negative_mod(a as int, n as int, b as int, r as int);
            }
            n - 1 - r
        }
    }
}

/// The picture shown for a web app in the list.
#[derive(Debug, Clone)]
pub enum RowIcon {
    /// The web app's icon file.
    File,
    /// A theme icon of this name (older launchers stored theme names in `Icon=`).
    Themed(String),
    /// The generic web browser icon.
    Generic,
}

pub enum RowIconView {
    File,
    Themed(Seq<char>),
    Generic,
}

impl View for RowIcon {
    type V = RowIconView;

    open spec fn view(&self) -> RowIconView {
        match self {
            RowIcon::File => RowIconView::File,
            RowIcon::Themed(n) => RowIconView::Themed(n@),
            RowIcon::Generic => RowIconView::Generic,
        }
    }
}

/// The picture of a list row: the resolved icon file when it is a file, else the
/// launcher's `Icon=` value as a theme name when it is one (not empty, no `/`), else the
/// generic icon.
pub open spec fn row_icon_spec(icon_is_file: bool, icon_field: Seq<char>) -> RowIconView {
    if icon_is_file {
        RowIconView::File
    } else if icon_field.len() > 0 && !icon_field.contains('/') {
        RowIconView::Themed(icon_field)
    } else {
        RowIconView::Generic
    }
}

/// The picture of a list row (see `row_icon_spec`).
pub fn row_icon(icon_is_file: bool, icon_field: &str) -> (r: RowIcon)
    ensures
        r@ == row_icon_spec(icon_is_file, icon_field@),
{
    let f = chars_of(icon_field);
    if icon_is_file {
        RowIcon::File
    } else if f.len() > 0 && !has_char(&f, '/') {
        RowIcon::Themed(String::from_str(icon_field))
    } else {
        RowIcon::Generic
    }
}

/// The second line of a list row: `{browser} · {url}`.
pub fn row_subtitle(browser: &str, url: &str) -> (r: String)
    ensures
        r@ == browser@ + " · "@ + url@,
{
    let mut r = String::from_str(browser);
    r.append(" · ");
    r.append(url);
    r
}

/// The row selected after the list is reloaded: the last web app whose codename is the one
/// selected before, else the first row; `None` for an empty list.
pub fn restored_selection(codenames: &Vec<String>, selected: Option<&str>) -> (r: Option<usize>)
    ensures
        match r {
            Some(i) => i < codenames.len() && (match selected {
                Some(c) => if exists|k: int| 0 <= k < codenames.len() && codenames@[k]@ == c@ {
                    codenames@[i as int]@ == c@ && forall|j: int|
                        i < j < codenames.len() ==> codenames@[j]@ != c@
                } else {
                    i == 0
                },
                None => i == 0,
            }),
            None => codenames.len() == 0,
        },
{
    if codenames.len() == 0 {
        return None;
    }
    match selected {
        None => Some(0),
        Some(c) => {
            let target = chars_of(c);
            let mut k: usize = codenames.len();
            while k > 0
                invariant
                    k <= codenames.len(),
                    selected == Some(c),
                    target@ == c@,
                    forall|j: int| k <= j < codenames.len() ==> codenames@[j]@ != c@,
                decreases k,
            {
                let i = k - 1;
                if eq_chars(&chars_of(codenames[i].as_str()), &target) {
                    assert(codenames@[i as int]@ == c@);
                    return Some(i);
                }
                k -= 1;
            }
            Some(0)
        },
    }
}

/// Whether an error from creating or saving a web app concerns its icon, so that the
/// dialog asks for an image file.
pub fn mentions_icon(message: &str) -> (r: bool)
    ensures
        r == (contains(message@, "favicon"@) || contains(message@, "icon"@)),
{
    let m = chars_of(message);
    contains_chars(&m, &chars_of("favicon")) || contains_chars(&m, &chars_of("icon"))
}

} // verus!
