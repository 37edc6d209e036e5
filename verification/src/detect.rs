//! Finding installed browsers: the candidates probed, the order of the probes, the parsing
//! of the default browser's desktop file, and the list shown to the user.
//!
//! The probes themselves (is this file an executable?) are made by the caller; the
//! functions here decide what to probe and what the answers mean.
use vstd::prelude::*;

use crate::browser::{Browser, BrowserFamily, BrowserView};
use crate::paths::{applications_dir_spec, path_join, path_join_exec};
use crate::text::{
    ascii_lower, ascii_lower_chars, chars_of, contains, contains_chars, eq_chars, first_index,
    first_index_exec, has_char, is_ws, is_ws_exec, lines, lines_chars, matches_at, slice_chars,
    starts_with,
    starts_with_chars, string_of, trim, trim_chars, vec_views, views,
};

verus! {

/// A row of a candidate table: display name, binary (or Flatpak id), family.
pub type Candidate = (&'static str, &'static str, BrowserFamily);

pub open spec fn table_view(v: Seq<Candidate>) -> Seq<(Seq<char>, Seq<char>, BrowserFamily)> {
    v.map_values(|t: Candidate| (t.0@, t.1@, t.2))
}

/// Native browsers, in order of preference (Chromium family first, for the best app mode).
pub open spec fn candidate_table() -> Seq<(Seq<char>, Seq<char>, BrowserFamily)> {
    seq![
        ("Brave"@, "brave-browser"@, BrowserFamily::Chromium),
        ("Brave"@, "brave-browser-stable"@, BrowserFamily::Chromium),
        ("Brave"@, "brave"@, BrowserFamily::Chromium),
        ("Google Chrome"@, "google-chrome-stable"@, BrowserFamily::Chromium),
        ("Google Chrome"@, "google-chrome"@, BrowserFamily::Chromium),
        ("Chromium"@, "chromium-browser"@, BrowserFamily::Chromium),
        ("Chromium"@, "chromium"@, BrowserFamily::Chromium),
        ("Microsoft Edge"@, "microsoft-edge-stable"@, BrowserFamily::Chromium),
        ("Microsoft Edge"@, "microsoft-edge"@, BrowserFamily::Chromium),
        ("Vivaldi"@, "vivaldi-stable"@, BrowserFamily::Chromium),
        ("Vivaldi"@, "vivaldi"@, BrowserFamily::Chromium),
        ("Firefox"@, "firefox"@, BrowserFamily::Firefox),
        ("Firefox ESR"@, "firefox-esr"@, BrowserFamily::Firefox),
        ("Firefox Developer Edition"@, "firefox-devedition"@, BrowserFamily::Firefox),
        ("Firefox Developer Edition"@, "firefox-developer-edition"@, BrowserFamily::Firefox),
        ("Firefox Developer Edition"@, "firefox-dev"@, BrowserFamily::Firefox),
        ("Firefox Developer Edition"@, "/usr/lib/firefox-devedition/firefox"@, BrowserFamily::Firefox),
        ("Firefox Developer Edition"@, "/usr/lib/firefox-devedition/firefox-bin"@, BrowserFamily::Firefox),
        ("LibreWolf"@, "librewolf"@, BrowserFamily::Firefox),
        ("Floorp"@, "floorp"@, BrowserFamily::Firefox),
        ("Waterfox"@, "waterfox"@, BrowserFamily::Firefox),
        ("Zen Browser"@, "zen-browser"@, BrowserFamily::Firefox),
        ("Zen Browser"@, "zen"@, BrowserFamily::Firefox),
    ]
}

/// Flatpak browsers, in order of preference.
pub open spec fn flatpak_table() -> Seq<(Seq<char>, Seq<char>, BrowserFamily)> {
    seq![
        ("Brave (Flatpak)"@, "com.brave.Browser"@, BrowserFamily::Chromium),
        ("Chrome (Flatpak)"@, "com.google.Chrome"@, BrowserFamily::Chromium),
        ("Chromium (Flatpak)"@, "org.chromium.Chromium"@, BrowserFamily::Chromium),
        ("Edge (Flatpak)"@, "com.microsoft.Edge"@, BrowserFamily::Chromium),
        ("Firefox (Flatpak)"@, "org.mozilla.firefox"@, BrowserFamily::Firefox),
        ("LibreWolf (Flatpak)"@, "io.gitlab.librewolf-community"@, BrowserFamily::Firefox),
        ("Zen (Flatpak)"@, "app.zen_browser.zen"@, BrowserFamily::Firefox),
    ]
}

/// Candidates checked in preference order (Chromium family first for the best app mode).
pub fn candidates() -> (v: Vec<Candidate>)
    ensures
        table_view(v@) == candidate_table(),
{
    let mut v: Vec<Candidate> = Vec::new();
    v.push(("Brave", "brave-browser", BrowserFamily::Chromium));
    v.push(("Brave", "brave-browser-stable", BrowserFamily::Chromium));
    v.push(("Brave", "brave", BrowserFamily::Chromium));
    v.push(("Google Chrome", "google-chrome-stable", BrowserFamily::Chromium));
    v.push(("Google Chrome", "google-chrome", BrowserFamily::Chromium));
    v.push(("Chromium", "chromium-browser", BrowserFamily::Chromium));
    v.push(("Chromium", "chromium", BrowserFamily::Chromium));
    v.push(("Microsoft Edge", "microsoft-edge-stable", BrowserFamily::Chromium));
    v.push(("Microsoft Edge", "microsoft-edge", BrowserFamily::Chromium));
    v.push(("Vivaldi", "vivaldi-stable", BrowserFamily::Chromium));
    v.push(("Vivaldi", "vivaldi", BrowserFamily::Chromium));
    v.push(("Firefox", "firefox", BrowserFamily::Firefox));
    v.push(("Firefox ESR", "firefox-esr", BrowserFamily::Firefox));
    v.push(("Firefox Developer Edition", "firefox-devedition", BrowserFamily::Firefox));
    v.push(("Firefox Developer Edition", "firefox-developer-edition", BrowserFamily::Firefox));
    v.push(("Firefox Developer Edition", "firefox-dev", BrowserFamily::Firefox));
    v.push(
        ("Firefox Developer Edition", "/usr/lib/firefox-devedition/firefox", BrowserFamily::Firefox),
    );
    v.push(
        (
            "Firefox Developer Edition",
            "/usr/lib/firefox-devedition/firefox-bin",
            BrowserFamily::Firefox,
        ),
    );
    v.push(("LibreWolf", "librewolf", BrowserFamily::Firefox));
    v.push(("Floorp", "floorp", BrowserFamily::Firefox));
    v.push(("Waterfox", "waterfox", BrowserFamily::Firefox));
    v.push(("Zen Browser", "zen-browser", BrowserFamily::Firefox));
    v.push(("Zen Browser", "zen", BrowserFamily::Firefox));
    assert(table_view(v@) =~= candidate_table());
    v
}

/// Flatpak candidates checked in preference order.
pub fn flatpak_candidates() -> (v: Vec<Candidate>)
    ensures
        table_view(v@) == flatpak_table(),
{
    let mut v: Vec<Candidate> = Vec::new();
    v.push(("Brave (Flatpak)", "com.brave.Browser", BrowserFamily::Chromium));
    v.push(("Chrome (Flatpak)", "com.google.Chrome", BrowserFamily::Chromium));
    v.push(("Chromium (Flatpak)", "org.chromium.Chromium", BrowserFamily::Chromium));
    v.push(("Edge (Flatpak)", "com.microsoft.Edge", BrowserFamily::Chromium));
    v.push(("Firefox (Flatpak)", "org.mozilla.firefox", BrowserFamily::Firefox));
    v.push(("LibreWolf (Flatpak)", "io.gitlab.librewolf-community", BrowserFamily::Firefox));
    v.push(("Zen (Flatpak)", "app.zen_browser.zen", BrowserFamily::Firefox));
    assert(table_view(v@) =~= flatpak_table());
    v
}

// ---------------------------------------------------------------------------
// Where a binary may live
// ---------------------------------------------------------------------------

/// Names that may resolve inside a Firefox Developer Edition install directory (a plain
/// `firefox` must not, or it would resolve to the Developer Edition binary).
pub open spec fn is_devedition_name(bin: Seq<char>) -> bool {
    let l = ascii_lower(bin);
    contains(l, "devedition"@) || contains(l, "developer"@) || l == "firefox-dev"@ || l
        == "firefox-bin"@
}

pub open spec fn devedition_dir_probes(dir: Seq<char>, bin: Seq<char>) -> Seq<Seq<char>> {
    seq![
        path_join(dir, bin),
        path_join(dir, "firefox-devedition"@),
        path_join(dir, "firefox-bin"@),
        path_join(dir, "firefox"@),
    ]
}

/// Paths to probe, in order, for the binary `bin`; `path_dirs` are the entries of `$PATH`
/// (`None` when it is not set). The first executable one is the binary.
pub open spec fn which_candidates_spec(bin: Seq<char>, path_dirs: Option<Seq<Seq<char>>>) -> Seq<
    Seq<char>,
> {
    if bin.len() > 0 && bin[0] == '/' {
        seq![bin]
    } else {
        match path_dirs {
            None => seq![],
            Some(dirs) => dirs.map_values(|d: Seq<char>| path_join(d, bin)) + seq![
                path_join("/usr/bin"@, bin),
                path_join("/usr/local/bin"@, bin),
                path_join("/snap/bin"@, bin),
            ] + if is_devedition_name(bin) {
                devedition_dir_probes("/usr/lib/firefox-devedition"@, bin)
                    + devedition_dir_probes("/usr/lib/firefox-developer-edition"@, bin)
                    + devedition_dir_probes("/opt/firefox-devedition"@, bin)
            } else {
                seq![]
            },
        }
    }
}

/// A plain `firefox` is looked for only in `$PATH` and the common binary directories,
/// never inside a Developer Edition install directory.
pub proof fn law_plain_firefox_not_devedition(path_dirs: Seq<Seq<char>>)
    ensures
        which_candidates_spec("firefox"@, Some(path_dirs)) == path_dirs.map_values(
            |d: Seq<char>| path_join(d, "firefox"@),
        ) + seq![
            path_join("/usr/bin"@, "firefox"@),
            path_join("/usr/local/bin"@, "firefox"@),
            path_join("/snap/bin"@, "firefox"@),
        ],
{
    reveal_strlit("firefox");
    reveal_strlit("devedition");
    reveal_strlit("developer");
    reveal_strlit("firefox-dev");
    reveal_strlit("firefox-bin");
    let l = ascii_lower("firefox"@);
    assert(l =~= "firefox"@);
    assert(!contains(l, "devedition"@));
    assert(!contains(l, "developer"@));
    assert(l != "firefox-dev"@ && l != "firefox-bin"@) by {
        assert(l.len() != "firefox-dev"@.len());
    }
    assert(!is_devedition_name("firefox"@));
    let base = path_dirs.map_values(|d: Seq<char>| path_join(d, "firefox"@)) + seq![
        path_join("/usr/bin"@, "firefox"@),
        path_join("/usr/local/bin"@, "firefox"@),
        path_join("/snap/bin"@, "firefox"@),
    ];
    assert(base + Seq::<Seq<char>>::empty() =~= base);
}

fn push_join(v: &mut Vec<String>, dir: &str, name: &str)
    ensures
        views(final(v)@) == views(old(v)@).push(path_join(dir@, name@)),
{
    let p = path_join_exec(dir, name);
    v.push(p);
    assert(views(v@) =~= views(old(v)@).push(path_join(dir@, name@)));
}

fn push_devedition_probes(v: &mut Vec<String>, dir: &str, bin: &str)
    ensures
        views(final(v)@) == views(old(v)@) + devedition_dir_probes(dir@, bin@),
{
    push_join(v, dir, bin);
    push_join(v, dir, "firefox-devedition");
    push_join(v, dir, "firefox-bin");
    push_join(v, dir, "firefox");
    assert(views(v@) =~= views(old(v)@) + devedition_dir_probes(dir@, bin@));
}

/// Paths to probe, in order, for the binary `bin` (see `which_candidates_spec`).
pub fn which_candidates(bin: &str, path_dirs: Option<Vec<String>>) -> (r: Vec<String>)
    ensures
        views(r@) == which_candidates_spec(
            bin@,
            match path_dirs {
                Some(d) => Some(views(d@)),
                None => None,
            },
        ),
{
    let b = chars_of(bin);
    let mut r: Vec<String> = Vec::new();
    if b.len() > 0 && b[0] == '/' {
        r.push(string_of(&b));
        assert(views(r@) =~= seq![bin@]);
        return r;
    }
    let dirs = match path_dirs {
        None => {
            assert(views(r@) =~= Seq::<Seq<char>>::empty());
            return r;
        },
        Some(d) => d,
    };
    let ghost dv = views(dirs@);
    let mut i: usize = 0;
    while i < dirs.len()
        invariant
            i <= dirs.len(),
            dv == views(dirs@),
            views(r@) =~= dv.take(i as int).map_values(|d: Seq<char>| path_join(d, bin@)),
        decreases dirs.len() - i,
    {
        push_join(&mut r, dirs[i].as_str(), bin);
        i += 1;
        assert(dv.take(i as int) =~= dv.take(i - 1).push(dv[i - 1]));
    }
    assert(dv.take(dirs.len() as int) =~= dv);
    push_join(&mut r, "/usr/bin", bin);
    push_join(&mut r, "/usr/local/bin", bin);
    push_join(&mut r, "/snap/bin", bin);
    let ghost before_dev = views(r@);
    let l = ascii_lower_chars(&b);
    let dev = contains_chars(&l, &chars_of("devedition")) || contains_chars(
        &l,
        &chars_of("developer"),
    ) || eq_chars(&l, &chars_of("firefox-dev")) || eq_chars(&l, &chars_of("firefox-bin"));
    if dev {
        push_devedition_probes(&mut r, "/usr/lib/firefox-devedition", bin);
        push_devedition_probes(&mut r, "/usr/lib/firefox-developer-edition", bin);
        push_devedition_probes(&mut r, "/opt/firefox-devedition", bin);
    }
    r
}

/// Whether a file with Unix permission bits `mode` can be run: some execute bit (owner,
/// group or others) is set.
pub fn executable_mode(mode: u32) -> (r: bool)
    ensures
        r == (mode & 0o111u32 != 0),
{
    mode & 0o111 != 0
}

/// Where a Flatpak browser's launcher may be exported, in probing order.
pub open spec fn flatpak_export_candidates_spec(home: Seq<char>, app_id: Seq<char>) -> Seq<
    Seq<char>,
> {
    seq![
        path_join(path_join(home, ".local/share/flatpak/exports/bin"@), app_id),
        path_join("/var/lib/flatpak/exports/bin"@, app_id),
    ]
}

/// Where a Flatpak browser's launcher may be exported, in probing order.
pub fn flatpak_export_candidates(home: &str, app_id: &str) -> (r: Vec<String>)
    ensures
        views(r@) == flatpak_export_candidates_spec(home@, app_id@),
{
    let user = path_join_exec(home, ".local/share/flatpak/exports/bin");
    let mut r: Vec<String> = Vec::new();
    push_join(&mut r, user.as_str(), app_id);
    push_join(&mut r, "/var/lib/flatpak/exports/bin", app_id);
    assert(views(r@) =~= flatpak_export_candidates_spec(home@, app_id@));
    r
}

/// Where the desktop file `desktop_id` may be, in search order; `local_base` is the user's
/// XDG data directory, if known.
pub open spec fn desktop_file_candidates_spec(
    local_base: Option<Seq<char>>,
    desktop_id: Seq<char>,
) -> Seq<Seq<char>> {
    let system = seq![
        path_join("/usr/share/applications"@, desktop_id),
        path_join("/usr/local/share/applications"@, desktop_id),
    ];
    match local_base {
        Some(b) => seq![path_join(applications_dir_spec(b), desktop_id)] + system,
        None => system,
    }
}

/// Where the desktop file `desktop_id` may be, in search order.
pub fn desktop_file_candidates(local_base: Option<&str>, desktop_id: &str) -> (r: Vec<String>)
    ensures
        views(r@) == desktop_file_candidates_spec(
            match local_base {
                Some(b) => Some(b@),
                None => None,
            },
            desktop_id@,
        ),
{
    let mut r: Vec<String> = Vec::new();
    if let Some(b) = local_base {
        let apps = crate::paths::applications_dir_in(b);
        push_join(&mut r, apps.as_str(), desktop_id);
    }
    push_join(&mut r, "/usr/share/applications", desktop_id);
    push_join(&mut r, "/usr/local/share/applications", desktop_id);
    assert(views(r@) =~= desktop_file_candidates_spec(
        match local_base {
            Some(b) => Some(b@),
            None => None,
        },
        desktop_id@,
    ));
    r
}

// ---------------------------------------------------------------------------
// The default browser
// ---------------------------------------------------------------------------

/// Index of the first whitespace character of `s`, or `s.len()`.
pub open spec fn first_ws(s: Seq<char>) -> int
    decreases s.len(),
{
    if s.len() == 0 {
        0
    } else if is_ws(s[0]) {
        0
    } else {
        1 + first_ws(s.drop_first())
    }
}

/// `str::trim_end_matches(c)` for a single character.
pub open spec fn trim_end_char(s: Seq<char>, c: char) -> Seq<char>
    decreases s.len(),
{
    if s.len() > 0 && s.last() == c {
        trim_end_char(s.drop_last(), c)
    } else {
        s
    }
}

/// First token of a desktop `Exec=` line: the quoted text when the line starts with a
/// quote (`None` if the quote is not closed), else the first whitespace-separated word
/// with surrounding quotes removed.
pub open spec fn exec_first_token_spec(line: Seq<char>) -> Option<Seq<char>> {
    let t = trim(line);
    if t.len() == 0 {
        None
    } else if t[0] == '"' {
        let rest = t.drop_first();
        let k = first_index(rest, '"');
        if k < rest.len() {
            Some(rest.take(k))
        } else {
            None
        }
    } else {
        Some(crate::text::trim_start_char(trim_end_char(t.take(first_ws(t)), '"'), '"'))
    }
}

proof fn lemma_first_ws_unique(s: Seq<char>, k: int)
    requires
        0 <= k <= s.len(),
        forall|j: int| 0 <= j < k ==> !is_ws(s[j]),
        k < s.len() ==> is_ws(s[k]),
    ensures
        first_ws(s) == k,
    decreases k,
{
    if k > 0 {
        lemma_first_ws_unique(s.drop_first(), k - 1);
    }
}

/// First token of a desktop `Exec=` line (handles quoting).
pub fn exec_first_token(line: &str) -> (r: Option<String>)
    ensures
        match r {
            Some(s) => exec_first_token_spec(line@) == Some(s@),
            None => exec_first_token_spec(line@) is None,
        },
{
    let t = trim_chars(&chars_of(line));
    if t.len() == 0 {
        return None;
    }
    if t[0] == '"' {
        let k = first_index_exec(&t, 1, '"');
        proof {
            assert(t@.skip(1) =~= t@.drop_first());
        }
        if k >= t.len() {
            return None;
        }
        let tok = slice_chars(&t, 1, k);
        assert(tok@ =~= t@.drop_first().take(k - 1));
        return Some(string_of(&tok));
    }
    let mut e: usize = 0;
    while e < t.len() && !is_ws_exec(t[e])
        invariant
            e <= t.len(),
            forall|j: int| 0 <= j < e ==> !is_ws(t@[j]),
        decreases t.len() - e,
    {
        e += 1;
    }
    proof {
        lemma_first_ws_unique(t@, e as int);
    }
    let word = slice_chars(&t, 0, e);
    assert(word@ =~= t@.take(e as int));
    let mut hi: usize = e;
    assert(word@.take(e as int) =~= word@);
    while hi > 0 && word[hi - 1] == '"'
        invariant
            hi <= e,
            word.len() == e,
            trim_end_char(word@, '"') == trim_end_char(word@.take(hi as int), '"'),
        decreases hi,
    {
        proof {
            assert(word@.take(hi as int).drop_last() =~= word@.take(hi - 1));
        }
        hi -= 1;
    }
    let ghost w = word@.take(hi as int);
    assert(w.len() == 0 || w.last() != '"');
    let mut lo: usize = 0;
    assert(w.skip(0) =~= w);
    while lo < hi && word[lo] == '"'
        invariant
            lo <= hi <= e,
            word.len() == e,
            w == word@.take(hi as int),
            crate::text::trim_start_char(w, '"') == crate::text::trim_start_char(
                w.skip(lo as int),
                '"',
            ),
        decreases hi - lo,
    {
        proof {
            assert(w.skip(lo as int).drop_first() =~= w.skip(lo + 1));
        }
        lo += 1;
    }
    let tok = slice_chars(&word, lo, hi);
    assert(tok@ =~= w.skip(lo as int));
    Some(string_of(&tok))
}

/// Firefox-family markers looked for in a browser's name and path.
pub open spec fn family_key_is_firefox(key: Seq<char>) -> bool {
    contains(key, "firefox"@) || contains(key, "librewolf"@) || contains(key, "waterfox"@)
        || contains(key, "floorp"@) || contains(key, "zen"@) || contains(key, "devedition"@)
        || contains(key, "developer"@)
}

pub open spec fn family_from_name_and_path_spec(name: Seq<char>, path: Seq<char>) -> BrowserFamily {
    if family_key_is_firefox(ascii_lower(name) + " "@ + ascii_lower(path)) {
        BrowserFamily::Firefox
    } else {
        BrowserFamily::Chromium
    }
}

fn concat_space(a: &Vec<char>, b: &Vec<char>) -> (r: Vec<char>)
    ensures
        r@ == a@ + " "@ + b@,
{
    let mut r = slice_chars(a, 0, a.len());
    r.push(' ');
    let mut i: usize = 0;
    proof {
        reveal_strlit(" ");
        assert(b@.take(0) =~= Seq::<char>::empty());
    }
    while i < b.len()
        invariant
            i <= b.len(),
            r@ =~= a@ + " "@ + b@.take(i as int),
        decreases b.len() - i,
    {
        proof {
            reveal_strlit(" ");
        }
        r.push(b[i]);
        i += 1;
        assert(b@.take(i as int) =~= b@.take(i - 1).push(b@[i - 1]));
    }
    assert(b@.take(b.len() as int) =~= b@);
    r
}

/// The family of a browser known by display name and executable path.
pub fn family_from_name_and_path(name: &str, path: &str) -> (r: BrowserFamily)
    ensures
        r == family_from_name_and_path_spec(name@, path@),
{
    let n = ascii_lower_chars(&chars_of(name));
    let p = ascii_lower_chars(&chars_of(path));
    let key = concat_space(&n, &p);
    if contains_chars(&key, &chars_of("firefox")) || contains_chars(&key, &chars_of("librewolf"))
        || contains_chars(&key, &chars_of("waterfox")) || contains_chars(
        &key,
        &chars_of("floorp"),
    ) || contains_chars(&key, &chars_of("zen")) || contains_chars(
        &key,
        &chars_of("devedition"),
    ) || contains_chars(&key, &chars_of("developer")) {
        BrowserFamily::Firefox
    } else {
        BrowserFamily::Chromium
    }
}

/// A marker found in the lower-cased name, or in the lower-cased path, is found in the
/// text that joins them with a space.
proof fn lemma_contains_in_joined(a: Seq<char>, b: Seq<char>, m: Seq<char>)
    requires
        contains(a, m) || contains(b, m),
    ensures
        contains(a + " "@ + b, m),
{
    let k = a + " "@ + b;
    if contains(a, m) {
        let i = choose|i: int| matches_at(a, m, i);
        assert(k.subrange(i, i + m.len()) =~= a.subrange(i, i + m.len()));
        assert(matches_at(k, m, i));
    } else {
        let j = choose|j: int| matches_at(b, m, j);
        let off = a.len() + " "@.len();
        assert(k.subrange(off + j, off + j + m.len()) =~= b.subrange(j, j + m.len()));
        assert(matches_at(k, m, off + j));
    }
}

/// A browser whose name or executable path names a Firefox-family browser (ignoring ASCII
/// case) is of the Firefox family: Firefox, LibreWolf, Waterfox, Floorp, Zen, or a
/// Developer Edition ("devedition", "developer").
pub proof fn law_firefox_family_by_marker(name: Seq<char>, path: Seq<char>)
    ensures
        contains(ascii_lower(name), "firefox"@) || contains(ascii_lower(path), "firefox"@)
            ==> family_from_name_and_path_spec(name, path) == BrowserFamily::Firefox,
        contains(ascii_lower(name), "librewolf"@) || contains(ascii_lower(path), "librewolf"@)
            ==> family_from_name_and_path_spec(name, path) == BrowserFamily::Firefox,
        contains(ascii_lower(name), "waterfox"@) || contains(ascii_lower(path), "waterfox"@)
            ==> family_from_name_and_path_spec(name, path) == BrowserFamily::Firefox,
        contains(ascii_lower(name), "floorp"@) || contains(ascii_lower(path), "floorp"@)
            ==> family_from_name_and_path_spec(name, path) == BrowserFamily::Firefox,
        contains(ascii_lower(name), "zen"@) || contains(ascii_lower(path), "zen"@)
            ==> family_from_name_and_path_spec(name, path) == BrowserFamily::Firefox,
        contains(ascii_lower(name), "devedition"@) || contains(ascii_lower(path), "devedition"@)
            ==> family_from_name_and_path_spec(name, path) == BrowserFamily::Firefox,
        contains(ascii_lower(name), "developer"@) || contains(ascii_lower(path), "developer"@)
            ==> family_from_name_and_path_spec(name, path) == BrowserFamily::Firefox,
        ({
            let key = ascii_lower(name) + " "@ + ascii_lower(path);
            &&& !contains(key, "firefox"@)
            &&& !contains(key, "librewolf"@)
            &&& !contains(key, "waterfox"@)
            &&& !contains(key, "floorp"@)
            &&& !contains(key, "zen"@)
            &&& !contains(key, "devedition"@)
            &&& !contains(key, "developer"@)
        }) ==> family_from_name_and_path_spec(name, path) == BrowserFamily::Chromium,
{
    let n = ascii_lower(name);
    let p = ascii_lower(path);
    if contains(n, "firefox"@) || contains(p, "firefox"@) {
        lemma_contains_in_joined(n, p, "firefox"@);
    }
    if contains(n, "librewolf"@) || contains(p, "librewolf"@) {
        lemma_contains_in_joined(n, p, "librewolf"@);
    }
    if contains(n, "waterfox"@) || contains(p, "waterfox"@) {
        lemma_contains_in_joined(n, p, "waterfox"@);
    }
    if contains(n, "floorp"@) || contains(p, "floorp"@) {
        lemma_contains_in_joined(n, p, "floorp"@);
    }
    if contains(n, "zen"@) || contains(p, "zen"@) {
        lemma_contains_in_joined(n, p, "zen"@);
    }
    if contains(n, "devedition"@) || contains(p, "devedition"@) {
        lemma_contains_in_joined(n, p, "devedition"@);
    }
    if contains(n, "developer"@) || contains(p, "developer"@) {
        lemma_contains_in_joined(n, p, "developer"@);
    }
}

/// What has been read of a browser's desktop file so far.
pub ghost struct NameExecScan {
    pub name: Option<Seq<char>>,
    pub command: Option<Seq<char>>,
    pub in_entry: bool,
    pub done: bool,
}

pub open spec fn scan_start() -> NameExecScan {
    NameExecScan { name: None, command: None, in_entry: false, done: false }
}

/// One line of a browser's desktop file: only the first `[Desktop Entry]` group counts
/// (files without a group header are read too); the first non-localised `Name=` and the
/// first `Exec=` are kept.
pub open spec fn scan_step(st: NameExecScan, raw: Seq<char>) -> NameExecScan {
    let line = trim(raw);
    if st.done {
        st
    } else if line == "[Desktop Entry]"@ {
        NameExecScan { in_entry: true, ..st }
    } else if line.len() > 0 && line[0] == '[' {
        if st.in_entry {
            NameExecScan { done: true, ..st }
        } else {
            st
        }
    } else {
        let in_entry = if !st.in_entry && st.name is None && st.command is None {
            true
        } else {
            st.in_entry
        };
        if starts_with(line, "Name="@) {
            let rest = line.skip("Name="@.len() as int);
            NameExecScan {
                in_entry,
                name: if st.name is None && !rest.contains('[') {
                    Some(rest)
                } else {
                    st.name
                },
                ..st
            }
        } else if starts_with(line, "Exec="@) {
            let rest = line.skip("Exec="@.len() as int);
            NameExecScan {
                in_entry,
                command: if st.command is None {
                    Some(rest)
                } else {
                    st.command
                },
                ..st
            }
        } else {
            NameExecScan { in_entry, ..st }
        }
    }
}

pub open spec fn scan_lines(st: NameExecScan, ls: Seq<Seq<char>>) -> NameExecScan
    decreases ls.len(),
{
    if ls.len() == 0 {
        st
    } else {
        scan_lines(scan_step(st, ls[0]), ls.drop_first())
    }
}

/// The display name (default `Browser`) and `Exec=` line of a browser's desktop file.
pub open spec fn parse_desktop_name_and_exec_spec(text: Seq<char>) -> Option<(Seq<char>, Seq<char>)> {
    let st = scan_lines(scan_start(), lines(text));
    match st.command {
        Some(e) => Some(
            (
                match st.name {
                    Some(n) => n,
                    None => "Browser"@,
                },
                e,
            ),
        ),
        None => None,
    }
}

proof fn lemma_scan_done(st: NameExecScan, ls: Seq<Seq<char>>)
    requires
        st.done,
    ensures
        scan_lines(st, ls) == st,
    decreases ls.len(),
{
    if ls.len() > 0 {
        lemma_scan_done(scan_step(st, ls[0]), ls.drop_first());
    }
}

pub open spec fn ov(o: Option<Vec<char>>) -> Option<Seq<char>> {
    match o {
        Some(v) => Some(v@),
        None => None,
    }
}

pub open spec fn scan_state(
    name: Option<Seq<char>>,
    command: Option<Seq<char>>,
    in_entry: bool,
    done: bool,
) -> NameExecScan {
    NameExecScan { name, command, in_entry, done }
}

/// The display name and `Exec=` line of a browser's desktop file.
pub fn parse_desktop_name_and_exec(text: &str) -> (r: Option<(String, String)>)
    ensures
        match r {
            Some((n, e)) => parse_desktop_name_and_exec_spec(text@) == Some((n@, e@)),
            None => parse_desktop_name_and_exec_spec(text@) is None,
        },
{
    let ls = lines_chars(&chars_of(text));
    let ghost all = vec_views(ls@);
    let header = chars_of("[Desktop Entry]");
    let name_key = chars_of("Name=");
    let exec_key = chars_of("Exec=");
    let mut name: Option<Vec<char>> = None;
    let mut command: Option<Vec<char>> = None;
    let mut in_entry = false;
    let mut i: usize = 0;
    assert(all.skip(0) =~= all);
    while i < ls.len()
        invariant_except_break
            i <= ls.len(),
            all == vec_views(ls@),
            all == lines(text@),
            header@ == "[Desktop Entry]"@,
            name_key@ == "Name="@,
            exec_key@ == "Exec="@,
            scan_lines(scan_start(), all) == scan_lines(
                scan_state(ov(name), ov(command), in_entry, false),
                all.skip(i as int),
            ),
        ensures
            scan_lines(scan_start(), lines(text@)) == scan_state(
                ov(name),
                ov(command),
                in_entry,
                scan_lines(scan_start(), lines(text@)).done,
            ),
        decreases ls.len() - i,
    {
        let ghost st = scan_state(ov(name), ov(command), in_entry, false);
        let ghost raw = all[i as int];
        proof {
            assert(all.skip(i as int)[0] == raw);
            assert(all.skip(i as int).drop_first() =~= all.skip(i + 1));
        }
        let line = trim_chars(&ls[i]);
        if eq_chars(&line, &header) {
            in_entry = true;
            i += 1;
            continue;
        }
        if line.len() > 0 && line[0] == '[' {
            if in_entry {
                proof {
                    lemma_scan_done(scan_step(st, raw), all.skip(i + 1));
                }
                break;
            }
            i += 1;
            continue;
        }
        if !in_entry && name.is_none() && command.is_none() {
            in_entry = true;
        }
        if starts_with_chars(&line, &name_key) {
            let rest = slice_chars(&line, name_key.len(), line.len());
            assert(rest@ =~= line@.skip("Name="@.len() as int));
            if name.is_none() && !has_char(&rest, '[') {
                name = Some(rest);
            }
        } else if starts_with_chars(&line, &exec_key) {
            let rest = slice_chars(&line, exec_key.len(), line.len());
            assert(rest@ =~= line@.skip("Exec="@.len() as int));
            if command.is_none() {
                command = Some(rest);
            }
        }
        i += 1;
    }
    proof {
        if i == ls.len() {
            assert(all.skip(i as int) =~= Seq::<Seq<char>>::empty());
        }
    }
    match command {
        Some(e) => {
            let n = match name {
                Some(n) => string_of(&n),
                None => String::from_str("Browser"),
            };
            Some((n, string_of(&e)))
        },
        None => None,
    }
}

/// The desktop id that `xdg-settings get default-web-browser` printed, if any.
pub open spec fn default_browser_id_spec(output: Seq<char>) -> Option<Seq<char>> {
    if trim(output).len() == 0 {
        None
    } else {
        Some(trim(output))
    }
}

/// The desktop id that `xdg-settings get default-web-browser` printed, if any.
pub fn default_browser_id(output: &str) -> (r: Option<String>)
    ensures
        match r {
            Some(s) => default_browser_id_spec(output@) == Some(s@),
            None => default_browser_id_spec(output@) is None,
        },
{
    let t = trim_chars(&chars_of(output));
    if t.len() == 0 {
        None
    } else {
        Some(string_of(&t))
    }
}

/// The entry for the system default browser: a stable label `Default browser (…)` so that
/// repair can still match it by name.
pub open spec fn default_browser_spec(pretty_name: Seq<char>, exec_path: Seq<char>) -> BrowserView {
    BrowserView {
        name: "Default browser ("@ + pretty_name + ")"@,
        exec_path,
        family: family_from_name_and_path_spec(pretty_name, exec_path),
    }
}

/// The entry for the system default browser.
pub fn default_browser(pretty_name: &str, exec_path: &str) -> (r: Browser)
    ensures
        r@ == default_browser_spec(pretty_name@, exec_path@),
{
    let mut name = String::from_str("Default browser (");
    name.append(pretty_name);
    name.append(")");
    let family = family_from_name_and_path(pretty_name, exec_path);
    Browser { name, exec_path: String::from_str(exec_path), family }
}

// ---------------------------------------------------------------------------
// The list of browsers
// ---------------------------------------------------------------------------

pub open spec fn browser_views(v: Seq<Browser>) -> Seq<BrowserView> {
    v.map_values(|b: Browser| b@)
}

pub open spec fn opt_views(v: Seq<Option<String>>) -> Seq<Option<Seq<char>>> {
    v.map_values(
        |o: Option<String>|
            match o {
                Some(s) => Some(s@),
                None => None,
            },
    )
}

pub open spec fn names(bs: Seq<BrowserView>) -> Seq<Seq<char>> {
    bs.map_values(|b: BrowserView| b.name)
}

/// `b` joins the list unless a browser of the same display name is already listed.
pub open spec fn add_unique(acc: Seq<BrowserView>, b: BrowserView) -> Seq<BrowserView> {
    if names(acc).contains(b.name) {
        acc
    } else {
        acc.push(b)
    }
}

/// The list after the first `n` rows of `table`, whose probes found the paths `paths`.
pub open spec fn collect(
    acc: Seq<BrowserView>,
    table: Seq<(Seq<char>, Seq<char>, BrowserFamily)>,
    paths: Seq<Option<Seq<char>>>,
    n: nat,
) -> Seq<BrowserView>
    decreases n,
{
    if n == 0 {
        acc
    } else {
        let a = collect(acc, table, paths, (n - 1) as nat);
        match paths[n - 1] {
            Some(p) => add_unique(
                a,
                BrowserView { name: table[n - 1].0, exec_path: p, family: table[n - 1].2 },
            ),
            None => a,
        }
    }
}

/// Installed browsers, de-duplicated by display name (first match wins), with the system
/// default browser (when resolved) first; `native[i]` / `flatpak[i]` are what probing the
/// `i`-th row of the candidate tables found.
pub open spec fn detect_spec(
    default: Option<BrowserView>,
    native: Seq<Option<Seq<char>>>,
    flatpak: Seq<Option<Seq<char>>>,
) -> Seq<BrowserView> {
    let start = match default {
        Some(d) => seq![d],
        None => seq![],
    };
    collect(
        collect(start, candidate_table(), native, native.len()),
        flatpak_table(),
        flatpak,
        flatpak.len(),
    )
}

/// Whether a browser named `name` is listed in `out`.
fn has_name(out: &Vec<Browser>, name: &Vec<char>) -> (r: bool)
    ensures
        r == names(browser_views(out@)).contains(name@),
{
    let ghost ns = names(browser_views(out@));
    let mut j: usize = 0;
    while j < out.len()
        invariant
            j <= out.len(),
            ns == names(browser_views(out@)),
            ns.len() == out.len(),
            forall|k: int| 0 <= k < j ==> ns[k] != name@,
        decreases out.len() - j,
    {
        let n = chars_of(out[j].name.as_str());
        if eq_chars(&n, name) {
            assert(ns[j as int] == name@);
            return true;
        }
        j += 1;
    }
    false
}

fn collect_into(out: &mut Vec<Browser>, table: &Vec<Candidate>, paths: &Vec<Option<String>>)
    requires
        table.len() == paths.len(),
    ensures
        browser_views(final(out)@) == collect(
            browser_views(old(out)@),
            table_view(table@),
            opt_views(paths@),
            paths.len() as nat,
        ),
{
    let ghost start = browser_views(out@);
    let ghost tv = table_view(table@);
    let ghost pv = opt_views(paths@);
    let mut i: usize = 0;
    while i < paths.len()
        invariant
            i <= paths.len(),
            table.len() == paths.len(),
            tv == table_view(table@),
            pv == opt_views(paths@),
            browser_views(out@) == collect(start, tv, pv, i as nat),
        decreases paths.len() - i,
    {
        let ghost prev = browser_views(out@);
        match &paths[i] {
            Some(p) => {
                let (name, _bin, family) = table[i];
                let n = chars_of(name);
                if !has_name(out, &n) {
                    out.push(
                        Browser {
                            name: String::from_str(name),
                            exec_path: p.clone(),
                            family,
                        },
                    );
                    assert(browser_views(out@) =~= prev.push(
                        BrowserView { name: tv[i as int].0, exec_path: pv[i as int]->0, family },
                    ));
                }
            },
            None => {},
        }
        i += 1;
    }
}

/// Installed browsers, de-duplicated by display name (first match wins), with the system
/// default browser first; `native[i]` and `flatpak[i]` are the paths that probing the rows
/// of `candidates()` and `flatpak_candidates()` found.
pub fn detect_browsers(
    default: Option<Browser>,
    native: Vec<Option<String>>,
    flatpak: Vec<Option<String>>,
) -> (r: Vec<Browser>)
    requires
        native.len() == candidate_table().len(),
        flatpak.len() == flatpak_table().len(),
    ensures
        browser_views(r@) == detect_spec(
            match default {
                Some(d) => Some(d@),
                None => None,
            },
            opt_views(native@),
            opt_views(flatpak@),
        ),
{
    let mut out: Vec<Browser> = Vec::new();
    match default {
        Some(d) => {
            out.push(d);
        },
        None => {},
    }
    assert(browser_views(out@) =~= match default {
        Some(d) => seq![d@],
        None => Seq::<BrowserView>::empty(),
    });
    let table = candidates();
    collect_into(&mut out, &table, &native);
    let ftable = flatpak_candidates();
    collect_into(&mut out, &ftable, &flatpak);
    out
}

/// Pairwise distinct display names.
pub open spec fn unique_names(bs: Seq<BrowserView>) -> bool {
    forall|i: int, j: int| 0 <= i < j < bs.len() ==> bs[i].name != bs[j].name
}

proof fn lemma_collect_unique(
    acc: Seq<BrowserView>,
    table: Seq<(Seq<char>, Seq<char>, BrowserFamily)>,
    paths: Seq<Option<Seq<char>>>,
    n: nat,
)
    requires
        unique_names(acc),
        n <= paths.len(),
        n <= table.len(),
    ensures
        unique_names(collect(acc, table, paths, n)),
        acc.is_prefix_of(collect(acc, table, paths, n)),
    decreases n,
{
    if n > 0 {
        lemma_collect_unique(acc, table, paths, (n - 1) as nat);
        let a = collect(acc, table, paths, (n - 1) as nat);
        match paths[n - 1] {
            Some(p) => {
                let b = BrowserView { name: table[n - 1].0, exec_path: p, family: table[n - 1].2 };
                if !names(a).contains(b.name) {
                    let r = a.push(b);
                    assert forall|i: int, j: int| 0 <= i < j < r.len() implies r[i].name
                        != r[j].name by {
                        if j == a.len() {
                            assert(names(a)[i] == a[i].name);
                        }
                    }
                }
            },
            None => {},
        }
    }
}

proof fn lemma_collect_complete(
    acc: Seq<BrowserView>,
    table: Seq<(Seq<char>, Seq<char>, BrowserFamily)>,
    paths: Seq<Option<Seq<char>>>,
    n: nat,
    k: int,
)
    requires
        n <= paths.len(),
        n <= table.len(),
        0 <= k < n,
        paths[k] is Some,
    ensures
        names(collect(acc, table, paths, n)).contains(table[k].0),
    decreases n,
{
    let a = collect(acc, table, paths, (n - 1) as nat);
    if k < n - 1 {
        lemma_collect_complete(acc, table, paths, (n - 1) as nat, k);
        let w = choose|w: int| 0 <= w < names(a).len() && names(a)[w] == table[k].0;
        match paths[n - 1] {
            Some(p) => {
                let b = BrowserView { name: table[n - 1].0, exec_path: p, family: table[n - 1].2 };
                if !names(a).contains(b.name) {
                    assert(names(a.push(b))[w] == table[k].0);
                }
            },
            None => {},
        }
    } else {
        let b = BrowserView { name: table[k].0, exec_path: paths[k]->0, family: table[k].2 };
        if !names(a).contains(b.name) {
            assert(names(a.push(b))[a.len() as int] == table[k].0);
        }
    }
}

/// The browser list names each browser once, starts with the system default browser when
/// one was resolved, and names every candidate whose probe found a binary.
pub proof fn law_detected_browsers(
    default: Option<BrowserView>,
    native: Seq<Option<Seq<char>>>,
    flatpak: Seq<Option<Seq<char>>>,
)
    requires
        native.len() == candidate_table().len(),
        flatpak.len() == flatpak_table().len(),
    ensures
        unique_names(detect_spec(default, native, flatpak)),
        default matches Some(d) ==> detect_spec(default, native, flatpak).len() > 0
            && detect_spec(default, native, flatpak)[0] == d,
        forall|k: int|
            0 <= k < native.len() && (#[trigger] native[k]) is Some ==> names(
                detect_spec(default, native, flatpak),
            ).contains(candidate_table()[k].0),
        forall|k: int|
            0 <= k < flatpak.len() && (#[trigger] flatpak[k]) is Some ==> names(
                detect_spec(default, native, flatpak),
            ).contains(flatpak_table()[k].0),
{
    let start = match default {
        Some(d) => seq![d],
        None => Seq::<BrowserView>::empty(),
    };
    let mid = collect(start, candidate_table(), native, native.len());
    lemma_collect_unique(start, candidate_table(), native, native.len());
    lemma_collect_unique(mid, flatpak_table(), flatpak, flatpak.len());
    assert forall|k: int|
        0 <= k < native.len() && (#[trigger] native[k]) is Some implies names(
        detect_spec(default, native, flatpak),
    ).contains(candidate_table()[k].0) by {
        lemma_collect_complete(start, candidate_table(), native, native.len(), k);
        let w = choose|w: int| 0 <= w < names(mid).len() && names(mid)[w] == candidate_table()[k].0;
        let fin = detect_spec(default, native, flatpak);
        assert(mid.is_prefix_of(fin));
        assert(names(fin)[w] == candidate_table()[k].0);
    }
    assert forall|k: int|
        0 <= k < flatpak.len() && (#[trigger] flatpak[k]) is Some implies names(
        detect_spec(default, native, flatpak),
    ).contains(flatpak_table()[k].0) by {
        lemma_collect_complete(mid, flatpak_table(), flatpak, flatpak.len(), k);
    }
    if default is Some {
        let fin = detect_spec(default, native, flatpak);
        assert(start.is_prefix_of(mid));
        assert(mid.is_prefix_of(fin));
        assert(start.len() == 1);
        assert(mid.len() >= 1 && mid.subrange(0, 1) =~= start);
        assert(mid[0] == mid.subrange(0, 1)[0]);
        assert(fin.len() >= mid.len() && fin.subrange(0, mid.len() as int) =~= mid);
        assert(fin[0] == fin.subrange(0, mid.len() as int)[0]);
    }
}

// ---------------------------------------------------------------------------
// Looking a browser up by name
// ---------------------------------------------------------------------------

/// Index of the first browser that satisfies `p`.
pub open spec fn first_where(bs: Seq<BrowserView>, p: spec_fn(BrowserView) -> bool) -> Option<int>
    decreases bs.len(),
{
    if bs.len() == 0 {
        None
    } else if p(bs[0]) {
        Some(0)
    } else {
        match first_where(bs.drop_first(), p) {
            Some(i) => Some(i + 1),
            None => None,
        }
    }
}

proof fn lemma_first_where(bs: Seq<BrowserView>, p: spec_fn(BrowserView) -> bool, r: Option<int>)
    requires
        match r {
            Some(i) => 0 <= i < bs.len() && p(bs[i]) && forall|j: int| 0 <= j < i ==> !p(bs[j]),
            None => forall|j: int| 0 <= j < bs.len() ==> !p(bs[j]),
        },
    ensures
        first_where(bs, p) == r,
    decreases bs.len(),
{
    if bs.len() > 0 && !p(bs[0]) {
        let r2 = match r {
            Some(i) => Some(i - 1),
            None => None,
        };
        assert forall|j: int| 0 <= j < bs.len() - 1 implies bs.drop_first()[j] == bs[j + 1] by {}
        lemma_first_where(bs.drop_first(), p, r2);
    }
}

/// The two names contain one another, ignoring ASCII case.
pub open spec fn names_related(a: Seq<char>, b: Seq<char>) -> bool {
    contains(ascii_lower(a), ascii_lower(b)) || contains(ascii_lower(b), ascii_lower(a))
}

/// Browsers of exactly this display name.
pub open spec fn is_named(name: Seq<char>) -> spec_fn(BrowserView) -> bool {
    |b: BrowserView| b.name == name
}

/// Browsers whose name contains or is contained in `name` (ignoring ASCII case).
pub open spec fn is_related(name: Seq<char>) -> spec_fn(BrowserView) -> bool {
    |b: BrowserView| names_related(name, b.name)
}

/// The browser of exactly this display name, else the first whose name contains or is
/// contained in it (ignoring ASCII case).
pub open spec fn browser_index_by_name(bs: Seq<BrowserView>, name: Seq<char>) -> Option<int> {
    match first_where(bs, is_named(name)) {
        Some(i) => Some(i),
        None => first_where(bs, is_related(name)),
    }
}

pub open spec fn opt_browser_view(o: Option<Browser>) -> Option<BrowserView> {
    match o {
        Some(b) => Some(b@),
        None => None,
    }
}

/// Index of the browser that the stored name `name` designates (see `browser_index_by_name`).
pub fn browser_index(browsers: &Vec<Browser>, name: &str) -> (r: Option<usize>)
    ensures
        match r {
            Some(i) => i < browsers.len() && browser_index_by_name(browser_views(browsers@), name@)
                == Some(i as int),
            None => browser_index_by_name(browser_views(browsers@), name@) is None,
        },
{
    let ghost bv = browser_views(browsers@);
    let n = chars_of(name);
    let mut i: usize = 0;
    while i < browsers.len()
        invariant
            i <= browsers.len(),
            bv == browser_views(browsers@),
            n@ == name@,
            forall|j: int| 0 <= j < i ==> !is_named(name@)(bv[j]),
        decreases browsers.len() - i,
    {
        proof {
            assert(bv[i as int] == browsers@[i as int]@);
            assert(is_named(name@)(bv[i as int]) == (browsers@[i as int].name@ == name@));
        }
        if eq_chars(&chars_of(browsers[i].name.as_str()), &n) {
            proof {
                lemma_first_where(bv, is_named(name@), Some(i as int));
            }
            return Some(i);
        }
        i += 1;
    }
    proof {
        lemma_first_where(bv, is_named(name@), None);
    }
    let ln = ascii_lower_chars(&n);
    let mut k: usize = 0;
    while k < browsers.len()
        invariant
            k <= browsers.len(),
            bv == browser_views(browsers@),
            ln@ == ascii_lower(name@),
            first_where(bv, is_named(name@)) is None,
            forall|j: int| 0 <= j < k ==> !is_related(name@)(bv[j]),
        decreases browsers.len() - k,
    {
        let lb = ascii_lower_chars(&chars_of(browsers[k].name.as_str()));
        proof {
            assert(bv[k as int] == browsers@[k as int]@);
            assert(is_related(name@)(bv[k as int]) == names_related(name@, browsers@[k as int].name@));
        }
        if contains_chars(&ln, &lb) || contains_chars(&lb, &ln) {
            proof {
                lemma_first_where(bv, is_related(name@), Some(k as int));
            }
            return Some(k);
        }
        k += 1;
    }
    proof {
        lemma_first_where(bv, is_related(name@), None);
    }
    None
}

/// The installed browser that the stored name `name` designates, if any.
pub fn resolve_browser_by_name(browsers: &Vec<Browser>, name: &str) -> (r: Option<Browser>)
    ensures
        opt_browser_view(r) == match browser_index_by_name(browser_views(browsers@), name@) {
            Some(i) => Some(browser_views(browsers@)[i]),
            None => None,
        },
{
    match browser_index(browsers, name) {
        Some(i) => Some(browsers[i].copy()),
        None => None,
    }
}

/// What `first_where` finds: the first browser that satisfies `p`, or none when none does.
proof fn lemma_first_where_first(bs: Seq<BrowserView>, p: spec_fn(BrowserView) -> bool)
    ensures
        match first_where(bs, p) {
            Some(i) => 0 <= i < bs.len() && p(bs[i]) && forall|k: int|
                0 <= k < i ==> !p(#[trigger] bs[k]),
            None => forall|k: int| 0 <= k < bs.len() ==> !p(#[trigger] bs[k]),
        },
    decreases bs.len(),
{
    if bs.len() > 0 && !p(bs[0]) {
        let t = bs.drop_first();
        lemma_first_where_first(t, p);
        assert forall|k: int| 1 <= k < bs.len() implies bs[k] == t[k - 1] by {}
        match first_where(t, p) {
            Some(i) => {
                assert forall|k: int| 0 <= k < i + 1 implies !p(#[trigger] bs[k]) by {
                    if k > 0 {
                        assert(bs[k] == t[k - 1]);
                    }
                }
            },
            None => {
                assert forall|k: int| 0 <= k < bs.len() implies !p(#[trigger] bs[k]) by {
                    if k > 0 {
                        assert(bs[k] == t[k - 1]);
                    }
                }
            },
        }
    }
}

/// Looking a browser up by the name stored in a launcher: when some browser bears exactly
/// that name, the first one that does is chosen, whatever other names contain it or are
/// contained in it; only when none does is the first browser chosen whose name contains,
/// or is contained in, the stored one (ignoring ASCII case), and none when there is no
/// such browser.
pub proof fn law_browser_lookup(bs: Seq<BrowserView>, name: Seq<char>)
    ensures
        (exists|j: int| 0 <= j < bs.len() && #[trigger] bs[j].name == name) ==> (
        browser_index_by_name(bs, name) matches Some(i) && 0 <= i < bs.len() && bs[i].name
            == name && forall|k: int| 0 <= k < i ==> #[trigger] bs[k].name != name),
        (forall|j: int| 0 <= j < bs.len() ==> #[trigger] bs[j].name != name) ==> match browser_index_by_name(bs, name) {
            Some(i) => 0 <= i < bs.len() && (contains(ascii_lower(name), ascii_lower(bs[i].name))
                || contains(ascii_lower(bs[i].name), ascii_lower(name))) && forall|k: int|
                0 <= k < i ==> !(contains(ascii_lower(name), ascii_lower(#[trigger] bs[k].name))
                || contains(ascii_lower(bs[k].name), ascii_lower(name))),
            None => forall|k: int|
                0 <= k < bs.len() ==> !(contains(ascii_lower(name), ascii_lower(#[trigger] bs[k].name))
                || contains(ascii_lower(bs[k].name), ascii_lower(name))),
        },
{
    lemma_first_where_first(bs, is_named(name));
    lemma_first_where_first(bs, is_related(name));
    if exists|j: int| 0 <= j < bs.len() && #[trigger] bs[j].name == name {
        let j = choose|j: int| 0 <= j < bs.len() && #[trigger] bs[j].name == name;
        assert(is_named(name)(bs[j]));
    }
}

/// The browser used to repair a web app: the one its stored name designates, else the
/// first installed browser.
pub open spec fn repair_browser_spec(bs: Seq<BrowserView>, name: Seq<char>) -> Option<BrowserView> {
    match browser_index_by_name(bs, name) {
        Some(i) => Some(bs[i]),
        None => if bs.len() > 0 {
            Some(bs[0])
        } else {
            None
        },
    }
}

/// The browser used to repair a web app whose launcher names `name`.
pub fn repair_browser(browsers: &Vec<Browser>, name: &str) -> (r: Option<Browser>)
    ensures
        opt_browser_view(r) == repair_browser_spec(browser_views(browsers@), name@),
{
    match browser_index(browsers, name) {
        Some(i) => Some(browsers[i].copy()),
        None => if browsers.len() > 0 {
            Some(browsers[0].copy())
        } else {
            None
        },
    }
}

} // verus!
