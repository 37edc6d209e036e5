//! XDG paths used by Mountie.
//!
//! Paths are strings. Every location lives under the user's XDG data directory (the
//! "base"); the `*_in` functions compute a location from a given base, and the functions
//! without the suffix ask the environment for the base first.
use vstd::prelude::*;

use crate::text::{
    chars_of, ends_with, eq_chars, push_chars, starts_with, starts_with_chars, string_of, vec_views,
    views,
};

verus! {

pub const APP_ID: &'static str = "com.voxelnorth.Mountie";

/// Tag written into new desktop files as `X-WebApp-Manager`.
pub const MANAGER_TAG: &'static str = "mountie";

/// Previous product id (Anchor), still recognised when listing and repairing apps.
pub const LEGACY_MANAGER_TAG_ANCHOR: &'static str = "anchor";

/// First product id, still recognised when listing and repairing apps.
pub const LEGACY_MANAGER_TAG_ZORIN: &'static str = "zorin-webapp-manager";

pub const DESKTOP_PREFIX: &'static str = "webapp-";

pub const DESKTOP_SUFFIX: &'static str = ".desktop";

/// The XDG data directory could not be resolved.
#[derive(Debug, Clone, Copy, PartialEq, Eq, Structural)]
pub enum PathError {
    NoDataDir,
}

/// Tags of desktop files that this manager owns.
pub open spec fn is_manager_tag_spec(tag: Seq<char>) -> bool {
    tag == MANAGER_TAG@ || tag == LEGACY_MANAGER_TAG_ANCHOR@ || tag == LEGACY_MANAGER_TAG_ZORIN@
}

/// `Path::join` on Unix: an absolute `p` replaces `base`; otherwise a `/` separates them
/// unless `base` is empty or already ends with one.
pub open spec fn path_join(base: Seq<char>, p: Seq<char>) -> Seq<char> {
    if p.len() > 0 && p[0] == '/' {
        p
    } else if base.len() == 0 || base.last() == '/' {
        base + p
    } else {
        base.push('/') + p
    }
}

pub open spec fn data_dir_spec(base: Seq<char>) -> Seq<char> {
    path_join(base, MANAGER_TAG@)
}

pub open spec fn legacy_anchor_data_dir_spec(base: Seq<char>) -> Seq<char> {
    path_join(base, LEGACY_MANAGER_TAG_ANCHOR@)
}

pub open spec fn legacy_data_dir_spec(base: Seq<char>) -> Seq<char> {
    path_join(base, LEGACY_MANAGER_TAG_ZORIN@)
}

pub open spec fn icons_dir_spec(base: Seq<char>) -> Seq<char> {
    path_join(data_dir_spec(base), "icons"@)
}

pub open spec fn chromium_profiles_dir_spec(base: Seq<char>) -> Seq<char> {
    path_join(data_dir_spec(base), "profiles"@)
}

pub open spec fn firefox_profiles_dir_spec(base: Seq<char>) -> Seq<char> {
    path_join(data_dir_spec(base), "firefox"@)
}

pub open spec fn applications_dir_spec(base: Seq<char>) -> Seq<char> {
    path_join(base, "applications"@)
}

/// File name of the launcher of `codename`.
pub open spec fn desktop_file_name_spec(codename: Seq<char>) -> Seq<char> {
    DESKTOP_PREFIX@ + codename + DESKTOP_SUFFIX@
}

pub open spec fn desktop_path_spec(base: Seq<char>, codename: Seq<char>) -> Seq<char> {
    path_join(applications_dir_spec(base), desktop_file_name_spec(codename))
}

pub open spec fn icon_path_spec(base: Seq<char>, codename: Seq<char>) -> Seq<char> {
    path_join(icons_dir_spec(base), codename + ".png"@)
}

pub open spec fn chromium_profile_path_spec(base: Seq<char>, codename: Seq<char>) -> Seq<char> {
    path_join(chromium_profiles_dir_spec(base), codename)
}

pub open spec fn firefox_profile_path_spec(base: Seq<char>, codename: Seq<char>) -> Seq<char> {
    path_join(firefox_profiles_dir_spec(base), codename)
}

/// The directories that must exist, in creation order.
pub open spec fn required_dirs_spec(base: Seq<char>) -> Seq<Seq<char>> {
    seq![
        data_dir_spec(base),
        icons_dir_spec(base),
        chromium_profiles_dir_spec(base),
        firefox_profiles_dir_spec(base),
        applications_dir_spec(base),
    ]
}

/// The shape of an XDG data directory as `dirs::data_local_dir` gives it on Unix: an
/// absolute `$XDG_DATA_HOME`, or `.local/share` joined onto a non-empty home directory.
pub open spec fn is_xdg_data_base(b: Seq<char>) -> bool {
    b.len() > 0 && (b[0] == '/' || ends_with(b, "/.local/share"@))
}

/// `dirs::data_local_dir`, as a string (lossily converted).
///
/// Whether there is one, and which, depends on the environment (`$XDG_DATA_HOME`,
/// `$HOME`, the password database). The contract claims only its shape: `dirs` takes
/// `$XDG_DATA_HOME` when it is an absolute path, and otherwise joins `.local/share` onto
/// the home directory, which it never gives empty.
#[verifier::external_body]
fn local_data_base() -> (r: Option<String>)
    ensures
        r matches Some(b) ==> is_xdg_data_base(b@),
{
    dirs::data_local_dir().map(|p| p.to_string_lossy().into_owned())
}

/// `dirs::home_dir`, as a string (lossily converted).
///
/// Whether there is one, and which, depends on the environment (`$HOME`, the password
/// database). The contract claims only that it is not empty: `dirs` skips an empty
/// `$HOME` and an empty password-database entry.
#[verifier::external_body]
fn home_base() -> (r: Option<String>)
    ensures
        r matches Some(h) ==> h@.len() > 0,
{
    dirs::home_dir().map(|p| p.to_string_lossy().into_owned())
}

/// The user's home directory (never empty), if it can be resolved.
pub fn home_dir() -> (r: Option<String>)
    ensures
        r matches Some(h) ==> h@.len() > 0,
{
    home_base()
}

/// The XDG data directory, or `PathError::NoDataDir`.
pub fn data_base() -> (r: Result<String, PathError>)
    ensures
        r matches Ok(b) ==> is_xdg_data_base(b@),
{
    match local_data_base() {
        Some(b) => Ok(b),
        None => Err(PathError::NoDataDir),
    }
}

pub fn is_manager_tag(tag: &str) -> (r: bool)
    ensures
        r == is_manager_tag_spec(tag@),
{
    let t = chars_of(tag);
    let a = chars_of(MANAGER_TAG);
    let b = chars_of(LEGACY_MANAGER_TAG_ANCHOR);
    let c = chars_of(LEGACY_MANAGER_TAG_ZORIN);
    eq_chars(&t, &a) || eq_chars(&t, &b) || eq_chars(&t, &c)
}

/// The finished components of a path scanned so far: a component is ended by `/`, and
/// empty components and `.` are skipped.
pub open spec fn flush_part(done: Seq<Seq<char>>, cur: Seq<char>) -> Seq<Seq<char>> {
    if cur.len() == 0 || cur == seq!['.'] {
        done
    } else {
        done.push(cur)
    }
}

/// Scanning a path left to right: the finished components and the one being read.
pub open spec fn scan_parts(s: Seq<char>) -> (Seq<Seq<char>>, Seq<char>)
    decreases s.len(),
{
    if s.len() == 0 {
        (seq![], seq![])
    } else {
        let (done, cur) = scan_parts(s.drop_last());
        if s.last() == '/' {
            (flush_part(done, cur), seq![])
        } else {
            (done, cur.push(s.last()))
        }
    }
}

/// The normal components of a Unix path (`Path::components` without the root and a
/// leading `.`): the pieces between `/`, leaving out empty ones and `.`.
pub open spec fn path_parts(s: Seq<char>) -> Seq<Seq<char>> {
    flush_part(scan_parts(s).0, scan_parts(s).1)
}

/// Whether a Unix path starts at the root.
pub open spec fn path_rooted(s: Seq<char>) -> bool {
    s.len() > 0 && s[0] == '/'
}

/// Whether `Path::components` of a Unix path starts with `.`: a relative path that is `.`
/// or starts with `./`.
pub open spec fn path_leading_dot(s: Seq<char>) -> bool {
    !path_rooted(s) && (s == seq!['.'] || starts_with(s, seq!['.', '/']))
}

/// `Path` equality on Unix: the same components (root, leading `.`, then the normal ones),
/// so that repeated `/`, a trailing `/` and inner `.` do not count.
pub open spec fn same_path_spec(a: Seq<char>, b: Seq<char>) -> bool {
    path_rooted(a) == path_rooted(b) && path_leading_dot(a) == path_leading_dot(b)
        && path_parts(a) == path_parts(b)
}

fn flush_part_exec(done: &mut Vec<Vec<char>>, cur: Vec<char>)
    ensures
        vec_views(final(done)@) == flush_part(vec_views(old(done)@), cur@),
{
    if cur.len() == 0 || (cur.len() == 1 && cur[0] == '.') {
        assert(cur@ == seq!['.'] ==> cur.len() == 1 && cur@[0] == '.');
        if cur.len() == 1 {
            assert(cur@ =~= seq!['.']);
        }
        return;
    }
    assert(cur@ != seq!['.']) by {
        if cur@ == seq!['.'] {
            assert(cur@.len() == 1 && cur@[0] == '.');
        }
    }
    let ghost before = vec_views(done@);
    done.push(cur);
    assert(vec_views(done@) =~= before.push(done@[done@.len() - 1]@));
}

/// The normal components of a Unix path (see `path_parts`).
fn path_parts_exec(s: &Vec<char>) -> (r: Vec<Vec<char>>)
    ensures
        vec_views(r@) == path_parts(s@),
{
    let mut done: Vec<Vec<char>> = Vec::new();
    let mut cur: Vec<char> = Vec::new();
    let mut i: usize = 0;
    assert(s@.take(0) =~= Seq::<char>::empty());
    while i < s.len()
        invariant
            i <= s.len(),
            (vec_views(done@), cur@) == scan_parts(s@.take(i as int)),
        decreases s.len() - i,
    {
        assert(s@.take(i + 1).drop_last() =~= s@.take(i as int));
        assert(s@.take(i + 1).last() == s@[i as int]);
        if s[i] == '/' {
            let finished = cur;
            cur = Vec::new();
            flush_part_exec(&mut done, finished);
        } else {
            cur.push(s[i]);
        }
        i += 1;
    }
    assert(s@.take(s.len() as int) =~= s@);
    flush_part_exec(&mut done, cur);
    done
}

fn eq_parts(a: &Vec<Vec<char>>, b: &Vec<Vec<char>>) -> (r: bool)
    ensures
        r == (vec_views(a@) == vec_views(b@)),
{
    if a.len() != b.len() {
        assert(vec_views(a@).len() != vec_views(b@).len());
        return false;
    }
    let mut i: usize = 0;
    while i < a.len()
        invariant
            i <= a.len(),
            a.len() == b.len(),
            forall|j: int| 0 <= j < i ==> a@[j]@ == b@[j]@,
        decreases a.len() - i,
    {
        if !eq_chars(&a[i], &b[i]) {
            assert(vec_views(a@)[i as int] != vec_views(b@)[i as int]);
            return false;
        }
        i += 1;
    }
    assert(vec_views(a@) =~= vec_views(b@));
    true
}

fn path_shape(s: &Vec<char>) -> (r: (bool, bool))
    ensures
        r == (path_rooted(s@), path_leading_dot(s@)),
{
    let rooted = s.len() > 0 && s[0] == '/';
    let dot = !rooted && ((s.len() == 1 && s[0] == '.') || (s.len() >= 2 && s[0] == '.' && s[1]
        == '/'));
    proof {
        if s.len() == 1 && s@[0] == '.' {
            assert(s@ =~= seq!['.']);
        }
        if s@ == seq!['.'] {
            assert(s@.len() == 1);
        }
        if s.len() >= 2 && s@[0] == '.' && s@[1] == '/' {
            assert(s@.take(2) =~= seq!['.', '/']);
        }
        if starts_with(s@, seq!['.', '/']) {
            assert(s@.take(2)[0] == s@[0] && s@.take(2)[1] == s@[1]);
        }
    }
    (rooted, dot)
}

/// `Path` equality on Unix (see `same_path_spec`).
pub fn same_path(a: &str, b: &str) -> (r: bool)
    ensures
        r == same_path_spec(a@, b@),
{
    let av = chars_of(a);
    let bv = chars_of(b);
    let (ar, ad) = path_shape(&av);
    let (br, bd) = path_shape(&bv);
    if ar != br || ad != bd {
        return false;
    }
    eq_parts(&path_parts_exec(&av), &path_parts_exec(&bv))
}

/// `Path::join` on strings.
pub fn path_join_exec(base: &str, p: &str) -> (r: String)
    ensures
        r@ == path_join(base@, p@),
{
    let b = chars_of(base);
    let q = chars_of(p);
    if q.len() > 0 && q[0] == '/' {
        return string_of(&q);
    }
    let mut r = string_of(&b);
    if !(b.len() == 0 || b[b.len() - 1] == '/') {
        r.push('/');
    }
    push_chars(&mut r, &q);
    r
}

pub fn data_dir_in(base: &str) -> (r: String)
    ensures
        r@ == data_dir_spec(base@),
{
    path_join_exec(base, MANAGER_TAG)
}

pub fn legacy_anchor_data_dir_in(base: &str) -> (r: String)
    ensures
        r@ == legacy_anchor_data_dir_spec(base@),
{
    path_join_exec(base, LEGACY_MANAGER_TAG_ANCHOR)
}

pub fn legacy_data_dir_in(base: &str) -> (r: String)
    ensures
        r@ == legacy_data_dir_spec(base@),
{
    path_join_exec(base, LEGACY_MANAGER_TAG_ZORIN)
}

pub fn icons_dir_in(base: &str) -> (r: String)
    ensures
        r@ == icons_dir_spec(base@),
{
    let d = data_dir_in(base);
    path_join_exec(&d, "icons")
}

pub fn chromium_profiles_dir_in(base: &str) -> (r: String)
    ensures
        r@ == chromium_profiles_dir_spec(base@),
{
    let d = data_dir_in(base);
    path_join_exec(&d, "profiles")
}

pub fn firefox_profiles_dir_in(base: &str) -> (r: String)
    ensures
        r@ == firefox_profiles_dir_spec(base@),
{
    let d = data_dir_in(base);
    path_join_exec(&d, "firefox")
}

pub fn applications_dir_in(base: &str) -> (r: String)
    ensures
        r@ == applications_dir_spec(base@),
{
    path_join_exec(base, "applications")
}

/// `webapp-{codename}.desktop`.
pub fn desktop_file_name(codename: &str) -> (r: String)
    ensures
        r@ == desktop_file_name_spec(codename@),
{
    let mut r = String::from_str(DESKTOP_PREFIX);
    r.append(codename);
    r.append(DESKTOP_SUFFIX);
    r
}

pub fn desktop_path_in(base: &str, codename: &str) -> (r: String)
    ensures
        r@ == desktop_path_spec(base@, codename@),
{
    let d = applications_dir_in(base);
    let f = desktop_file_name(codename);
    path_join_exec(&d, &f)
}

pub fn icon_path_in(base: &str, codename: &str) -> (r: String)
    ensures
        r@ == icon_path_spec(base@, codename@),
{
    let d = icons_dir_in(base);
    let mut f = String::from_str(codename);
    f.append(".png");
    path_join_exec(&d, &f)
}

pub fn chromium_profile_path_in(base: &str, codename: &str) -> (r: String)
    ensures
        r@ == chromium_profile_path_spec(base@, codename@),
{
    let d = chromium_profiles_dir_in(base);
    path_join_exec(&d, codename)
}

pub fn firefox_profile_path_in(base: &str, codename: &str) -> (r: String)
    ensures
        r@ == firefox_profile_path_spec(base@, codename@),
{
    let d = firefox_profiles_dir_in(base);
    path_join_exec(&d, codename)
}

/// The directories that must exist, in creation order.
pub fn required_dirs_in(base: &str) -> (r: Vec<String>)
    ensures
        views(r@) == required_dirs_spec(base@),
{
    let mut r: Vec<String> = Vec::new();
    r.push(data_dir_in(base));
    r.push(icons_dir_in(base));
    r.push(chromium_profiles_dir_in(base));
    r.push(firefox_profiles_dir_in(base));
    r.push(applications_dir_in(base));
    assert(views(r@) =~= required_dirs_spec(base@));
    r
}

/// `~/.local/share/mountie`: the data directory of new installs.
pub fn data_dir() -> (r: Result<String, PathError>)
    ensures
        r matches Ok(p) ==> exists|b: Seq<char>| is_xdg_data_base(b) && p@ == data_dir_spec(b),
{
    let b = data_base()?;
    Ok(data_dir_in(&b))
}

/// The data directory of the Anchor product name.
pub fn legacy_anchor_data_dir() -> (r: Result<String, PathError>)
    ensures
        r matches Ok(p) ==> exists|b: Seq<char>| is_xdg_data_base(b) && p@ == legacy_anchor_data_dir_spec(b),
{
    let b = data_base()?;
    Ok(legacy_anchor_data_dir_in(&b))
}

/// The data directory of the first product name.
pub fn legacy_data_dir() -> (r: Result<String, PathError>)
    ensures
        r matches Ok(p) ==> exists|b: Seq<char>| is_xdg_data_base(b) && p@ == legacy_data_dir_spec(b),
{
    let b = data_base()?;
    Ok(legacy_data_dir_in(&b))
}

pub fn icons_dir() -> (r: Result<String, PathError>)
    ensures
        r matches Ok(p) ==> exists|b: Seq<char>| is_xdg_data_base(b) && p@ == icons_dir_spec(b),
{
    let b = data_base()?;
    Ok(icons_dir_in(&b))
}

pub fn chromium_profiles_dir() -> (r: Result<String, PathError>)
    ensures
        r matches Ok(p) ==> exists|b: Seq<char>| is_xdg_data_base(b) && p@ == chromium_profiles_dir_spec(b),
{
    let b = data_base()?;
    Ok(chromium_profiles_dir_in(&b))
}

pub fn firefox_profiles_dir() -> (r: Result<String, PathError>)
    ensures
        r matches Ok(p) ==> exists|b: Seq<char>| is_xdg_data_base(b) && p@ == firefox_profiles_dir_spec(b),
{
    let b = data_base()?;
    Ok(firefox_profiles_dir_in(&b))
}

/// `~/.local/share/applications`
pub fn applications_dir() -> (r: Result<String, PathError>)
    ensures
        r matches Ok(p) ==> exists|b: Seq<char>| is_xdg_data_base(b) && p@ == applications_dir_spec(b),
{
    let b = data_base()?;
    Ok(applications_dir_in(&b))
}

pub fn desktop_path(codename: &str) -> (r: Result<String, PathError>)
    ensures
        r matches Ok(p) ==> exists|b: Seq<char>| is_xdg_data_base(b) && p@ == desktop_path_spec(b, codename@),
{
    let b = data_base()?;
    Ok(desktop_path_in(&b, codename))
}

pub fn icon_path(codename: &str) -> (r: Result<String, PathError>)
    ensures
        r matches Ok(p) ==> exists|b: Seq<char>| is_xdg_data_base(b) && p@ == icon_path_spec(b, codename@),
{
    let b = data_base()?;
    Ok(icon_path_in(&b, codename))
}

pub fn chromium_profile_path(codename: &str) -> (r: Result<String, PathError>)
    ensures
        r matches Ok(p) ==> exists|b: Seq<char>| is_xdg_data_base(b) && p@ == chromium_profile_path_spec(b, codename@),
{
    let b = data_base()?;
    Ok(chromium_profile_path_in(&b, codename))
}

pub fn firefox_profile_path(codename: &str) -> (r: Result<String, PathError>)
    ensures
        r matches Ok(p) ==> exists|b: Seq<char>| is_xdg_data_base(b) && p@ == firefox_profile_path_spec(b, codename@),
{
    let b = data_base()?;
    Ok(firefox_profile_path_in(&b, codename))
}

/// The directories that must exist, in creation order (see `required_dirs_in`).
pub fn required_dirs() -> (r: Result<Vec<String>, PathError>)
    ensures
        r matches Ok(v) ==> exists|b: Seq<char>| is_xdg_data_base(b) && views(v@) == required_dirs_spec(b),
{
    let b = data_base()?;
    Ok(required_dirs_in(&b))
}

} // verus!
