# Mountie

Mountie turns websites into desktop web apps on Linux: each web app gets an XDG
launcher (`~/.local/share/applications/webapp-<codename>.desktop`), an icon, and a
private browser profile so that it runs as its own process with its own dock icon.

## Layout

- `src/` — the library, verified with Verus:
  - `text` — specifications of the string operations used (`trim`, `lines`,
    `contains`, `replace`, …) and executable helpers proved against them;
  - `paths` — the XDG data layout (data, icon, profile and launcher paths);
  - `weburl` — URL normalisation over the `url` crate;
  - `browser` — browser families, profile modes, Wayland window classes, shell quoting
    and launch commands;
  - `detect` — which executables to probe, parsing the default browser's desktop file,
    and assembling the de-duplicated browser list;
  - `desktop` — writing and reading launchers, and the sorted list of managed launchers;
  - `favicon` — favicon candidates, link resolution, icon PNG encoding (`scraper`,
    `image`);
  - `profile` — what shared web apps copy from the browser profile, site-session
    checks, and the Firefox app-chrome files to write;
  - `webapp` — codenames, launcher plans, update and repair decisions, Firefox
    preference normalisation;
  - `choices` — the options and texts of the window and the add / edit dialog.
- `tests/` — tests of the library.
- `app/` — the GTK 4 / libadwaita program: file system, processes, HTTP, and the UI.

Proof functions named `law_*` state the properties that hold across operations (for
example, a launcher written for a web app reads back as that web app, and repairing a
freshly written launcher changes nothing).
