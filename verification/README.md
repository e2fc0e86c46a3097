# iron_file

The verified core of the Iron File file browser: the decisions of its
backend service, its graphical front ends, its configuration profiles and
its desktop portal, written as functions with contracts and proved with
Verus.

## Layout

- `src/text.rs`, `src/paths.rs`, `src/sorting.rs`: characters, Unix paths
  (joined, split into components, compared and ordered as `Path` does) and
  a stable sort.
- `src/config.rs`: settings, defaults, profile files, and the files that
  saving, creating and resetting profiles write.
- `src/browser.rs`, `src/commands.rs`, `src/preferences.rs`: the browser's
  start-up options, entry order, history, selection, sidebar, keyboard,
  commands, picker and preference pages.
- `src/edits.rs`: the changes the preferences page makes to the theme and
  browser settings, and to the order of menu and toolbar actions.
- `src/service.rs`: what the backend answers about a path and where
  thumbnails are kept.
- `src/client.rs`: how a front end finds, launches and connects to the
  backend.
- `src/portal.rs`: the desktop portal's file chooser.
- `src/system.rs`: what is read from desktop tools (settings, icons,
  terminals, default applications, drives and mounts).
- `app/`: a command-line program around the library that does the file
  system, process and TOML work.
- `tests/`: tests of the library on concrete values.
