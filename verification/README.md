# lofi_core

The verified core of LoFi, a small launcher for GNOME (and a macOS frontend
through a C interface).

- `src/` is the library, verified with Verus: the entry model and its
  persistence handles, window-command geometry, whitespace-tokenized fuzzy
  search, recency ranking, the entry list the frontends drive (visible
  order, history reordering, per-entry accessors), and the decisions of the
  GNOME frontend (command target, command sets, XDG directories, what an
  activation does).
- `tests/` exercises the library on concrete values.
- `app/` is the GNOME program (GTK window, D-Bus clients of the shell
  extension, desktop-file scanning), the SQLite activation history, and the
  C interface of the entry list.
