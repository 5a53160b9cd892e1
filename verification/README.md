# cosmic-locale

A COSMIC desktop application for the system language and locale
settings, built around a verified library.

- `src/` is the library, checked by Verus: validated locale codes, the
  parser for `/etc/default/locale` and `/etc/locale.conf`, the resolution
  of the twelve `LC_*` categories, the editor model of `/etc/locale.gen`
  (parse, toggle, render), the parser of `locale -a` output, the
  `Locale` arrays submitted to systemd-localed, the classification of
  D-Bus and `pkexec` failures, and the application's state machine
  (`AppState::update`: message in, new state and effect out).
- `app/` is the application: the COSMIC window and pages, and the file,
  environment, subprocess and D-Bus work that the library's effects ask
  for.
- `tests/` runs the library on concrete inputs.

## Ordered collections

The overrides of a configuration (`LcOverrides`) and the list of installed
locales (built by `insert_sorted`) are held in a `Vec` kept in ascending
order of key with no key twice, and that order is stated: as the type
invariant of `LcOverrides`, and in the contract of `insert_sorted`. A `BTreeMap<String, LocaleCode>` or `BTreeSet<String>` would give the
same order for free, but vstd's contracts for those collections hold only
for key types whose ordering it knows to be lawful (`obeys_cmp`), which it
does not establish for `String`; with `String` keys they would say nothing
that a proof about the contents could use. The std forms were not tried in
this crate; the sorted `Vec` was chosen so that lookups, inserts and the
order in which entries come out are all proved.
