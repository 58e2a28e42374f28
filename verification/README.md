# i18n-hunt

Finds translation keys that no JavaScript or TypeScript source uses.

Locale JSON files are flattened into dotted keys (`auth.login.title`), each
file under a namespace taken from its path. Source files are scanned for
`useTranslation(...)`, `t(...)`, `i18next.t(...)` and `<Trans i18nKey=...>`
usages; each usage names an exact key, a key prefix (a template literal with
a fixed leading text), or something dynamic. A key is reported unused when
no usage in its namespace names it or a prefix of it.

## Layout

- `src/` — the library, verified with Verus:
  - `text`, `strings`, `table`: strings, ordered and distinct string lists,
    and a string-keyed table.
  - `paths`, `exclude`: path operations and glob exclusion.
  - `json`, `locale`: JSON documents; locale files, key flattening,
    namespaces.
  - `parser`, `syntax`, `scan`, `collector`, `functions`, `inferred`:
    parsing with oxc into plain syntax values, what the scan of one file
    computes, and the scanner that meets it.
  - `source`: usages, source-file selection, line numbers, parse errors.
  - `analysis`, `report`: which keys are unused, and the report's lines.
  - `cli`, `error`: settling options into a configuration; errors.
- `app/` — the command: argument parsing, configuration file, directory
  walks, file reading, and printing the report.
- `tests/` — tests of the library.
