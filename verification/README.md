# pkgforge

Verified logic of two pkgforge tools: `appimagetool`, which builds AppImages
from an AppDir, and the `soar` package manager. The public functions of `src/`
carry Verus contracts that fix their results, and the properties that span
several functions are stated and proved as lemmas.

## Layout

- `src/` — the library, verified with Verus.
  - AppImage builder: `config` (settings from flags and environment), `desktop`
    (desktop entries), `appimage` (the `.env`, metadata and appinfo texts and the
    plan of a build), `elf` (reading and writing ELF sections), `uruntime`
    (configuring the runtime), `dwarfs` (the `mkdwarfs` command lines and the
    profiling pass's decisions), `util`, `log`, `error`.
  - Package manager: `soar_config` (configuration, profiles, repositories),
    `package` and `models` (package records, queries, markers, local files,
    install layout), `url_package` and `asset_name` (packages from URLs,
    registry references and file names), `release_source` (picking a forge
    release and its asset), `install` (retrying downloads, where a package is
    fetched from, the root an unpacked archive implies), `commands` (updating
    soar itself, the summary of installed packages, where build logs are
    read), `remote`, `url_handler` (`soar://` links), `sandbox`, `soar_db`,
    `cli`, `soar_error`.
  - `text` — the character-sequence helpers the rest is built on.
- `tests/` — the test suites, run against the compiled library.
- `app/` — the `appimagetool` program: command line, files, downloads and the
  processes it starts, with every decision taken by the library.
