# Round Studio Launcher

The core of an offline Minecraft launcher, written and proved in Verus.

- `src/` is the library: every decision of the launcher as functions from plain values to plain
  values, with contracts.
  - `text`, `number`, `order`, `pairs`, `json`, `filename`: strings, numbers, ordering, entry lists,
    documents, names of paths
  - `identity`, `profile`, `paths`, `error`: players, profiles, where files are kept, messages
  - `versions`, `loaders`, `merge`, `library`: game versions, mod loaders, merged metadata, libraries
  - `java`, `launch`, `template`, `process`: runtimes, the command line, placeholders, running games
  - `install`, `assets`, `natives`, `validate`: installing, assets, native libraries, diagnostics
  - `modrinth`, `content`, `skin`: content search, content of a profile, skins
  - `external`: the contracts of `std` and of outside crates that the proofs rest on
- `tests/` runs the library on concrete values.
- `app/` is the desktop program around it: files, processes, web services and the Tauri window.

Laws that relate several functions are the public `law_...` proof functions at the end of each
module.
