# chromaport

Carry an editor color theme (VS Code, Cursor, OpenCode, iTerm2) to terminal and editor apps
(Superset, Warp, Ghostty, OpenCode, Obsidian, iTerm2, WezTerm) through one intermediate
representation of a theme.

## Layout

- `src/` is the library, verified with Verus. Its functions carry contracts over mathematical
  models (`Seq`, `Map`, `int`) and are proved against them, but for a few small wrappers around
  std and outside calls (`String::push`, `char::is_alphanumeric`, `str::to_lowercase`, the
  clock, `{:?}` formatting, `semver` and `serde_json` parsing) whose contracts are trusted:
  - `ir`: the intermediate representation and validated hex colors;
  - `converter`, `opencode`, `iterm2`, `color`: turning source themes into it;
  - `jsonc`, `text`, `lines`: the text handling beneath the parsers and formatters;
  - `store`: slugs, date stamps, theme paths and links;
  - `ghostty`, `wezterm`, `exports`: what each target app is given;
  - `preview`, `flow`, `presets`, `cli`: the decisions of the interactive flows;
  - `update`: the weekly update check, its cache and its version comparison.

  Laws that relate several calls are public proof functions named `law_*`.
- `app/` is the program around the library: the command line, terminal UI, prompts, files,
  network, the floating-point color math, and the reading of JSON and plist files into the
  library's types (picking their fields). The decisions of the flows are the library's.
- `tests/` runs the library on concrete values.
