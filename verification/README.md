# zeron

The core of a desktop shell for coding agents, written in Verus.

- `src/` is the library. Every function states what it returns or changes, and
  Verus proves it. Calls into other crates stand behind small wrappers whose doc
  comments say what is taken on trust. Functions named `law_..` state what holds
  of several operations together.
- `tests/` runs the library on concrete values.
- `app/` does what needs a file, a socket, a process or a clock, and measures the
  window in floating-point pixels.

| modules | subject |
| --- | --- |
| `version`, `updater`, `install`, `update_flow` | finding, choosing and installing a release |
| `account`, `keiki`, `conversation`, `agent_dialog` | the cloud account and its conversations |
| `shell`, `nav`, `panels`, `sidebar`, `threads`, `titlebar`, `rows` | the window |
| `pickers`, `targets`, `folders` | where a session runs |
| `browser`, `desktop`, `picture`, `jpeg`, `input`, `url_text` | the streamed browser and desktop |
| `text_input`, `keymap`, `menus` | typing and shortcuts |
| `avatars`, `settings`, `transport` | cached drawings, stored choices, terminal calls |
| `text`, `text_map`, `paths`, `order`, `json` | what the rest is built from |
