# pmux

The core of a terminal workspace manager for AI coding agents: it tracks the agents
running in tmux panes, tells from their output whether each is running, waiting for
input, asking for confirmation or failing, and keeps the notifications, layout and
configuration around them.

- `src/` is the library, written in Verus: every function carries a contract
  (`requires`/`ensures`) over mathematical models and, but for the trusted wrappers
  below, is proved against it. The
  modules cover agent status and its detection from terminal text, OSC 133 shell
  markers, the tmux control-mode protocol and key encoding, notifications and muting,
  the sidebar and window layout, dialogs, configuration, the pane table of the local
  terminal backend, and the remote bots: their settings, commands and Gateway protocol.
  Properties that relate several operations are stated as `law_*` proof functions.
  Eleven small functions are trusted rather than proved: each wraps one call into std
  or an outside crate and carries a contract taken from that function's documentation
  and source. They are `string_from_chars` (`String::from_iter`), `push_char`
  (`String::push`), `to_lowercase` (`str::to_lowercase`), `now_millis` (the system
  clock), `utf8_str` (`str::from_utf8`), `utf8_lossy` (`String::from_utf8_lossy`),
  `file_name_of` (`Path::file_name`), `compile`, `is_match` and `error_text` (the
  `regex` crate) and `random_id` (`uuid::Uuid::new_v4`).
- `tests/` exercises the library on concrete values.
- `app/` is a small command-line front end: it reads and writes the JSON files under
  the configuration directory, looks at the file system and the environment, runs
  tmux, and leaves every decision to the library.
