# thread_notes

Thinking Log: dated notes on topics over time, kept as Markdown files with
YAML front matter under `{notes_dir}/{topic}/{yyyy-mm-dd}-{slug}.md`, and
edited in a two-pane terminal app.

The logic is a Verus library under `src/`, with contracts that Verus proves:

- `editor`, `lines`: the char-safe edit buffer (scalar cursor, line and
  column, arrows, Home/End, insert and backspace) and the line structure it
  moves over.
- `text`, `order`: UTF-8 widths and byte offsets, trimming, prefix and
  substring search, string order.
- `config`: directory defaults, `Path::join`, and the `config.toml` scan.
- `clock`, `note`: instants as plain values, slugs, the `---` fences of
  front matter, timestamps in front matter, search matching, word count.
- `keys`: the key map per input mode.
- `store`: topic names, the order of topics and notes (threads oldest
  first, scratch notes hidden on request), the latest note, search hits,
  and the file name of a new note.
- `quote`, `session`: the pull-quote (source note, last 20 lines under a
  date header) and the writing-session countdown.
- `app`, `ui`: the app model and its update rule (topics and thread pane,
  Insert, new-note prompt, search, keep/scratch, pull-quote, session timer,
  autosave), and the text of the bars and the left pane.

`app/` is the program around it: terminal (Ratatui + Crossterm), file
system, environment, and YAML through serde. `tests/` runs the library.
