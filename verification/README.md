# tinyfeeds

A small RSS/Atom reader that shows today's unread stories one at a time.

- `src/` is the verified core: finding a story's contact address (`email`, `feed`),
  choosing today's unread stories of a parsed feed (`stories`), the configuration
  files (`config`), the theme (`models`), escaping and Markdown rendering to
  Pango markup (`html`, `markdown`), image addresses (`image`) and the reader's
  state and window contents (`state`).
- `app/` is the GTK program around it: files, network, threads and widgets.
- `tests/` runs the library on concrete inputs.
