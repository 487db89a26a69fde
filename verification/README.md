# grc

A terminal todo manager backed by a plain Markdown file, whose logic is a
Verus-verified library.

```markdown
# work

- [ ] Fix bug
- [x] Write tests due:2025-06-15

## backend

- [ ] Deploy API
```

Headings are sections (nested by their number of `#`), `- [ ]` / `- [x]` lines
are tasks, and `due:YYYY-MM-DD` (or a shortcut such as `today`, `tomorrow`,
`next week` or a weekday) sets a due date.

## Layout

- `src/` — the library, verified:
  - `parser.rs` reads and writes the file; `roundtrip.rs` proves that what is
    written reads back as the same list, without touching a byte offset that
    would split a character.
  - `task.rs`, `model.rs` — the tree of sections and tasks and its
    mathematical model; `tree.rs`, `refs.rs`, `filter.rs` — the rows of the
    two panels, with and without a filter.
  - `input.rs`, `normal.rs`, `ops.rs`, `engine.rs` — what each key does in
    each mode, as a function of the interface state and the list; `edit.rs`
    the input line.
  - `date.rs` — dates and due-date shortcuts; `cli.rs` — the command line and
    where the todo file lives; `render.rs` — what the panels show.
- `app/` — the program around it: terminal, files, environment.
- `tests/` — tests of the library.

## Usage

`grc [PATH]` opens `PATH`, else `$GRC_TODO_PATH`, else `~/.todo.md`. Press `?`
for the keys.
