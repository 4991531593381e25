# gitdiff

The display model of a terminal diff viewer, written in Verus: how the diff of a
file is laid out in a unified and in a side-by-side view, which lines a selection
stands for, what is drawn, what a key press does, and how syntax highlighted
files are cached and merged into the picture. Every function states what it
returns or changes, and the statements are proved.

## Layout

- `src/model.rs`: the diff as a repository back end reports it.
- `src/string_utils.rs`: text helpers and the Unicode functions below them.
- `src/options.rs`: the options that are kept between two starts.
- `src/queue.rs`: what the component asks of the program around it.
- `src/ui/`: styles and themes, highlighted files, their cache, and the
  highlighting job.
- `src/components/`: the diff component.
  - `diff.rs`: its state, selection and view mode.
  - `diff_display.rs`: the side-by-side layout.
  - `diff_wrap.rs`, `diff_render.rs`, `diff_text.rs`, `diff_draw.rs`: what is
    drawn.
  - `diff_actions.rs`, `diff_commands.rs`: staging, copying, editing, and keys.
  - `diff_update.rs`: new diffs and the answers of highlighting jobs.
  - `layout_laws.rs`, `selection_laws.rs`, `diff_laws.rs`: what holds of all this
    as a whole.
- `app/`: files, background jobs, terminal events and drawing around the library.
- `tests/`: the library at work on concrete values.

The component does no input or output of its own. It returns an `Effect` where
something is to be done outside (scroll a bar, stage a hunk, copy a text), and
takes the outcome back as a plain value.

Not proved is what comes from other crates: the grapheme clusters of a text and
its width in columns, the text of a byte count, and the box drawing characters.
The functions that call them say what is relied on.
