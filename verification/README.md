# OpenAtelier

The editing rules of OpenAtelier, a video editor with one timeline and many formats, as a
library that is verified with [Verus](https://github.com/verus-lang/verus): every function
states what it returns or changes, and the statement is proved.

- `src/` is the library. A command takes the timeline (`doc`), the session (`editor`) or the
  state of a panel, and gives back the changes to make, the next state, or the words to show.
  It draws nothing and touches no file.
- `app/` is the window around it: files, other programs, drawing, and whatever is worked out
  in floating point.
- `tests/` runs the library on examples.

Times are whole numbers of flicks (705,600,000 to the second). Colors, styles and stored
values are numbers that stand for them; two of them are equal when what they stand for is.

Calls into other crates go through a few functions whose contracts are taken on trust. They
are marked `external_body` or `assume_specification`, in `text`, `i18n` and `home`, and each
says what it relies on. The crates they call are `serde_json`, `png` and `egui`.

The laws, public proof functions such as `captions::redo_undoes_undo`, say what holds of
several functions together.
