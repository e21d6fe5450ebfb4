# Game of Life

Conway's Game of Life on a board that wraps at its borders, played in a window
of a Wayland desktop.

- `src/` is the library, verified with Verus: the game (`game`, `cell`,
  `glider`), its picture (`canvas`, `pool`), and the window as a state that
  events act on (`app_state`, `keys`). `board` and `model` are the mathematical
  models that the contracts speak of; `laws` holds the theorems about them.
- `app/` is the program around it: the connection to the compositor, the shared
  memory, the keymap and the event loop. Run under the name `sctk-game` it opens
  the bare window of a client toolkit instead.
- `tests/` runs the library.

Keys: space pauses, plus or up is faster, minus or down is slower, `r` puts a
glider where the pointer is, `c` clears the board, `q` leaves. The left mouse
button brings a cell to life, the right one kills it.

Cells are named `(x, y)` by `at`, `flip`, `set_alive` and `set_dead`. The row
pitch of these names is the height of the board, so they are columns and rows on
a square board, as the one in the window is.
