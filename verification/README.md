# wgpu_terminal

The core of a terminal emulator, written in Verus: the library's functions
state what they do in `requires`/`ensures` clauses over plain mathematical
models, and Verus proves them. Where the outcome rests on other threads (the
channel) or on a handler the user supplies (the parser's escape-sequence
decoder), the contracts state what holds whatever those do.

## Layout

- `src/` — the verified library
  - `circular_buffer`, `channel`, `channel_lock` — ring buffers sized to the
    page size of the system, and a bounded multi-sender/multi-receiver
    channel over one behind a lock
  - `utf8_parser`, `terminal_parser` — byte-level splitting of a program's
    output into plain text, UTF-8 characters and the bytes of escape
    sequences; decoding an escape sequence into a request is left to the
    parser's handler
  - `primitives`, `commands`, `colour_table` — cells, pens, the decoded
    requests of a program and the xterm palette
  - `scrollback_buffer`, `viewport`, `terminal_display`, `terminal_core` — the
    screens, their history and how each request changes them
  - `terminal_renderer` — the picture of a screen scrolled into its history
  - `terminal_keyboard`, `terminal_user` — keys, the mouse, focus and resizes
    turned into the bytes a program reads
  - `lru_list`, `glyph_atlas`, `glyph_grid`, `glyph_cache`, `terminal_glyphs`
    — glyph pages with least-recently-used recycling for a grid renderer, and
    the window-side step that takes a frame's cells from the screen or its
    history and fills the glyph grid from them
  - `window_keys` — what a window does with a key of its keyboard
  - `tile_atlas`, `tile_cache` — the block atlas of a tile renderer
- `tests/` — tests of the library
- `app/` — a headless driver: runs a program, feeds its output to the
  terminal and prints the screen it left

Glyph rasterisation (floating point), window handling and GPU upload stay
outside the library; the library hands out the cells to draw and the bytes to
upload.
