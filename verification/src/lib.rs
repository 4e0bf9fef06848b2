//! Terminal emulation core: the screen model, its scrollback history, the
//! byte-level input decoder, the glyph caches and ring buffers behind them.
use vstd::prelude::*;

pub mod circular_buffer;
pub mod lru_list;
pub mod utf8_parser;
pub mod primitives;
pub mod scrollback_buffer;
pub mod viewport;
pub mod channel;
pub mod channel_lock;
pub mod commands;
pub mod colour_table;
pub mod terminal_display;
pub mod terminal_core;
pub mod terminal_parser;
pub mod terminal_renderer;
pub mod glyph_grid;
pub mod glyph_atlas;
pub mod glyph_cache;
pub mod terminal_keyboard;
pub mod terminal_glyphs;
pub mod tile_atlas;
pub mod tile_cache;
pub mod terminal_user;
pub mod window_keys;

verus! {
} // verus!
