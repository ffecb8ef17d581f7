# kittygame

The game logic of Kitty Game, a platformer for the WASM-4 fantasy console,
as a Verus library whose functions carry contracts that Verus proves.

- `src/` — the library: packed map chunks (`mapchunk`), the map and the
  opening of walls between touching chunks (`game_map`), world generation
  (`game_state`), ray-cast collision against tiles (`collision`), the
  random number generator (`rng`), the state machines of the characters
  (`entities`), cards (`ability_cards`), menus (`menus`) and a frame of
  play (`play`), the sprite table (`spritesheet`), music (`music`) and
  gamepad input (`input`).
- `tests/` — tests of the library on concrete values.
- `app/` — the cart around the library: the console bindings, the heap,
  drawing, the fractional physics of the characters and the frame loop.
  Its spritesheet data (`app/kitty_ss.rs`, `app/title_ss.rs`) is read from
  the Rust sources that WASM-4's `png2src` makes of the game's PNG files
  (`kitty-ss.png`, `kitty_title.png`), which it expects in the directory
  named by `OUT_DIR`. Neither the PNG files nor that conversion step are part
  of this crate: `app/` builds only where they are supplied.
