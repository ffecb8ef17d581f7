//! The game logic of Kitty Game, a platformer for the WASM-4 fantasy console:
//! map chunks with packed tiles, map assembly and world generation, ray-cast
//! collision against tiles, the random number generator that drives world
//! generation, and the state machines of the characters, cards, menus and
//! music.
pub mod game_constants;
pub mod rng;
pub mod mapchunk;
pub mod collision;
pub mod game_map;
pub mod music;
pub mod spritesheet;
pub mod ability_cards;
pub mod input;
pub mod entities;
pub mod game_state;
pub mod menus;
pub mod play;
