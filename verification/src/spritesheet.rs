//! Sprites: frames cut out of the spritesheet, which is laid out in pages
//! of 32 pixels side by side.
use vstd::prelude::*;

verus! {

pub const KITTY_SPRITESHEET_DRAW_COLORS: u16 = 0x3420;

pub const KITTY_SPRITESHEET_PAGE_WIDTH: u8 = 32;

pub const KITTY_SPRITESHEET_STRIDE: u8 = KITTY_SPRITESHEET_PAGE_WIDTH * 6;

/// 2 bits per pixel.
pub const KITTY_SPRITESHEET_FLAGS: u32 = 1;

/// One frame of a sprite: its size and its corner in the spritesheet.
#[derive(Clone, Copy)]
pub struct SpriteFrame {
    pub width: u8,
    pub height: u8,
    pub start_x: u8,
    pub start_y: u8,
}

pub struct Sprite {
    pub frames: Vec<SpriteFrame>,
}

pub enum PresetSprites {
    MainCat,
    Kitty1,
    Kitty2,
    Kitty3,
    Kitty4,
    Pig,
    Lizard,
    BirdIsntReal,
    TopleftSolidCorner,
    ToprightSolidCorner,
    SolidWhite,
    BottomleftSolidCorner,
    BottomrightSolidCorner,
    SeethroughWhite,
    ColumnTop,
    ColumnMiddle,
    ColumnBottom,
    Left,
    Top,
    Right,
    Bottom,
    KittyCard,
    PiggyCard,
    LizardCard,
    BirdCard,
    Cloud,
    Clock,
    CatHead,
}

/// A frame given as `[page, x in page, y, width, height]` lies within the
/// first 256 pixel columns of the spritesheet.
pub open spec fn frame_spec_fits(pos: [u8; 5]) -> bool {
    pos[0] * 32 + pos[1] <= 255
}

/// The frame described by `[page, x in page, y, width, height]`.
pub open spec fn frame_of(pos: [u8; 5]) -> SpriteFrame {
    SpriteFrame {
        width: pos[3],
        height: pos[4],
        start_x: (pos[0] * 32 + pos[1]) as u8,
        start_y: pos[2],
    }
}

impl Sprite {
    /// A sprite whose frames are given as `[page, x in page, y, width, height]`.
    pub fn from_page_x_y_w_h(spriteframe_indecies: Vec<[u8; 5]>) -> (s: Sprite)
        requires
            forall|i: int|
                0 <= i < spriteframe_indecies@.len() ==> frame_spec_fits(
                    #[trigger] spriteframe_indecies@[i],
                ),
        ensures
            s.frames@.len() == spriteframe_indecies@.len(),
            forall|i: int|
                0 <= i < s.frames@.len() ==> #[trigger] s.frames@[i] == frame_of(
                    spriteframe_indecies@[i],
                ),
    {
        let mut frames: Vec<SpriteFrame> = Vec::new();
        let n = spriteframe_indecies.len();
        let mut i: usize = 0;
        while i < n
            invariant
                n == spriteframe_indecies@.len(),
                0 <= i <= n,
                forall|j: int|
                    0 <= j < n ==> frame_spec_fits(#[trigger] spriteframe_indecies@[j]),
                frames@.len() == i,
                forall|j: int| 0 <= j < i ==> #[trigger] frames@[j] == frame_of(spriteframe_indecies@[j]),
            decreases n - i,
        {
            let pos = spriteframe_indecies[i];
            assert(frame_spec_fits(spriteframe_indecies@[i as int]));
            frames.push(
                SpriteFrame {
                    width: pos[3],
                    height: pos[4],
                    start_x: pos[0] * KITTY_SPRITESHEET_PAGE_WIDTH + pos[1],
                    start_y: pos[2],
                },
            );
            i = i + 1;
        }
        Sprite { frames }
    }
}

/// The slot of each preset sprite in the table of all sprites.
pub open spec fn spec_preset_index(p: PresetSprites) -> usize {
    match p {
        PresetSprites::MainCat => 0,
        PresetSprites::Kitty1 => 1,
        PresetSprites::Kitty2 => 2,
        PresetSprites::Kitty3 => 3,
        PresetSprites::Kitty4 => 4,
        PresetSprites::Pig => 5,
        PresetSprites::Lizard => 6,
        PresetSprites::BirdIsntReal => 7,
        PresetSprites::TopleftSolidCorner => 8,
        PresetSprites::SolidWhite => 9,
        PresetSprites::ToprightSolidCorner => 10,
        PresetSprites::BottomleftSolidCorner => 11,
        PresetSprites::SeethroughWhite => 12,
        PresetSprites::BottomrightSolidCorner => 13,
        PresetSprites::ColumnTop => 14,
        PresetSprites::ColumnMiddle => 15,
        PresetSprites::ColumnBottom => 16,
        PresetSprites::Left => 17,
        PresetSprites::Top => 18,
        PresetSprites::Right => 19,
        PresetSprites::Bottom => 20,
        PresetSprites::KittyCard => 21,
        PresetSprites::PiggyCard => 22,
        PresetSprites::LizardCard => 23,
        PresetSprites::BirdCard => 24,
        PresetSprites::Cloud => 33,
        PresetSprites::Clock => 34,
        PresetSprites::CatHead => 35,
    }
}

/// The number of sprites in the table of all sprites.
pub const N_SPRITES: usize = 36;

/// The slot of a preset sprite in the table of all sprites.
pub fn preset_index(preset_sprite: &PresetSprites) -> (i: usize)
    ensures
        i == spec_preset_index(*preset_sprite),
        i < N_SPRITES,
{
    match preset_sprite {
        PresetSprites::MainCat => 0,
        PresetSprites::Kitty1 => 1,
        PresetSprites::Kitty2 => 2,
        PresetSprites::Kitty3 => 3,
        PresetSprites::Kitty4 => 4,
        PresetSprites::Pig => 5,
        PresetSprites::Lizard => 6,
        PresetSprites::BirdIsntReal => 7,
        PresetSprites::TopleftSolidCorner => 8,
        PresetSprites::SolidWhite => 9,
        PresetSprites::ToprightSolidCorner => 10,
        PresetSprites::BottomleftSolidCorner => 11,
        PresetSprites::SeethroughWhite => 12,
        PresetSprites::BottomrightSolidCorner => 13,
        PresetSprites::ColumnTop => 14,
        PresetSprites::ColumnMiddle => 15,
        PresetSprites::ColumnBottom => 16,
        PresetSprites::Left => 17,
        PresetSprites::Top => 18,
        PresetSprites::Right => 19,
        PresetSprites::Bottom => 20,
        PresetSprites::KittyCard => 21,
        PresetSprites::PiggyCard => 22,
        PresetSprites::LizardCard => 23,
        PresetSprites::BirdCard => 24,
        PresetSprites::Cloud => 33,
        PresetSprites::Clock => 34,
        PresetSprites::CatHead => 35,
    }
}


/// The frames of sprite `i` of the table of all sprites, each given as
/// `[page, x in page, y, width, height]`.
pub open spec fn sprite_positions(i: int) -> Seq<[u8; 5]> {
    if i == 0 {
        // main kitty
        seq![[0u8, 16, 55, 14, 9], [1u8, 16, 55, 13, 9], [2u8, 16, 55, 14, 9], [3u8, 16, 50, 11, 14], [4u8, 16, 52, 6, 12], [5u8, 16, 54, 12, 10]]
    } else if i == 1 {
        // lil kitty 1
        seq![[0u8, 0, 43, 9, 5], [1u8, 0, 42, 10, 6], [2u8, 0, 41, 9, 7], [3u8, 0, 38, 9, 10], [4u8, 0, 39, 6, 9], [5u8, 0, 41, 7, 7]]
    } else if i == 2 {
        // lil kitty 2
        seq![[0u8, 0, 52, 9, 4], [1u8, 0, 51, 9, 5], [2u8, 0, 51, 9, 5], [3u8, 0, 48, 10, 8], [4u8, 0, 48, 5, 8], [5u8, 0, 50, 8, 7]]
    } else if i == 3 {
        // lil kitty 3
        seq![[0u8, 0, 60, 10, 4], [1u8, 0, 59, 10, 5], [2u8, 0, 59, 10, 5], [3u8, 0, 57, 10, 7], [4u8, 0, 56, 5, 8], [5u8, 0, 57, 8, 7]]
    } else if i == 4 {
        // lil kitty 4
        seq![[0u8, 16, 44, 10, 4], [1u8, 16, 43, 10, 5], [2u8, 16, 43, 10, 5], [3u8, 16, 40, 10, 8], [4u8, 16, 40, 5, 8], [5u8, 16, 41, 8, 7]]
    } else if i == 5 {
        // pig
        seq![[0u8, 16, 35, 8, 5], [1u8, 16, 35, 8, 5], [0u8, 16, 35, 8, 5], [1u8, 16, 35, 8, 5], [0u8, 16, 35, 8, 5], [1u8, 16, 35, 8, 5]]
    } else if i == 6 {
        // lizard
        seq![[0u8, 16, 23, 10, 9], [1u8, 16, 24, 10, 8], [0u8, 16, 23, 10, 9], [1u8, 16, 24, 10, 8], [0u8, 16, 23, 10, 9], [1u8, 16, 24, 10, 8]]
    } else if i == 7 {
        // bird
        seq![[0u8, 16, 9, 10, 7], [1u8, 16, 8, 10, 8], [2u8, 16, 10, 10, 6], [1u8, 16, 8, 10, 8], [2u8, 16, 10, 10, 6], [1u8, 16, 8, 10, 8]]
    } else if i == 8 {
        // top left corner
        seq![[0u8, 0, 0, 5, 5]]
    } else if i == 9 {
        // solid block
        seq![[0u8, 5, 0, 5, 5]]
    } else if i == 10 {
        // top right corner
        seq![[0u8, 10, 0, 5, 5]]
    } else if i == 11 {
        // bottom left corner
        seq![[0u8, 0, 5, 5, 5]]
    } else if i == 12 {
        // see through bubble block
        seq![[0u8, 5, 5, 5, 5]]
    } else if i == 13 {
        // bottom right corner
        seq![[0u8, 10, 5, 5, 5]]
    } else if i == 14 {
        // column top
        seq![[0u8, 0, 10, 5, 5]]
    } else if i == 15 {
        // column middle
        seq![[0u8, 0, 15, 5, 5]]
    } else if i == 16 {
        // column bottom
        seq![[0u8, 0, 20, 5, 5]]
    } else if i == 17 {
        // left
        seq![[0u8, 5, 10, 5, 5]]
    } else if i == 18 {
        // bottom
        seq![[0u8, 10, 10, 5, 5]]
    } else if i == 19 {
        // top
        seq![[0u8, 5, 15, 5, 5]]
    } else if i == 20 {
        // right
        seq![[0u8, 10, 15, 5, 5]]
    } else if i == 21 {
        // kitty card
        seq![[3u8, 0, 0, 12, 12]]
    } else if i == 22 {
        // pig card
        seq![[3u8, 12, 0, 12, 12]]
    } else if i == 23 {
        // lizard card
        seq![[3u8, 0, 12, 12, 12]]
    } else if i == 24 {
        // bird card
        seq![[3u8, 12, 12, 12, 12]]
    } else if i == 25 {
        // solid tileset top left
        seq![[0u8, 0, 25, 5, 5]]
    } else if i == 26 {
        // solid block
        seq![[0u8, 5, 25, 5, 5]]
    } else if i == 27 {
        // solid top right
        seq![[0u8, 10, 25, 5, 5]]
    } else if i == 28 {
        // bottom left
        seq![[0u8, 0, 30, 5, 5]]
    } else if i == 29 {
        // bottom right
        seq![[0u8, 10, 30, 5, 5]]
    } else if i == 30 {
        // complete solid
        seq![[0u8, 0, 35, 5, 5]]
    } else if i == 31 {
        // scraggle
        seq![[0u8, 5, 35, 5, 5]]
    } else if i == 32 {
        // checker
        seq![[0u8, 10, 35, 5, 5]]
    } else if i == 33 {
        // cloud
        seq![[1u8, 0, 0, 6, 3]]
    } else if i == 34 {
        // clock
        seq![[0u8, 17, 0, 7, 8]]
    } else {
        // cat head
        seq![[3u8, 3, 3, 6, 6]]
    }
}

/// Sprite `s` has the frames that `positions` describes.
pub open spec fn sprite_matches(s: Sprite, positions: Seq<[u8; 5]>) -> bool {
    &&& s.frames@.len() == positions.len()
    &&& forall|j: int| 0 <= j < positions.len() ==> #[trigger] s.frames@[j] == frame_of(positions[j])
}

/// Appends the sprite whose frames are `frames`, the next one of the table.
fn push_sprite(sprites: &mut Vec<Sprite>, frames: Vec<[u8; 5]>)
    requires
        old(sprites)@.len() < N_SPRITES,
        frames@ == sprite_positions(old(sprites)@.len() as int),
        forall|j: int| 0 <= j < frames@.len() ==> frame_spec_fits(#[trigger] frames@[j]),
    ensures
        final(sprites)@.len() == old(sprites)@.len() + 1,
        forall|i: int| 0 <= i < old(sprites)@.len() ==> #[trigger] final(sprites)@[i] == old(sprites)@[i],
        sprite_matches(final(sprites)@[old(sprites)@.len() as int], sprite_positions(old(sprites)@.len() as int)),
{
    let s = Sprite::from_page_x_y_w_h(frames);
    sprites.push(s);
}

impl Sprite {
    /// The table of all sprites: the cats and animals (six frames each), the
    /// tiles, the cards, the cloud, the clock and the cat head, at the slots
    /// that `spec_preset_index` gives the presets.
    pub fn init_all_sprites() -> (sprites: Vec<Sprite>)
        ensures
            sprites@.len() == N_SPRITES,
            forall|i: int| 0 <= i < N_SPRITES ==> sprite_matches(#[trigger] sprites@[i], sprite_positions(i)),
    {
        let mut the_sprites: Vec<Sprite> = Vec::new();
        // 0: main kitty
        let frames: Vec<[u8; 5]> = vec![[0u8, 16, 55, 14, 9], [1u8, 16, 55, 13, 9], [2u8, 16, 55, 14, 9], [3u8, 16, 50, 11, 14], [4u8, 16, 52, 6, 12], [5u8, 16, 54, 12, 10]];
        assert(frames@ =~= sprite_positions(0));
        push_sprite(&mut the_sprites, frames);
        // 1: lil kitty 1
        let frames: Vec<[u8; 5]> = vec![[0u8, 0, 43, 9, 5], [1u8, 0, 42, 10, 6], [2u8, 0, 41, 9, 7], [3u8, 0, 38, 9, 10], [4u8, 0, 39, 6, 9], [5u8, 0, 41, 7, 7]];
        assert(frames@ =~= sprite_positions(1));
        push_sprite(&mut the_sprites, frames);
        // 2: lil kitty 2
        let frames: Vec<[u8; 5]> = vec![[0u8, 0, 52, 9, 4], [1u8, 0, 51, 9, 5], [2u8, 0, 51, 9, 5], [3u8, 0, 48, 10, 8], [4u8, 0, 48, 5, 8], [5u8, 0, 50, 8, 7]];
        assert(frames@ =~= sprite_positions(2));
        push_sprite(&mut the_sprites, frames);
        // 3: lil kitty 3
        let frames: Vec<[u8; 5]> = vec![[0u8, 0, 60, 10, 4], [1u8, 0, 59, 10, 5], [2u8, 0, 59, 10, 5], [3u8, 0, 57, 10, 7], [4u8, 0, 56, 5, 8], [5u8, 0, 57, 8, 7]];
        assert(frames@ =~= sprite_positions(3));
        push_sprite(&mut the_sprites, frames);
        // 4: lil kitty 4
        let frames: Vec<[u8; 5]> = vec![[0u8, 16, 44, 10, 4], [1u8, 16, 43, 10, 5], [2u8, 16, 43, 10, 5], [3u8, 16, 40, 10, 8], [4u8, 16, 40, 5, 8], [5u8, 16, 41, 8, 7]];
        assert(frames@ =~= sprite_positions(4));
        push_sprite(&mut the_sprites, frames);
        // 5: pig
        let frames: Vec<[u8; 5]> = vec![[0u8, 16, 35, 8, 5], [1u8, 16, 35, 8, 5], [0u8, 16, 35, 8, 5], [1u8, 16, 35, 8, 5], [0u8, 16, 35, 8, 5], [1u8, 16, 35, 8, 5]];
        assert(frames@ =~= sprite_positions(5));
        push_sprite(&mut the_sprites, frames);
        // 6: lizard
        let frames: Vec<[u8; 5]> = vec![[0u8, 16, 23, 10, 9], [1u8, 16, 24, 10, 8], [0u8, 16, 23, 10, 9], [1u8, 16, 24, 10, 8], [0u8, 16, 23, 10, 9], [1u8, 16, 24, 10, 8]];
        assert(frames@ =~= sprite_positions(6));
        push_sprite(&mut the_sprites, frames);
        // 7: bird
        let frames: Vec<[u8; 5]> = vec![[0u8, 16, 9, 10, 7], [1u8, 16, 8, 10, 8], [2u8, 16, 10, 10, 6], [1u8, 16, 8, 10, 8], [2u8, 16, 10, 10, 6], [1u8, 16, 8, 10, 8]];
        assert(frames@ =~= sprite_positions(7));
        push_sprite(&mut the_sprites, frames);
        // 8: top left corner
        let frames: Vec<[u8; 5]> = vec![[0u8, 0, 0, 5, 5]];
        assert(frames@ =~= sprite_positions(8));
        push_sprite(&mut the_sprites, frames);
        // 9: solid block
        let frames: Vec<[u8; 5]> = vec![[0u8, 5, 0, 5, 5]];
        assert(frames@ =~= sprite_positions(9));
        push_sprite(&mut the_sprites, frames);
        // 10: top right corner
        let frames: Vec<[u8; 5]> = vec![[0u8, 10, 0, 5, 5]];
        assert(frames@ =~= sprite_positions(10));
        push_sprite(&mut the_sprites, frames);
        // 11: bottom left corner
        let frames: Vec<[u8; 5]> = vec![[0u8, 0, 5, 5, 5]];
        assert(frames@ =~= sprite_positions(11));
        push_sprite(&mut the_sprites, frames);
        // 12: see through bubble block
        let frames: Vec<[u8; 5]> = vec![[0u8, 5, 5, 5, 5]];
        assert(frames@ =~= sprite_positions(12));
        push_sprite(&mut the_sprites, frames);
        // 13: bottom right corner
        let frames: Vec<[u8; 5]> = vec![[0u8, 10, 5, 5, 5]];
        assert(frames@ =~= sprite_positions(13));
        push_sprite(&mut the_sprites, frames);
        // 14: column top
        let frames: Vec<[u8; 5]> = vec![[0u8, 0, 10, 5, 5]];
        assert(frames@ =~= sprite_positions(14));
        push_sprite(&mut the_sprites, frames);
        // 15: column middle
        let frames: Vec<[u8; 5]> = vec![[0u8, 0, 15, 5, 5]];
        assert(frames@ =~= sprite_positions(15));
        push_sprite(&mut the_sprites, frames);
        // 16: column bottom
        let frames: Vec<[u8; 5]> = vec![[0u8, 0, 20, 5, 5]];
        assert(frames@ =~= sprite_positions(16));
        push_sprite(&mut the_sprites, frames);
        // 17: left
        let frames: Vec<[u8; 5]> = vec![[0u8, 5, 10, 5, 5]];
        assert(frames@ =~= sprite_positions(17));
        push_sprite(&mut the_sprites, frames);
        // 18: bottom
        let frames: Vec<[u8; 5]> = vec![[0u8, 10, 10, 5, 5]];
        assert(frames@ =~= sprite_positions(18));
        push_sprite(&mut the_sprites, frames);
        // 19: top
        let frames: Vec<[u8; 5]> = vec![[0u8, 5, 15, 5, 5]];
        assert(frames@ =~= sprite_positions(19));
        push_sprite(&mut the_sprites, frames);
        // 20: right
        let frames: Vec<[u8; 5]> = vec![[0u8, 10, 15, 5, 5]];
        assert(frames@ =~= sprite_positions(20));
        push_sprite(&mut the_sprites, frames);
        // 21: kitty card
        let frames: Vec<[u8; 5]> = vec![[3u8, 0, 0, 12, 12]];
        assert(frames@ =~= sprite_positions(21));
        push_sprite(&mut the_sprites, frames);
        // 22: pig card
        let frames: Vec<[u8; 5]> = vec![[3u8, 12, 0, 12, 12]];
        assert(frames@ =~= sprite_positions(22));
        push_sprite(&mut the_sprites, frames);
        // 23: lizard card
        let frames: Vec<[u8; 5]> = vec![[3u8, 0, 12, 12, 12]];
        assert(frames@ =~= sprite_positions(23));
        push_sprite(&mut the_sprites, frames);
        // 24: bird card
        let frames: Vec<[u8; 5]> = vec![[3u8, 12, 12, 12, 12]];
        assert(frames@ =~= sprite_positions(24));
        push_sprite(&mut the_sprites, frames);
        // 25: solid tileset top left
        let frames: Vec<[u8; 5]> = vec![[0u8, 0, 25, 5, 5]];
        assert(frames@ =~= sprite_positions(25));
        push_sprite(&mut the_sprites, frames);
        // 26: solid block
        let frames: Vec<[u8; 5]> = vec![[0u8, 5, 25, 5, 5]];
        assert(frames@ =~= sprite_positions(26));
        push_sprite(&mut the_sprites, frames);
        // 27: solid top right
        let frames: Vec<[u8; 5]> = vec![[0u8, 10, 25, 5, 5]];
        assert(frames@ =~= sprite_positions(27));
        push_sprite(&mut the_sprites, frames);
        // 28: bottom left
        let frames: Vec<[u8; 5]> = vec![[0u8, 0, 30, 5, 5]];
        assert(frames@ =~= sprite_positions(28));
        push_sprite(&mut the_sprites, frames);
        // 29: bottom right
        let frames: Vec<[u8; 5]> = vec![[0u8, 10, 30, 5, 5]];
        assert(frames@ =~= sprite_positions(29));
        push_sprite(&mut the_sprites, frames);
        // 30: complete solid
        let frames: Vec<[u8; 5]> = vec![[0u8, 0, 35, 5, 5]];
        assert(frames@ =~= sprite_positions(30));
        push_sprite(&mut the_sprites, frames);
        // 31: scraggle
        let frames: Vec<[u8; 5]> = vec![[0u8, 5, 35, 5, 5]];
        assert(frames@ =~= sprite_positions(31));
        push_sprite(&mut the_sprites, frames);
        // 32: checker
        let frames: Vec<[u8; 5]> = vec![[0u8, 10, 35, 5, 5]];
        assert(frames@ =~= sprite_positions(32));
        push_sprite(&mut the_sprites, frames);
        // 33: cloud
        let frames: Vec<[u8; 5]> = vec![[1u8, 0, 0, 6, 3]];
        assert(frames@ =~= sprite_positions(33));
        push_sprite(&mut the_sprites, frames);
        // 34: clock
        let frames: Vec<[u8; 5]> = vec![[0u8, 17, 0, 7, 8]];
        assert(frames@ =~= sprite_positions(34));
        push_sprite(&mut the_sprites, frames);
        // 35: cat head
        let frames: Vec<[u8; 5]> = vec![[3u8, 3, 3, 6, 6]];
        assert(frames@ =~= sprite_positions(35));
        push_sprite(&mut the_sprites, frames);
        the_sprites
    }
}

} // verus!
