//! Gamepad buttons: which were pressed this frame, and the scripted input
//! of the title screen.
use vstd::prelude::*;

verus! {

pub const BUTTON_1: u8 = 1;

pub const BUTTON_2: u8 = 2;

pub const BUTTON_LEFT: u8 = 16;

pub const BUTTON_RIGHT: u8 = 32;

pub const BUTTON_UP: u8 = 64;

pub const BUTTON_DOWN: u8 = 128;

/// For each of the four gamepads, the buttons that are held now and were not
/// held on the previous frame.
pub fn buttons_pressed_this_frame(gamepads: [u8; 4], previous: [u8; 4]) -> (pressed: [u8; 4])
    ensures
        forall|i: int| 0 <= i < 4 ==> #[trigger] pressed[i] == gamepads[i] & (gamepads[i] ^ previous[i]),
{
    let mut btns_pressed_this_frame: [u8; 4] = [0; 4];
    let mut i: usize = 0;
    while i < 4
        invariant
            0 <= i <= 4,
            forall|j: int| 0 <= j < i ==> #[trigger] btns_pressed_this_frame[j] == gamepads[j] & (gamepads[j] ^ previous[j]),
        decreases 4 - i,
    {
        let gamepad = gamepads[i];
        let prev = previous[i];
        btns_pressed_this_frame[i] = gamepad & (gamepad ^ prev);
        i = i + 1;
    }
    btns_pressed_this_frame
}

/// A button counts as pressed this frame exactly when it is held now and was
/// not held on the previous frame.
pub proof fn law_pressed_means_newly_held(now: u8, before: u8)
    ensures
        now & (now ^ before) == now & !before,
        (now & (now ^ before)) & before == 0,
        (now & (now ^ before)) & !now == 0,
{
    assert(now & (now ^ before) == now & !before) by (bit_vector);
    assert((now & (now ^ before)) & before == 0) by (bit_vector);
    assert((now & (now ^ before)) & !now == 0) by (bit_vector);
}

/// The scripted input that walks the first cat around the title screen.
pub open spec fn spec_title_screen_input(song_timer: u32) -> u8 {
    let move_n = (((((song_timer / 10) * 31) % 0x1_0000_0000) % 29) as u8) & !(BUTTON_LEFT | BUTTON_RIGHT);
    if move_n <= 2 {
        move_n | BUTTON_LEFT
    } else if move_n <= 6 {
        move_n | BUTTON_RIGHT
    } else {
        move_n
    }
}

/// The scripted input that walks the first cat around the title screen at
/// frame `song_timer` (the product wrapping around in 32 bits).
pub fn title_screen_input(song_timer: u32) -> (input: u8)
    ensures
        input == spec_title_screen_input(song_timer),
{
    let mut move_n = ((song_timer / 10).wrapping_mul(31) % 29) as u8;
    move_n &= !(BUTTON_LEFT | BUTTON_RIGHT);
    let mut input = move_n;
    if move_n <= 2 {
        input |= BUTTON_LEFT;
    } else if move_n <= 6 {
        input |= BUTTON_RIGHT;
    }
    input
}

} // verus!
