//! The menus of the game: the dialogs shown over play, what a button press
//! does in them, and the run-type menu before a game.
use vstd::prelude::*;
use crate::collision::AbsoluteBoundingBox;
use crate::game_state::RunType;
use crate::input::{BUTTON_1, BUTTON_2, BUTTON_DOWN, BUTTON_LEFT, BUTTON_RIGHT, BUTTON_UP};

verus! {

/// The dialogs shown over play.
pub enum MenuTypes {
    StartGameMessage,
    StartLevel,
    WonLevel,
    Done,
    WonGame,
}

/// The item of the setup screen that has the focus.
pub enum SelectMenuFocuses {
    RunType,
}

pub struct SelectSetup {
    pub current_selection: SelectMenuFocuses,
}

/// Frames a dialog waits, once its text shows, before it takes input.
pub const INTERACTIVE_DELAY: u32 = 60;

/// Whether a dialog takes input: its text shows (it has grown to nearly its
/// full width) and it has been up for `INTERACTIVE_DELAY` frames.
pub fn options_ready_to_select(ready_to_show_text: bool, timer: u32) -> (r: bool)
    ensures
        r == (ready_to_show_text && timer >= INTERACTIVE_DELAY),
{
    ready_to_show_text && timer >= INTERACTIVE_DELAY
}

/// How long a dialog's text has been taking input: its timer once it takes
/// input, 0 before.
pub fn text_timer(ready_to_show_text: bool, timer: u32) -> (t: u32)
    ensures
        t == (if ready_to_show_text && timer >= INTERACTIVE_DELAY { timer } else { 0 }),
{
    if ready_to_show_text && timer >= INTERACTIVE_DELAY {
        return timer;
    }
    0
}

/// The rectangle that a dialog grows into: the help text covers most of the
/// screen, the others sit in its middle.
pub open spec fn spec_dialog_bound(menu: MenuTypes) -> (i32, i32, u32, u32) {
    match menu {
        MenuTypes::StartGameMessage => (10, 10, 140, 140),
        MenuTypes::StartLevel => (45, 40, 70, 50),
        MenuTypes::WonLevel => (40, 40, 80, 40),
        MenuTypes::Done => (15, 50, 130, 60),
        MenuTypes::WonGame => (25, 35, 110, 65),
    }
}

/// The rectangle that dialog `menu` grows into (see `spec_dialog_bound`).
pub fn dialog_bound(menu: &MenuTypes) -> (b: AbsoluteBoundingBox<i32, u32>)
    ensures
        (b.x, b.y, b.width, b.height) == spec_dialog_bound(*menu),
{
    match menu {
        MenuTypes::StartGameMessage => AbsoluteBoundingBox { x: 10, y: 10, width: 140, height: 140 },
        MenuTypes::StartLevel => AbsoluteBoundingBox { x: 45, y: 40, width: 70, height: 50 },
        MenuTypes::WonLevel => AbsoluteBoundingBox { x: 40, y: 40, width: 80, height: 40 },
        MenuTypes::Done => AbsoluteBoundingBox { x: 15, y: 50, width: 130, height: 60 },
        MenuTypes::WonGame => AbsoluteBoundingBox { x: 25, y: 35, width: 110, height: 65 },
    }
}

/// What a dialog does with this frame's input.
pub enum ModalAction {
    /// The dialog stays up.
    Stay,
    /// The next level is made and its start dialog shown.
    NextLevel,
    /// Play begins (or resumes).
    StartPlay,
    /// The game ends and the title screen shows.
    BackToTitle,
}

/// What dialog `menu` does when `options_ready` says it takes input, a
/// button (1 or 2) was pressed this frame when `btn_pressed`, and its text
/// has been up for `text_timer` frames: the level-won dialog makes the next
/// level, the start-of-level dialog starts play on a press or after 100
/// frames, the game-over and game-won dialogs go back to the title, and the
/// first help text starts play.
pub open spec fn spec_modal_action(menu: MenuTypes, options_ready: bool, btn_pressed: bool, text_timer: u32) -> ModalAction {
    if !options_ready {
        ModalAction::Stay
    } else {
        match menu {
            MenuTypes::WonLevel => if btn_pressed { ModalAction::NextLevel } else { ModalAction::Stay },
            MenuTypes::StartLevel => if text_timer > 100 || btn_pressed {
                ModalAction::StartPlay
            } else {
                ModalAction::Stay
            },
            MenuTypes::Done => if btn_pressed { ModalAction::BackToTitle } else { ModalAction::Stay },
            MenuTypes::WonGame => if btn_pressed { ModalAction::BackToTitle } else { ModalAction::Stay },
            MenuTypes::StartGameMessage => if btn_pressed { ModalAction::StartPlay } else { ModalAction::Stay },
        }
    }
}

/// What dialog `menu` does this frame, given the buttons first pressed this
/// frame on the first gamepad.
pub fn modal_action(menu: &MenuTypes, options_ready: bool, pressed: u8, text_timer: u32) -> (a: ModalAction)
    ensures
        a == spec_modal_action(*menu, options_ready, pressed & (BUTTON_1 | BUTTON_2) != 0, text_timer),
{
    if !options_ready {
        return ModalAction::Stay;
    }
    let btn_pressed = pressed & (BUTTON_1 | BUTTON_2) != 0;
    match menu {
        MenuTypes::WonLevel => {
            if btn_pressed {
                ModalAction::NextLevel
            } else {
                ModalAction::Stay
            }
        },
        MenuTypes::StartLevel => {
            if text_timer > 100 || btn_pressed {
                ModalAction::StartPlay
            } else {
                ModalAction::Stay
            }
        },
        MenuTypes::Done => {
            if btn_pressed {
                ModalAction::BackToTitle
            } else {
                ModalAction::Stay
            }
        },
        MenuTypes::WonGame => {
            if btn_pressed {
                ModalAction::BackToTitle
            } else {
                ModalAction::Stay
            }
        },
        MenuTypes::StartGameMessage => {
            if btn_pressed {
                ModalAction::StartPlay
            } else {
                ModalAction::Stay
            }
        },
    }
}

/// The dialog that ends a level once all `total_npcs_to_find` animals
/// follow a player: the game is won on `final_level`, else the level is.
/// `None` while some animal is still to be found.
pub fn level_end_menu(total_npcs_to_find: u32, found_npcs: u32, difficulty_level: u32, final_level: u32) -> (m: Option<MenuTypes>)
    ensures
        total_npcs_to_find != found_npcs ==> m is None,
        total_npcs_to_find == found_npcs && difficulty_level == final_level ==> m == Some(MenuTypes::WonGame),
        total_npcs_to_find == found_npcs && difficulty_level != final_level ==> m == Some(MenuTypes::WonLevel),
{
    if total_npcs_to_find != found_npcs {
        None
    } else if difficulty_level == final_level {
        Some(MenuTypes::WonGame)
    } else {
        Some(MenuTypes::WonLevel)
    }
}

/// Whether the help dialog opens: on the first frame of play of the first
/// level (the countdown one below its start), before it was ever shown.
pub fn shows_help_text(difficulty_level: u32, countdown_timer_msec: u32, countdown_start: u32, tutorial_text_counter: u8) -> (r: bool)
    ensures
        r == (difficulty_level == 1 && countdown_timer_msec + 1 == countdown_start && tutorial_text_counter == 0),
{
    difficulty_level == 1 && countdown_start >= 1 && countdown_timer_msec == countdown_start - 1
        && tutorial_text_counter == 0
}

/// The run type that menu entry `menu_idx` selects: entry 2 is a speedrun
/// (from seed 0), the others random runs.
pub open spec fn spec_run_type_of_entry(menu_idx: u8) -> RunType {
    if menu_idx == 2 {
        RunType::Speedrun(0)
    } else {
        RunType::Random
    }
}

/// The state of the setup screen after a frame, and whether the game starts.
pub struct SelectStep {
    pub menu_idx: u8,
    pub run_type: RunType,
    pub start_game: bool,
}

/// One frame of the setup screen, given the buttons first pressed this frame
/// on the first gamepad: up and down move the highlighted entry among four
/// (wrapping around), left or right takes the highlighted run type, button 2
/// advances a speedrun's seed, and button 1 starts the game.
pub open spec fn spec_select_screen_step(menu_idx: u8, run_type: RunType, pressed: u8) -> SelectStep {
    let up: int = if pressed & BUTTON_UP != 0 { if menu_idx == 0 { 255 } else { menu_idx - 1 } } else { menu_idx as int };
    let down: int = if pressed & BUTTON_DOWN != 0 { (up + 1) % 256 } else { up };
    let idx = (down % 4) as u8;
    let rt = if pressed & (BUTTON_RIGHT | BUTTON_LEFT) != 0 { spec_run_type_of_entry(idx) } else { run_type };
    let rt2 = match rt {
        RunType::Speedrun(n) => if pressed & BUTTON_2 != 0 {
            RunType::Speedrun(if n == u32::MAX { 0 } else { (n + 1) as u32 })
        } else {
            rt
        },
        RunType::Random => rt,
    };
    SelectStep { menu_idx: idx, run_type: rt2, start_game: pressed & BUTTON_1 != 0 }
}

/// One frame of the setup screen (see `spec_select_screen_step`); the
/// highlighted entry and a speedrun's seed wrap around.
pub fn select_screen_step(menu_idx: u8, run_type: RunType, pressed: u8) -> (s: SelectStep)
    ensures
        s == spec_select_screen_step(menu_idx, run_type, pressed),
        s.menu_idx < 4,
{
    let mut idx = menu_idx;
    if pressed & BUTTON_UP != 0 {
        idx = idx.wrapping_sub(1);
    }
    if pressed & BUTTON_DOWN != 0 {
        idx = idx.wrapping_add(1);
    }
    idx = idx % 4;
    let rt = if pressed & (BUTTON_RIGHT | BUTTON_LEFT) != 0 {
        if idx == 2 {
            RunType::Speedrun(0)
        } else {
            RunType::Random
        }
    } else {
        run_type
    };
    let rt = match rt {
        RunType::Speedrun(n) => {
            if pressed & BUTTON_2 != 0 {
                RunType::Speedrun(n.wrapping_add(1))
            } else {
                RunType::Speedrun(n)
            }
        },
        RunType::Random => RunType::Random,
    };
    SelectStep { menu_idx: idx, run_type: rt, start_game: pressed & BUTTON_1 != 0 }
}

} // verus!
