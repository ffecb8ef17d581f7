use kittygame::game_state::RunType;
use kittygame::menus::{
    level_end_menu, modal_action, options_ready_to_select, select_screen_step, shows_help_text, text_timer,
    ModalAction, MenuTypes,
};

#[test]
fn dialogs_take_input_after_a_delay() {
    assert!(!options_ready_to_select(true, 59));
    assert!(options_ready_to_select(true, 60));
    assert!(!options_ready_to_select(false, 600));
    assert_eq!(text_timer(true, 75), 75);
    assert_eq!(text_timer(true, 10), 0);
    assert_eq!(text_timer(false, 75), 0);
}

#[test]
fn dialog_actions() {
    assert!(matches!(modal_action(&MenuTypes::WonLevel, true, 1, 0), ModalAction::NextLevel));
    assert!(matches!(modal_action(&MenuTypes::WonLevel, true, 16, 0), ModalAction::Stay));
    assert!(matches!(modal_action(&MenuTypes::WonLevel, false, 1, 0), ModalAction::Stay));
    assert!(matches!(modal_action(&MenuTypes::StartLevel, true, 0, 101), ModalAction::StartPlay));
    assert!(matches!(modal_action(&MenuTypes::StartLevel, true, 0, 100), ModalAction::Stay));
    assert!(matches!(modal_action(&MenuTypes::StartLevel, true, 2, 0), ModalAction::StartPlay));
    assert!(matches!(modal_action(&MenuTypes::Done, true, 2, 0), ModalAction::BackToTitle));
    assert!(matches!(modal_action(&MenuTypes::WonGame, true, 1, 0), ModalAction::BackToTitle));
    assert!(matches!(modal_action(&MenuTypes::StartGameMessage, true, 3, 0), ModalAction::StartPlay));
}

#[test]
fn level_ends_when_all_animals_follow() {
    assert!(level_end_menu(3, 2, 1, 10).is_none());
    assert!(matches!(level_end_menu(3, 3, 1, 10), Some(MenuTypes::WonLevel)));
    assert!(matches!(level_end_menu(3, 3, 10, 10), Some(MenuTypes::WonGame)));
}

#[test]
fn help_text_on_first_frame_of_first_level() {
    assert!(shows_help_text(1, 3599, 3600, 0));
    assert!(!shows_help_text(1, 3599, 3600, 1));
    assert!(!shows_help_text(2, 3599, 3600, 0));
    assert!(!shows_help_text(1, 3598, 3600, 0));
}

#[test]
fn setup_screen_menu() {
    let s = select_screen_step(0, RunType::Random, 64);
    assert_eq!(s.menu_idx, 3);
    assert!(!s.start_game);
    let s = select_screen_step(1, RunType::Random, 128 | 32);
    assert_eq!(s.menu_idx, 2);
    assert!(matches!(s.run_type, RunType::Speedrun(0)));
    let s = select_screen_step(2, RunType::Speedrun(4), 2);
    assert!(matches!(s.run_type, RunType::Speedrun(5)));
    let s = select_screen_step(3, RunType::Speedrun(4), 16);
    assert!(matches!(s.run_type, RunType::Random));
    let s = select_screen_step(2, RunType::Speedrun(7), 1);
    assert!(s.start_game);
    assert!(matches!(s.run_type, RunType::Speedrun(7)));
    assert_eq!(s.menu_idx, 2);
}

#[test]
fn dialog_rectangles() {
    let b = kittygame::menus::dialog_bound(&MenuTypes::WonGame);
    assert_eq!((b.x, b.y, b.width, b.height), (25, 35, 110, 65));
    let b = kittygame::menus::dialog_bound(&MenuTypes::StartGameMessage);
    assert_eq!((b.x, b.y, b.width, b.height), (10, 10, 140, 140));
    let b = kittygame::menus::dialog_bound(&MenuTypes::Done);
    assert_eq!((b.x, b.y, b.width, b.height), (15, 50, 130, 60));
}
