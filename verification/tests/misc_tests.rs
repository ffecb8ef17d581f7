use kittygame::ability_cards::{plan_card_use, remove_consumed, AbilityCardTypes, AbilityCardUsageResult};
use kittygame::game_constants::map_gen_setting;
use kittygame::input::{buttons_pressed_this_frame, title_screen_input};
use kittygame::music::{play_bgm, Song};
use kittygame::spritesheet::{preset_index, PresetSprites, Sprite, N_SPRITES};

fn happy() -> Song {
    Song {
        name: "happy",
        scale: [294, 330, 370, 392, 440, 494, 554, 587],
        f1_pitchchange_timer: 5,
        f2_pitchchange_timer: 3,
        measure_length: 12,
        f1_note_duration: 5,
        f2_note_duration: 3,
        time_signature: (3, 4),
    }
}

#[test]
fn music_notes() {
    let (a, b) = play_bgm(0, &happy());
    let a = a.unwrap();
    assert_eq!((a.frequency, a.duration, a.volume, a.flags), (294, 5, 20, 0));
    assert!(b.is_none());
    let (a, b) = play_bgm(36, &happy());
    assert_eq!(a.unwrap().frequency, 587);
    assert!(b.is_none());
    let (a, b) = play_bgm(144, &happy());
    assert_eq!(a.unwrap().frequency, 440);
    let b = b.unwrap();
    assert_eq!((b.frequency, b.duration, b.volume, b.flags), (294, 3, 20, 1));
    let (a, b) = play_bgm(1, &happy());
    assert!(a.is_none() && b.is_none());
}

#[test]
fn sprite_frames_from_pages() {
    let s = Sprite::from_page_x_y_w_h(vec![[0, 16, 55, 14, 9], [3, 12, 0, 12, 12]]);
    assert_eq!(s.frames.len(), 2);
    let f = s.frames[0];
    assert_eq!((f.width, f.height, f.start_x, f.start_y), (14, 9, 16, 55));
    let f = s.frames[1];
    assert_eq!((f.width, f.height, f.start_x, f.start_y), (12, 12, 108, 0));
}

#[test]
fn sprite_table() {
    let sprites = Sprite::init_all_sprites();
    assert_eq!(sprites.len(), N_SPRITES);
    assert_eq!(sprites[0].frames.len(), 6);
    let f = sprites[0].frames[3];
    assert_eq!((f.width, f.height, f.start_x, f.start_y), (11, 14, 112, 50));
    assert_eq!(sprites[9].frames.len(), 1);
    let f = sprites[21].frames[0];
    assert_eq!((f.width, f.height, f.start_x, f.start_y), (12, 12, 96, 0));
    let f = sprites[35].frames[0];
    assert_eq!((f.width, f.height, f.start_x, f.start_y), (6, 6, 99, 3));
    assert_eq!(preset_index(&PresetSprites::MainCat), 0);
    assert_eq!(preset_index(&PresetSprites::SolidWhite), 9);
    assert_eq!(preset_index(&PresetSprites::ToprightSolidCorner), 10);
    assert_eq!(preset_index(&PresetSprites::Cloud), 33);
    assert_eq!(preset_index(&PresetSprites::CatHead), 35);
}

#[test]
fn buttons_pressed_only_on_new_holds() {
    let pressed = buttons_pressed_this_frame([0b0011, 0, 0xff, 16], [0b0001, 5, 0x0f, 16]);
    assert_eq!(pressed, [0b0010, 0, 0xf0, 0]);
}

#[test]
fn title_screen_script() {
    // frame 0: 0 -> left
    assert_eq!(title_screen_input(0), 16);
    // frame 10: 31 % 29 = 2 -> left
    assert_eq!(title_screen_input(10), 2 | 16);
    // frame 20: 62 % 29 = 4 -> right
    assert_eq!(title_screen_input(20), 4 | 32);
    // frame 30: 93 % 29 = 6 -> right
    assert_eq!(title_screen_input(30), 6 | 32);
    // frame 40: 124 % 29 = 8 -> nothing
    assert_eq!(title_screen_input(40), 8);
}

#[test]
fn map_generation_settings() {
    let s = map_gen_setting(1);
    assert_eq!((s.chunk_min_side_len, s.chunk_max_side_len, s.max_n_tiles_per_chunk), (6, 25, 2000));
    let s = map_gen_setting(2);
    assert_eq!((s.chunk_min_side_len, s.chunk_max_side_len, s.max_n_tiles_per_chunk), (6, 12, 800));
}

#[test]
fn using_cards_from_the_top() {
    let cards = vec![Some(AbilityCardTypes::Kitty), Some(AbilityCardTypes::Piggy), None, Some(AbilityCardTypes::Piggy), Some(AbilityCardTypes::Piggy)];
    let (res, consumed) = plan_card_use(&cards);
    assert!(matches!(res, AbilityCardUsageResult::GainedTime(30)));
    assert_eq!(consumed, vec![false, true, false, true, true]);
    let mut stack = vec!["k", "p1", "none", "p2", "p3"];
    remove_consumed(&mut stack, &consumed);
    assert_eq!(stack, vec!["k", "none"]);

    let (res, consumed) = plan_card_use(&vec![Some(AbilityCardTypes::Kitty), Some(AbilityCardTypes::Kitty), Some(AbilityCardTypes::Kitty)]);
    assert!(matches!(res, AbilityCardUsageResult::GainedTime(6)));
    assert_eq!(consumed, vec![true, true, true]);

    let (res, _) = plan_card_use(&vec![Some(AbilityCardTypes::Bird), Some(AbilityCardTypes::Lizard)]);
    assert!(matches!(res, AbilityCardUsageResult::EnabledWarpAndTime(3)));
    let (res, _) = plan_card_use(&vec![Some(AbilityCardTypes::Bird), Some(AbilityCardTypes::Bird)]);
    assert!(matches!(res, AbilityCardUsageResult::EnabledFlyAndTime(6)));

    let (res, consumed) = plan_card_use(&vec![Some(AbilityCardTypes::Bird), None]);
    assert!(matches!(res, AbilityCardUsageResult::NothingHappened));
    assert_eq!(consumed, vec![false, false]);
    let (res, consumed) = plan_card_use(&vec![]);
    assert!(matches!(res, AbilityCardUsageResult::NothingHappened));
    assert!(consumed.is_empty());
}

#[test]
fn title_screen_input_wraps_around() {
    assert_eq!(title_screen_input(u32::MAX), 12);
}

#[test]
fn long_stack_with_empty_top_does_nothing() {
    let mut cards = Vec::new();
    for _ in 0..6 {
        cards.push(Some(AbilityCardTypes::Kitty));
    }
    cards.push(None);
    let (res, consumed) = plan_card_use(&cards);
    assert!(matches!(res, AbilityCardUsageResult::NothingHappened));
    assert_eq!(consumed, vec![false; 7]);
    remove_consumed(&mut cards, &consumed);
    assert_eq!(cards.len(), 7);
    assert!(cards[6].is_none() && cards[0].is_some());
}
