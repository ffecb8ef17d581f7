use kittygame::ability_cards::{AbilityCardTypes, AbilityCardUsageResult};
use kittygame::collision::AbsoluteBoundingBox;
use kittygame::entities::{WarpAbility, WarpState};
use kittygame::play::{
    add_time, card_effect, card_type_of_animal, count_following, countdown_tick, found_npc_bonus, next_popup_index,
    npc_chases, npc_needs_teleport, random_npc_input, resolve_npc_hits, CardPopup, PopupIcon,
};
use kittygame::spritesheet::PresetSprites;

#[test]
fn time_card_adds_its_time() {
    let e = card_effect(AbilityCardUsageResult::GainedTime(6), false, WarpAbility::CannotWarp);
    assert_eq!(e.added_t, 6);
    assert!(!e.can_fly);
    assert!(e.warp_ability == WarpAbility::CannotWarp);
    assert!(matches!(e.popup, CardPopup::PlusTime(6)));
    assert!(matches!(e.icon, PopupIcon::Clock));
}

#[test]
fn nothing_happened_card() {
    let e = card_effect(AbilityCardUsageResult::NothingHappened, true, WarpAbility::CannotWarp);
    assert_eq!(e.added_t, 0);
    assert!(e.can_fly);
    assert!(matches!(e.popup, CardPopup::Silent));
    assert!(matches!(e.icon, PopupIcon::NoIcon));
}

#[test]
fn bird_card_gives_flight_once() {
    let e = card_effect(AbilityCardUsageResult::EnabledFlyAndTime(6), false, WarpAbility::CannotWarp);
    assert_eq!(e.added_t, 6);
    assert!(e.can_fly);
    assert!(matches!(e.popup, CardPopup::Fly));
    let e = card_effect(AbilityCardUsageResult::EnabledFlyAndTime(6), true, WarpAbility::CannotWarp);
    assert!(e.can_fly);
    assert!(matches!(e.popup, CardPopup::PlusTime(6)));
}

#[test]
fn lizard_card_gives_warp_at_a_cost() {
    let e = card_effect(AbilityCardUsageResult::EnabledWarpAndTime(12), false, WarpAbility::CannotWarp);
    assert_eq!(e.added_t, 2);
    assert!(e.warp_ability == WarpAbility::CanWarp(WarpState::Charging(0)));
    assert!(matches!(e.popup, CardPopup::HoldToWarp));
    assert!(matches!(e.icon, PopupIcon::DownArrow));
    // three seconds of card time, ten taken away: the countdown loses seven
    let e = card_effect(AbilityCardUsageResult::EnabledWarpAndTime(3), false, WarpAbility::CannotWarp);
    assert_eq!(e.added_t, 3u32.wrapping_sub(10));
    assert_eq!(add_time(1000, 5, e.added_t), (580, 4294967294));
    let e = card_effect(
        AbilityCardUsageResult::EnabledWarpAndTime(3),
        false,
        WarpAbility::CanWarp(WarpState::Ready),
    );
    assert_eq!(e.added_t, 10);
    assert!(e.warp_ability == WarpAbility::CanWarp(WarpState::Ready));
    assert!(matches!(e.popup, CardPopup::PlusTime(3)));
}

#[test]
fn added_time_is_capped() {
    assert_eq!(add_time(100, 7, 3), (280, 10));
    assert_eq!(add_time(5900, 0, 10), (5999, 10));
    assert_eq!(add_time(0, 0, 0), (0, 0));
}

#[test]
fn countdown_ticks_down_and_runs_out() {
    let t = countdown_tick(2, 10);
    assert_eq!((t.countdown_timer_msec, t.speedrun_timer_msec, t.time_up), (1, 11, false));
    let t = countdown_tick(1, 11);
    assert_eq!((t.countdown_timer_msec, t.speedrun_timer_msec, t.time_up), (0, 12, true));
    let t = countdown_tick(0, u32::MAX);
    assert_eq!((t.countdown_timer_msec, t.speedrun_timer_msec, t.time_up), (u32::MAX, 0, false));
}

#[test]
fn wandering_animal_inputs() {
    assert_eq!(random_npc_input(0), 16);
    assert_eq!(random_npc_input(19), 16);
    assert_eq!(random_npc_input(20), 32);
    assert_eq!(random_npc_input(39), 32);
    assert_eq!(random_npc_input(40), 1);
    assert_eq!(random_npc_input(41), 1);
    assert_eq!(random_npc_input(42), 0);
    assert_eq!(random_npc_input(255 + 5), 16);
    assert!(npc_chases(2));
    assert!(!npc_chases(11));
    assert!(!npc_chases(10));
}

#[test]
fn teleport_when_a_screen_apart() {
    let p = AbsoluteBoundingBox { x: 0, y: 0, width: 5, height: 5 };
    let near = AbsoluteBoundingBox { x: -160, y: 160, width: 5, height: 5 };
    let far_x = AbsoluteBoundingBox { x: 161, y: 0, width: 5, height: 5 };
    let far_y = AbsoluteBoundingBox { x: 0, y: -161, width: 5, height: 5 };
    assert!(!npc_needs_teleport(&p, &near));
    assert!(npc_needs_teleport(&p, &far_x));
    assert!(npc_needs_teleport(&p, &far_y));
}

#[test]
fn popup_ring_wraps() {
    assert_eq!(next_popup_index(0), 1);
    assert_eq!(next_popup_index(9), 0);
}

#[test]
fn animals_give_their_cards() {
    assert!(card_type_of_animal(&PresetSprites::Kitty2) == AbilityCardTypes::Kitty);
    assert!(card_type_of_animal(&PresetSprites::Pig) == AbilityCardTypes::Piggy);
    assert!(card_type_of_animal(&PresetSprites::Lizard) == AbilityCardTypes::Lizard);
    assert!(card_type_of_animal(&PresetSprites::BirdIsntReal) == AbilityCardTypes::Bird);
    assert!(card_type_of_animal(&PresetSprites::MainCat) == AbilityCardTypes::Kitty);
}

#[test]
fn hits_make_animals_follow() {
    let mut following = vec![None, Some(1), None];
    let found = resolve_npc_hits(&vec![(0, 0), (1, 0), (0, 1)], &mut following);
    assert_eq!(following, vec![Some(1), Some(0), None]);
    assert_eq!(found, vec![(0, 0)]);
    assert_eq!(count_following(&following), 2);
    assert_eq!(count_following(&vec![None, None]), 0);
}

#[test]
fn finding_an_animal_gives_a_second() {
    assert_eq!(found_npc_bonus(100, 5), (160, 65));
    assert_eq!(found_npc_bonus(5990, 0), (5999, 60));
}
