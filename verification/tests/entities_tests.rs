use kittygame::entities::{
    get_sprite_i_from_anim_state, ground_probe_displacement, horizontal_input, jump_decision,
    state_after_airborne_frame, state_after_ceiling_hit, state_after_ground_check, state_after_horizontal_input,
    state_after_wall_hit, update_warp, wall_hug_step, HorizontalMovementOutcome, KittyStates, WarpAbility, WarpState,
};

#[test]
fn sprite_frames_by_state() {
    assert_eq!(get_sprite_i_from_anim_state(&KittyStates::HuggingWall(true), 3), 4);
    assert_eq!(get_sprite_i_from_anim_state(&KittyStates::JumpingUp(0), -9), 0);
    assert_eq!(get_sprite_i_from_anim_state(&KittyStates::JumpingUp(3), -2), 3);
    assert_eq!(get_sprite_i_from_anim_state(&KittyStates::JumpingUp(3), 4), 2);
    assert_eq!(get_sprite_i_from_anim_state(&KittyStates::JumpingUp(3), 5), 5);
    assert_eq!(get_sprite_i_from_anim_state(&KittyStates::Sleeping, 0), 0);
    assert_eq!(get_sprite_i_from_anim_state(&KittyStates::Walking(5), 0), 1);
    assert_eq!(get_sprite_i_from_anim_state(&KittyStates::Walking(6), 0), 2);
    assert_eq!(get_sprite_i_from_anim_state(&KittyStates::OnCeiling(12), 0), 1);
}

#[test]
fn left_and_right_input() {
    let (moving, facing, outcome) = horizontal_input(16, &KittyStates::Sleeping, true);
    assert!(moving && !facing && outcome == HorizontalMovementOutcome::StartedMoving);
    let (moving, facing, outcome) = horizontal_input(16 | 32, &KittyStates::Walking(2), true);
    assert!(moving && !facing && outcome == HorizontalMovementOutcome::ChangedDirection);
    let (moving, facing, outcome) = horizontal_input(32, &KittyStates::Walking(2), true);
    assert!(moving && facing && outcome == HorizontalMovementOutcome::DoingSameThing);
    let (moving, facing, outcome) = horizontal_input(0, &KittyStates::Walking(2), false);
    assert!(!moving && !facing && outcome == HorizontalMovementOutcome::StoppedMoving);
    let (moving, _, outcome) = horizontal_input(0, &KittyStates::Sleeping, false);
    assert!(!moving && outcome == HorizontalMovementOutcome::DoingSameThing);
}

#[test]
fn jumping_rules() {
    assert_eq!(jump_decision(&KittyStates::Sleeping, false, 1), (true, false));
    assert_eq!(jump_decision(&KittyStates::Sleeping, false, 0), (false, false));
    assert_eq!(jump_decision(&KittyStates::JumpingUp(1), false, 1), (true, true));
    assert_eq!(jump_decision(&KittyStates::JumpingUp(10), false, 1), (true, false));
    assert_eq!(jump_decision(&KittyStates::JumpingUp(11), false, 1), (false, false));
    assert_eq!(jump_decision(&KittyStates::JumpingUp(200), true, 1), (true, false));
}

#[test]
fn state_after_left_right() {
    let o = HorizontalMovementOutcome::DoingSameThing;
    assert!(state_after_horizontal_input(&KittyStates::Walking(254), o) == KittyStates::Walking(0));
    assert!(state_after_horizontal_input(&KittyStates::Walking(3), o) == KittyStates::Walking(4));
    assert!(
        state_after_horizontal_input(&KittyStates::Sleeping, HorizontalMovementOutcome::StartedMoving)
            == KittyStates::Walking(0)
    );
    assert!(
        state_after_horizontal_input(&KittyStates::OnCeiling(7), HorizontalMovementOutcome::StoppedMoving)
            == KittyStates::Sleeping
    );
    assert!(
        state_after_horizontal_input(&KittyStates::OnCeiling(7), HorizontalMovementOutcome::ChangedDirection)
            == KittyStates::OnCeiling(0)
    );
    assert!(state_after_horizontal_input(&KittyStates::JumpingUp(7), o) == KittyStates::JumpingUp(7));
}

#[test]
fn ground_probe() {
    assert_eq!(ground_probe_displacement(&KittyStates::Walking(0), 0), 1);
    assert_eq!(ground_probe_displacement(&KittyStates::OnCeiling(0), 0), -1);
    assert_eq!(ground_probe_displacement(&KittyStates::HuggingWall(false), 0), 0);
    assert_eq!(ground_probe_displacement(&KittyStates::Sleeping, -3), -3);
}

#[test]
fn collisions_change_state() {
    assert!(state_after_ceiling_hit(&KittyStates::Walking(3)) == KittyStates::OnCeiling(0));
    assert!(state_after_ceiling_hit(&KittyStates::OnCeiling(3)) == KittyStates::OnCeiling(4));
    assert!(state_after_ceiling_hit(&KittyStates::HuggingWall(true)) == KittyStates::HuggingWall(true));
    assert!(state_after_wall_hit(&KittyStates::JumpingUp(15)) == KittyStates::JumpingUp(15));
    assert!(state_after_wall_hit(&KittyStates::JumpingUp(16)) == KittyStates::HuggingWall(true));
    assert!(state_after_wall_hit(&KittyStates::OnCeiling(2)) == KittyStates::HuggingWall(true));
    assert!(state_after_wall_hit(&KittyStates::Walking(2)) == KittyStates::Walking(2));
}

#[test]
fn ground_check() {
    assert!(state_after_ground_check(&KittyStates::Walking(4), false) == KittyStates::JumpingUp(30));
    assert!(state_after_ground_check(&KittyStates::Sleeping, false) == KittyStates::JumpingUp(30));
    assert!(state_after_ground_check(&KittyStates::OnCeiling(4), false) == KittyStates::JumpingUp(0));
    assert!(state_after_ground_check(&KittyStates::JumpingUp(16), true) == KittyStates::Walking(0));
    assert!(state_after_ground_check(&KittyStates::JumpingUp(15), true) == KittyStates::JumpingUp(15));
    assert!(state_after_ground_check(&KittyStates::HuggingWall(true), false) == KittyStates::HuggingWall(true));
}

#[test]
fn warp_charging() {
    let charging = WarpAbility::CanWarp(WarpState::Charging(24));
    assert!(update_warp(&charging, true) == (WarpAbility::CanWarp(WarpState::Charging(25)), false));
    let full = WarpAbility::CanWarp(WarpState::Charging(25));
    assert!(update_warp(&full, true) == (WarpAbility::CanWarp(WarpState::Ready), false));
    let ready = WarpAbility::CanWarp(WarpState::Ready);
    assert!(update_warp(&ready, true) == (WarpAbility::CanWarp(WarpState::Charging(0)), true));
    assert!(update_warp(&ready, false) == (WarpAbility::CanWarp(WarpState::Charging(0)), false));
    assert!(update_warp(&WarpAbility::CannotWarp, true) == (WarpAbility::CannotWarp, false));
}

#[test]
fn step_counters_wrap_around() {
    let o = HorizontalMovementOutcome::DoingSameThing;
    assert!(state_after_horizontal_input(&KittyStates::Walking(255), o) == KittyStates::Walking(0));
    assert!(state_after_horizontal_input(&KittyStates::OnCeiling(255), o) == KittyStates::OnCeiling(0));
    assert!(state_after_horizontal_input(&KittyStates::OnCeiling(253), o) == KittyStates::OnCeiling(254));
    assert!(state_after_ceiling_hit(&KittyStates::OnCeiling(254)) == KittyStates::OnCeiling(255));
    assert!(state_after_ceiling_hit(&KittyStates::OnCeiling(255)) == KittyStates::OnCeiling(0));
}

#[test]
fn airborne_frame_counts_up() {
    assert!(state_after_airborne_frame(0) == KittyStates::JumpingUp(1));
    assert!(state_after_airborne_frame(41) == KittyStates::JumpingUp(42));
    assert!(state_after_airborne_frame(254) == KittyStates::JumpingUp(255));
    assert!(state_after_airborne_frame(255) == KittyStates::JumpingUp(0));
}

#[test]
fn hugging_a_wall() {
    let turned = wall_hug_step(HorizontalMovementOutcome::ChangedDirection, false, 1);
    assert!(turned.state == KittyStates::JumpingUp(0));
    assert!(!turned.facing_right && !turned.wall_jump);
    let jumped = wall_hug_step(HorizontalMovementOutcome::DoingSameThing, true, 1);
    assert!(jumped.state == KittyStates::JumpingUp(0));
    assert!(!jumped.facing_right && jumped.wall_jump);
    let held = wall_hug_step(HorizontalMovementOutcome::StoppedMoving, true, 0);
    assert!(held.state == KittyStates::HuggingWall(false));
    assert!(held.facing_right && !held.wall_jump);
}
