//! The states of the cats and animals, and the decisions of their movement
//! that do not depend on their (fractional) positions and speeds.
use vstd::prelude::*;
use crate::input::{BUTTON_1, BUTTON_LEFT, BUTTON_RIGHT};

verus! {

/// How long the down button has been held toward a warp.
pub type WarpInputTimer = u8;

#[derive(PartialEq, Eq, Structural, Hash, Clone, Copy)]
pub enum WarpState {
    Charging(WarpInputTimer),
    Ready,
}

#[derive(PartialEq, Eq, Structural, Hash, Clone, Copy)]
pub enum WarpAbility {
    CannotWarp,
    CanWarp(WarpState),
}

#[derive(PartialEq, Eq, Structural, Hash, Clone, Copy)]
pub enum KittyStates {
    Sleeping,
    Walking(u8),
    JumpingUp(u8),
    HuggingWall(bool),
    OnCeiling(u8),
}

/// The number of frames of a cat's or animal's sprite.
pub const N_CHARACTER_FRAMES: i32 = 6;

/// The sprite frame shown for a state, given the vertical displacement of
/// this frame.
pub open spec fn spec_sprite_i(state: KittyStates, discrete_y_vel: i32) -> i32 {
    match state {
        KittyStates::HuggingWall(_) => 4,
        KittyStates::JumpingUp(t) => if t == 0 {
            0
        } else if discrete_y_vel < -1 {
            3
        } else if discrete_y_vel < 5 {
            2
        } else {
            5
        },
        KittyStates::Sleeping => 0,
        KittyStates::Walking(t) | KittyStates::OnCeiling(t) => if (t / 6) % 2 == 0 {
            1
        } else {
            2
        },
    }
}

/// The sprite frame shown for `state` with vertical displacement
/// `discrete_y_vel` this frame; always one of the six frames of a character.
pub fn get_sprite_i_from_anim_state(state: &KittyStates, discrete_y_vel: i32) -> (i: i32)
    ensures
        i == spec_sprite_i(*state, discrete_y_vel),
        0 <= i < N_CHARACTER_FRAMES,
{
    match state {
        KittyStates::HuggingWall(_) => 4,
        KittyStates::JumpingUp(t) => {
            if *t == 0 {
                0
            } else if discrete_y_vel < -1 {
                3
            } else if discrete_y_vel < 5 {
                2
            } else {
                5
            }
        },
        KittyStates::Sleeping => 0,
        KittyStates::Walking(t) | KittyStates::OnCeiling(t) => {
            if (*t / 6) % 2 == 0 {
                1
            } else {
                2
            }
        },
    }
}

/// What a frame's left/right input did to the movement.
#[derive(PartialEq, Eq, Structural, Clone, Copy)]
pub enum HorizontalMovementOutcome {
    ChangedDirection,
    StartedMoving,
    StoppedMoving,
    DoingSameThing,
}

/// Whether a left or right button is held (left wins), the facing after the
/// input, and the outcome for a character in `state` that faced right
/// (`previous_facing_right`) before.
pub open spec fn spec_horizontal_input(input: u8, state: KittyStates, previous_facing_right: bool) -> (
    bool,
    bool,
    HorizontalMovementOutcome,
) {
    let left = input & BUTTON_LEFT != 0;
    let right = input & BUTTON_RIGHT != 0;
    let moving = left || right;
    let facing = if left {
        false
    } else if right {
        true
    } else {
        previous_facing_right
    };
    let outcome = if moving && state == KittyStates::Sleeping {
        HorizontalMovementOutcome::StartedMoving
    } else if moving && previous_facing_right != facing {
        HorizontalMovementOutcome::ChangedDirection
    } else if !moving && state != KittyStates::Sleeping {
        HorizontalMovementOutcome::StoppedMoving
    } else {
        HorizontalMovementOutcome::DoingSameThing
    };
    (moving, facing, outcome)
}

/// Reads the left/right buttons: whether the character moves, which way it
/// faces afterwards, and how its movement changed.
pub fn horizontal_input(input: u8, state: &KittyStates, previous_facing_right: bool) -> (r: (
    bool,
    bool,
    HorizontalMovementOutcome,
))
    ensures
        r == spec_horizontal_input(input, *state, previous_facing_right),
{
    let mut moving_now = false;
    let mut facing_right = previous_facing_right;
    if input & BUTTON_LEFT != 0 {
        facing_right = false;
        moving_now = true;
    } else if input & BUTTON_RIGHT != 0 {
        facing_right = true;
        moving_now = true;
    }
    let sleeping = match state {
        KittyStates::Sleeping => true,
        _ => false,
    };
    let ret;
    if moving_now && sleeping {
        ret = HorizontalMovementOutcome::StartedMoving;
    } else if moving_now && previous_facing_right != facing_right {
        ret = HorizontalMovementOutcome::ChangedDirection;
    } else if !moving_now && !sleeping {
        ret = HorizontalMovementOutcome::StoppedMoving;
    } else {
        ret = HorizontalMovementOutcome::DoingSameThing;
    }
    (moving_now, facing_right, ret)
}

/// Whether a character in `state` may jump: not late in a jump (after its
/// tenth frame), unless it can fly.
pub open spec fn spec_jump_allowed(state: KittyStates, can_fly: bool) -> bool {
    can_fly || match state {
        KittyStates::JumpingUp(t) => t <= 10,
        _ => true,
    }
}

/// The jump decision of a frame: whether the character jumps (jump button
/// held and jumping allowed), and whether puffs of cloud are spawned (on the
/// second frame of a jump).
pub fn jump_decision(state: &KittyStates, can_fly: bool, input: u8) -> (r: (bool, bool))
    ensures
        r.0 == (spec_jump_allowed(*state, can_fly) && input & BUTTON_1 != 0),
        r.1 == (*state == KittyStates::JumpingUp(1)),
{
    let mut allow_jump = true;
    let mut clouds = false;
    match state {
        KittyStates::JumpingUp(t) => {
            if *t == 1 {
                clouds = true;
            }
            if *t > 10 {
                allow_jump = false;
            }
        },
        _ => {},
    }
    if can_fly {
        allow_jump = true;
    }
    (allow_jump && input & BUTTON_1 != 0, clouds)
}

/// The state of a sleeping, walking or ceiling-walking character after the
/// frame's left/right input; other states are returned as they are.
pub open spec fn spec_state_after_horizontal_input(state: KittyStates, outcome: HorizontalMovementOutcome) -> KittyStates {
    match state {
        KittyStates::Sleeping => if outcome == HorizontalMovementOutcome::StartedMoving {
            KittyStates::Walking(0)
        } else {
            state
        },
        KittyStates::Walking(t) => match outcome {
            HorizontalMovementOutcome::DoingSameThing => KittyStates::Walking((((t + 1) % 256) % 255) as u8),
            HorizontalMovementOutcome::ChangedDirection => KittyStates::Walking(0),
            HorizontalMovementOutcome::StoppedMoving => KittyStates::Sleeping,
            HorizontalMovementOutcome::StartedMoving => state,
        },
        KittyStates::OnCeiling(t) => match outcome {
            HorizontalMovementOutcome::DoingSameThing => KittyStates::OnCeiling((((t + 1) % 256) % 255) as u8),
            HorizontalMovementOutcome::ChangedDirection => KittyStates::OnCeiling(0),
            HorizontalMovementOutcome::StoppedMoving => KittyStates::Sleeping,
            HorizontalMovementOutcome::StartedMoving => state,
        },
        _ => state,
    }
}

/// The state after the frame's left/right input, for a sleeping, walking or
/// ceiling-walking character (the step counter wraps around in a byte, then
/// runs modulo 255).
pub fn state_after_horizontal_input(state: &KittyStates, outcome: HorizontalMovementOutcome) -> (s: KittyStates)
    ensures
        s == spec_state_after_horizontal_input(*state, outcome),
{
    match state {
        KittyStates::Sleeping => {
            if outcome == HorizontalMovementOutcome::StartedMoving {
                KittyStates::Walking(0)
            } else {
                KittyStates::Sleeping
            }
        },
        KittyStates::Walking(t) => match outcome {
            HorizontalMovementOutcome::DoingSameThing => KittyStates::Walking(t.wrapping_add(1) % 255),
            HorizontalMovementOutcome::ChangedDirection => KittyStates::Walking(0),
            HorizontalMovementOutcome::StoppedMoving => KittyStates::Sleeping,
            HorizontalMovementOutcome::StartedMoving => KittyStates::Walking(*t),
        },
        KittyStates::OnCeiling(t) => match outcome {
            HorizontalMovementOutcome::DoingSameThing => KittyStates::OnCeiling(t.wrapping_add(1) % 255),
            HorizontalMovementOutcome::ChangedDirection => KittyStates::OnCeiling(0),
            HorizontalMovementOutcome::StoppedMoving => KittyStates::Sleeping,
            HorizontalMovementOutcome::StartedMoving => KittyStates::OnCeiling(*t),
        },
        KittyStates::JumpingUp(t) => KittyStates::JumpingUp(*t),
        KittyStates::HuggingWall(b) => KittyStates::HuggingWall(*b),
    }
}

/// The state of a character after a frame in the air that began in
/// `JumpingUp(t)`: the jump's frame counter goes up by one, wrapping around
/// in a byte (a jump started during the frame does not reset it).
pub fn state_after_airborne_frame(t: u8) -> (s: KittyStates)
    ensures
        s == KittyStates::JumpingUp(((t + 1) % 256) as u8),
{
    KittyStates::JumpingUp(t.wrapping_add(1))
}

/// What a frame does to a character hugging a wall, besides its speed and
/// position: its state, which way it faces, and whether it jumps off the
/// wall.
pub struct WallHugStep {
    pub state: KittyStates,
    pub facing_right: bool,
    /// The character jumps off the wall, turning away from it.
    pub wall_jump: bool,
}

/// A character hugging a wall whose left/right input gave `outcome` and left
/// it facing right (`facing_right`): turning around lets go of the wall into
/// a fall; otherwise the jump button jumps off the wall, turning around, and
/// without it the character keeps hugging the wall.
pub open spec fn spec_wall_hug_step(outcome: HorizontalMovementOutcome, facing_right: bool, input: u8) -> WallHugStep {
    if outcome == HorizontalMovementOutcome::ChangedDirection {
        WallHugStep { state: KittyStates::JumpingUp(0), facing_right, wall_jump: false }
    } else if input & BUTTON_1 != 0 {
        WallHugStep { state: KittyStates::JumpingUp(0), facing_right: !facing_right, wall_jump: true }
    } else {
        WallHugStep { state: KittyStates::HuggingWall(false), facing_right, wall_jump: false }
    }
}

/// The frame of a character hugging a wall (see `spec_wall_hug_step`).
pub fn wall_hug_step(outcome: HorizontalMovementOutcome, facing_right: bool, input: u8) -> (r: WallHugStep)
    ensures
        r == spec_wall_hug_step(outcome, facing_right, input),
{
    if outcome == HorizontalMovementOutcome::ChangedDirection {
        return WallHugStep { state: KittyStates::JumpingUp(0), facing_right, wall_jump: false };
    }
    let (jumps, _) = jump_decision(&KittyStates::HuggingWall(false), false, input);
    if jumps {
        WallHugStep { state: KittyStates::JumpingUp(0), facing_right: !facing_right, wall_jump: true }
    } else {
        WallHugStep { state: KittyStates::HuggingWall(false), facing_right, wall_jump: false }
    }
}

/// The vertical displacement used to probe for ground: a displacement of
/// zero becomes one pixel down (one pixel up on a ceiling), except while
/// hugging a wall.
pub open spec fn spec_ground_probe(state: KittyStates, dy: i32) -> i32 {
    match state {
        KittyStates::HuggingWall(_) => dy,
        KittyStates::OnCeiling(_) => if dy == 0 { -1i32 } else { dy },
        _ => if dy == 0 { 1 } else { dy },
    }
}

/// Turns a zero vertical displacement into a one-pixel probe for ground.
pub fn ground_probe_displacement(state: &KittyStates, dy: i32) -> (r: i32)
    ensures
        r == spec_ground_probe(*state, dy),
{
    match state {
        KittyStates::HuggingWall(_) => dy,
        KittyStates::OnCeiling(_) => if dy == 0 {
            -1
        } else {
            dy
        },
        _ => if dy == 0 {
            1
        } else {
            dy
        },
    }
}

/// The state after a collision while moving up: a character holds on to the
/// ceiling (counting the frames it has done so, the count wrapping around in
/// a byte), unless it hugs a wall.
pub open spec fn spec_state_after_ceiling_hit(state: KittyStates) -> KittyStates {
    match state {
        KittyStates::OnCeiling(t) => KittyStates::OnCeiling(((t + 1) % 256) as u8),
        KittyStates::HuggingWall(b) => KittyStates::HuggingWall(b),
        _ => KittyStates::OnCeiling(0),
    }
}

/// A collision while moving up makes the character hang from the ceiling:
/// afterwards it is on the ceiling, unless it hugged a wall, which it then
/// keeps hugging as it was. A character that was not yet on the ceiling
/// (walking, sleeping or in a jump) starts counting its frames there from 0;
/// one already there counts one frame more (wrapping around in a byte).
pub proof fn law_ceiling_hit_hangs(state: KittyStates)
    ensures
        spec_state_after_ceiling_hit(state) is OnCeiling || spec_state_after_ceiling_hit(state) == state,
        (spec_state_after_ceiling_hit(state) is HuggingWall) == (state is HuggingWall),
        !(state is OnCeiling) && !(state is HuggingWall) ==> spec_state_after_ceiling_hit(state)
            == KittyStates::OnCeiling(0),
        state matches KittyStates::OnCeiling(t) ==> spec_state_after_ceiling_hit(state) == KittyStates::OnCeiling(
            if t == 255 {
                0
            } else {
                (t + 1) as u8
            },
        ),
{
}

/// The state after a collision while moving up.
pub fn state_after_ceiling_hit(state: &KittyStates) -> (s: KittyStates)
    ensures
        s == spec_state_after_ceiling_hit(*state),
        !(*state is OnCeiling) && !(*state is HuggingWall) ==> s == KittyStates::OnCeiling(0),
{
    match state {
        KittyStates::OnCeiling(t) => KittyStates::OnCeiling(t.wrapping_add(1)),
        KittyStates::HuggingWall(b) => KittyStates::HuggingWall(*b),
        _ => KittyStates::OnCeiling(0),
    }
}

/// The state after running into a wall: a character late in a fall (after
/// the fifteenth frame of a jump) or on a ceiling starts hugging the wall.
pub open spec fn spec_state_after_wall_hit(state: KittyStates) -> KittyStates {
    match state {
        KittyStates::JumpingUp(t) => if t <= 15 {
            state
        } else {
            KittyStates::HuggingWall(true)
        },
        KittyStates::OnCeiling(_) => KittyStates::HuggingWall(true),
        _ => state,
    }
}

/// The state after running into a wall.
pub fn state_after_wall_hit(state: &KittyStates) -> (s: KittyStates)
    ensures
        s == spec_state_after_wall_hit(*state),
{
    match state {
        KittyStates::JumpingUp(t) => {
            if *t <= 15 {
                KittyStates::JumpingUp(*t)
            } else {
                KittyStates::HuggingWall(true)
            }
        },
        KittyStates::OnCeiling(_) => KittyStates::HuggingWall(true),
        KittyStates::Sleeping => KittyStates::Sleeping,
        KittyStates::Walking(t) => KittyStates::Walking(*t),
        KittyStates::HuggingWall(b) => KittyStates::HuggingWall(*b),
    }
}

/// The state after checking for ground: without ground, walkers and
/// sleepers start falling and ceiling walkers let go; on ground, a fall
/// (after the fifteenth frame of a jump) ends in walking.
pub open spec fn spec_state_after_ground_check(state: KittyStates, touching_ground: bool) -> KittyStates {
    if !touching_ground {
        match state {
            KittyStates::Walking(_) | KittyStates::Sleeping => KittyStates::JumpingUp(30),
            KittyStates::OnCeiling(_) => KittyStates::JumpingUp(0),
            _ => state,
        }
    } else {
        match state {
            KittyStates::JumpingUp(t) => if t <= 15 {
                state
            } else {
                KittyStates::Walking(0)
            },
            _ => state,
        }
    }
}

/// The state after checking whether the character stands on something.
pub fn state_after_ground_check(state: &KittyStates, touching_ground: bool) -> (s: KittyStates)
    ensures
        s == spec_state_after_ground_check(*state, touching_ground),
{
    if !touching_ground {
        match state {
            KittyStates::Walking(_) | KittyStates::Sleeping => KittyStates::JumpingUp(30),
            KittyStates::OnCeiling(_) => KittyStates::JumpingUp(0),
            _ => *state,
        }
    } else {
        match state {
            KittyStates::JumpingUp(t) => {
                if *t <= 15 {
                    KittyStates::JumpingUp(*t)
                } else {
                    KittyStates::Walking(0)
                }
            },
            _ => *state,
        }
    }
}

/// The warp ability after a frame: holding down charges a warp for 25 frames
/// until it is ready, and holding it once more warps; letting go restarts the
/// charge. Characters that cannot warp are unaffected.
pub open spec fn spec_update_warp(ability: WarpAbility, down_held: bool) -> (WarpAbility, bool) {
    if down_held {
        match ability {
            WarpAbility::CannotWarp => (ability, false),
            WarpAbility::CanWarp(WarpState::Charging(t)) => if t >= 25 {
                (WarpAbility::CanWarp(WarpState::Ready), false)
            } else {
                (WarpAbility::CanWarp(WarpState::Charging((t + 1) as u8)), false)
            },
            WarpAbility::CanWarp(WarpState::Ready) => (
                WarpAbility::CanWarp(WarpState::Charging(0)),
                true,
            ),
        }
    } else {
        match ability {
            WarpAbility::CanWarp(_) => (WarpAbility::CanWarp(WarpState::Charging(0)), false),
            WarpAbility::CannotWarp => (ability, false),
        }
    }
}

/// Advances the warp ability by a frame; the second result says whether the
/// character warps this frame.
pub fn update_warp(ability: &WarpAbility, down_held: bool) -> (r: (WarpAbility, bool))
    ensures
        r == spec_update_warp(*ability, down_held),
{
    if down_held {
        match ability {
            WarpAbility::CannotWarp => (WarpAbility::CannotWarp, false),
            WarpAbility::CanWarp(warp_state) => match warp_state {
                WarpState::Charging(t) => {
                    if *t >= 25 {
                        (WarpAbility::CanWarp(WarpState::Ready), false)
                    } else {
                        (WarpAbility::CanWarp(WarpState::Charging(*t + 1)), false)
                    }
                },
                WarpState::Ready => (WarpAbility::CanWarp(WarpState::Charging(0)), true),
            },
        }
    } else {
        match ability {
            WarpAbility::CanWarp(_) => (WarpAbility::CanWarp(WarpState::Charging(0)), false),
            WarpAbility::CannotWarp => (WarpAbility::CannotWarp, false),
        }
    }
}

} // verus!
