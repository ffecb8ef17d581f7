//! The decisions of a frame of play that do not depend on fractional
//! positions: what a used card does, the countdown and the score, the
//! random inputs of the animals, and the ring of popup texts.
use vstd::prelude::*;
use crate::ability_cards::{AbilityCardTypes, AbilityCardUsageResult};
use crate::spritesheet::PresetSprites;
use crate::collision::AbsoluteBoundingBox;
use crate::entities::{WarpAbility, WarpState};
use crate::game_constants::SCREEN_HEIGHT_PX;
use crate::game_state::MAX_COUNTDOWN;
use crate::input::{BUTTON_1, BUTTON_LEFT, BUTTON_RIGHT};

verus! {

/// The icon drawn beside a popup text (`NoIcon` for none).
pub enum PopupIcon {
    NoIcon,
    Clock,
    CatHead,
    DownArrow,
}

/// The text that pops up over a player who used cards.
pub enum CardPopup {
    /// Nothing pops up.
    Silent,
    /// The time gained, written " +t".
    PlusTime(u32),
    /// "fly!".
    Fly,
    /// The hint to hold down to warp.
    HoldToWarp,
}

/// What using cards does to a player and to the countdown.
pub struct CardEffect {
    /// The seconds added to the countdown and to the score (wrapping, so
    /// that a value past `u32::MAX - 10` takes seconds away).
    pub added_t: u32,
    pub can_fly: bool,
    pub warp_ability: WarpAbility,
    pub popup: CardPopup,
    pub icon: PopupIcon,
}

/// The effect of a card use with result `res` on a player who can fly when
/// `can_fly` and has warp ability `warp`: time cards add their time; bird
/// cards add their time and, the first time, give flight; lizard cards, the
/// first time, give the warp ability at a cost of ten seconds off their time,
/// and afterwards add ten seconds.
pub open spec fn spec_card_effect(res: AbilityCardUsageResult, can_fly: bool, warp: WarpAbility) -> CardEffect {
    match res {
        AbilityCardUsageResult::NothingHappened => CardEffect {
            added_t: 0,
            can_fly,
            warp_ability: warp,
            popup: CardPopup::Silent,
            icon: PopupIcon::NoIcon,
        },
        AbilityCardUsageResult::GainedTime(t) => CardEffect {
            added_t: t,
            can_fly,
            warp_ability: warp,
            popup: CardPopup::PlusTime(t),
            icon: PopupIcon::Clock,
        },
        AbilityCardUsageResult::EnabledFlyAndTime(t) => if can_fly {
            CardEffect { added_t: t, can_fly, warp_ability: warp, popup: CardPopup::PlusTime(t), icon: PopupIcon::Clock }
        } else {
            CardEffect { added_t: t, can_fly: true, warp_ability: warp, popup: CardPopup::Fly, icon: PopupIcon::NoIcon }
        },
        AbilityCardUsageResult::EnabledWarpAndTime(t) => if warp == WarpAbility::CannotWarp {
            CardEffect {
                added_t: (if t >= 10 { t - 10 } else { t + 0x1_0000_0000 - 10 }) as u32,
                can_fly,
                warp_ability: WarpAbility::CanWarp(WarpState::Charging(0)),
                popup: CardPopup::HoldToWarp,
                icon: PopupIcon::DownArrow,
            }
        } else {
            CardEffect { added_t: 10, can_fly, warp_ability: warp, popup: CardPopup::PlusTime(t), icon: PopupIcon::Clock }
        },
    }
}

/// What a card use does (see `spec_card_effect`).
pub fn card_effect(res: AbilityCardUsageResult, can_fly: bool, warp: WarpAbility) -> (e: CardEffect)
    ensures
        e == spec_card_effect(res, can_fly, warp),
{
    match res {
        AbilityCardUsageResult::NothingHappened => CardEffect {
            added_t: 0,
            can_fly,
            warp_ability: warp,
            popup: CardPopup::Silent,
            icon: PopupIcon::NoIcon,
        },
        AbilityCardUsageResult::GainedTime(t) => CardEffect {
            added_t: t,
            can_fly,
            warp_ability: warp,
            popup: CardPopup::PlusTime(t),
            icon: PopupIcon::Clock,
        },
        AbilityCardUsageResult::EnabledFlyAndTime(t) => {
            if can_fly {
                CardEffect {
                    added_t: t,
                    can_fly,
                    warp_ability: warp,
                    popup: CardPopup::PlusTime(t),
                    icon: PopupIcon::Clock,
                }
            } else {
                CardEffect {
                    added_t: t,
                    can_fly: true,
                    warp_ability: warp,
                    popup: CardPopup::Fly,
                    icon: PopupIcon::NoIcon,
                }
            }
        },
        AbilityCardUsageResult::EnabledWarpAndTime(t) => {
            if warp == WarpAbility::CannotWarp {
                CardEffect {
                    added_t: t.wrapping_sub(10),
                    can_fly,
                    warp_ability: WarpAbility::CanWarp(WarpState::Charging(0)),
                    popup: CardPopup::HoldToWarp,
                    icon: PopupIcon::DownArrow,
                }
            } else {
                CardEffect {
                    added_t: 10,
                    can_fly,
                    warp_ability: warp,
                    popup: CardPopup::PlusTime(t),
                    icon: PopupIcon::Clock,
                }
            }
        },
    }
}

/// The countdown and score after adding `added_t` seconds (each second 60
/// frames on the countdown), all modulo 2^32, the countdown then capped at
/// `MAX_COUNTDOWN`.
pub open spec fn spec_add_time(countdown_timer_msec: u32, score: u32, added_t: u32) -> (u32, u32) {
    let c = (countdown_timer_msec + (added_t * 60) % 0x1_0000_0000) % 0x1_0000_0000;
    (if c <= MAX_COUNTDOWN { c as u32 } else { MAX_COUNTDOWN }, ((score + added_t) % 0x1_0000_0000) as u32)
}

/// Adds the seconds of a card use to the countdown and the score.
pub fn add_time(countdown_timer_msec: u32, score: u32, added_t: u32) -> (r: (u32, u32))
    ensures
        r == spec_add_time(countdown_timer_msec, score, added_t),
        r.0 <= MAX_COUNTDOWN,
{
    let c = countdown_timer_msec.wrapping_add(added_t.wrapping_mul(60));
    let c = if c <= MAX_COUNTDOWN {
        c
    } else {
        MAX_COUNTDOWN
    };
    (c, score.wrapping_add(added_t))
}

/// The countdown and the speedrun timer after a frame of unpaused play, and
/// whether the time ran out.
pub struct CountdownTick {
    pub countdown_timer_msec: u32,
    pub speedrun_timer_msec: u32,
    pub time_up: bool,
}

/// A frame of unpaused play: the speedrun timer counts up and the countdown
/// counts down (both modulo 2^32); the time is up when the countdown reaches 0.
pub fn countdown_tick(countdown_timer_msec: u32, speedrun_timer_msec: u32) -> (t: CountdownTick)
    ensures
        t.speedrun_timer_msec == (speedrun_timer_msec + 1) % 0x1_0000_0000,
        t.countdown_timer_msec == (if countdown_timer_msec == 0 { u32::MAX as int } else { countdown_timer_msec - 1 }),
        t.time_up == (t.countdown_timer_msec == 0),
{
    let countdown = countdown_timer_msec.wrapping_sub(1);
    CountdownTick {
        countdown_timer_msec: countdown,
        speedrun_timer_msec: speedrun_timer_msec.wrapping_add(1),
        time_up: countdown == 0,
    }
}

/// The input of an animal that wanders, from an input draw: its value
/// modulo 255 picks left (below 20), right (below 40), a jump (below 42), or
/// nothing.
pub open spec fn spec_random_npc_input(draw: u64) -> u8 {
    let v = draw % 255;
    if v < 20 {
        BUTTON_LEFT
    } else if v < 40 {
        BUTTON_RIGHT
    } else if v < 42 {
        BUTTON_1
    } else {
        0
    }
}

/// The input of a wandering animal (see `spec_random_npc_input`).
pub fn random_npc_input(draw: u64) -> (input: u8)
    ensures
        input == spec_random_npc_input(draw),
{
    let rand_val = (draw % 255) as u8;
    if rand_val < 20 {
        BUTTON_LEFT
    } else if rand_val < 40 {
        BUTTON_RIGHT
    } else if rand_val < 42 {
        BUTTON_1
    } else {
        0
    }
}

/// Whether an animal chases its player this frame rather than wander: an
/// input draw whose value modulo 10 is above 1 (eight times in ten).
pub fn npc_chases(draw: u64) -> (r: bool)
    ensures
        r == (draw % 10 > 1),
{
    draw % 10 > 1
}

/// The distance between two pixel coordinates.
pub open spec fn spec_abs_diff(a: i32, b: i32) -> int {
    if a >= b {
        a - b
    } else {
        b - a
    }
}

fn abs_diff(a: i32, b: i32) -> (d: u32)
    ensures
        d == spec_abs_diff(a, b),
{
    if a >= b {
        (a as i64 - b as i64) as u32
    } else {
        (b as i64 - a as i64) as u32
    }
}

/// Whether an animal following a player is teleported onto it: their
/// corners are more than a screen height apart along either axis.
pub fn npc_needs_teleport(
    player_bound: &AbsoluteBoundingBox<i32, u32>,
    npc_bound: &AbsoluteBoundingBox<i32, u32>,
) -> (r: bool)
    ensures
        r == (spec_abs_diff(player_bound.x, npc_bound.x) > SCREEN_HEIGHT_PX || spec_abs_diff(
            player_bound.y,
            npc_bound.y,
        ) > SCREEN_HEIGHT_PX),
{
    abs_diff(player_bound.x, npc_bound.x) > SCREEN_HEIGHT_PX as u32 || abs_diff(player_bound.y, npc_bound.y)
        > SCREEN_HEIGHT_PX as u32
}

/// The number of popup texts kept at once.
pub const N_POPUP_TEXTS: u8 = 10;

/// The slot of the ring of popup texts that the next text takes, after slot
/// `next_avail_idx` was taken.
pub fn next_popup_index(next_avail_idx: u8) -> (i: u8)
    requires
        next_avail_idx < N_POPUP_TEXTS,
    ensures
        i == (next_avail_idx + 1) % (N_POPUP_TEXTS as int),
        i < N_POPUP_TEXTS,
{
    (next_avail_idx + 1) % N_POPUP_TEXTS
}

/// The card an animal gives when found: kittens give kitty cards, the pig a
/// piggy card, the lizard a lizard card, the bird a bird card (and anything
/// else a kitty card).
pub open spec fn spec_card_type_of_animal(p: PresetSprites) -> AbilityCardTypes {
    match p {
        PresetSprites::Pig => AbilityCardTypes::Piggy,
        PresetSprites::Lizard => AbilityCardTypes::Lizard,
        PresetSprites::BirdIsntReal => AbilityCardTypes::Bird,
        _ => AbilityCardTypes::Kitty,
    }
}

/// The card a found animal gives (see `spec_card_type_of_animal`).
pub fn card_type_of_animal(p: &PresetSprites) -> (t: AbilityCardTypes)
    ensures
        t == spec_card_type_of_animal(*p),
{
    match p {
        PresetSprites::Kitty1 | PresetSprites::Kitty2 | PresetSprites::Kitty3 | PresetSprites::Kitty4 => {
            AbilityCardTypes::Kitty
        },
        PresetSprites::Pig => AbilityCardTypes::Piggy,
        PresetSprites::Lizard => AbilityCardTypes::Lizard,
        PresetSprites::BirdIsntReal => AbilityCardTypes::Bird,
        _ => AbilityCardTypes::Kitty,
    }
}

/// Whom each animal follows after the first `k` (player, animal) hits of a
/// frame: an animal hit follows the player who hit it, the last hit winning.
pub open spec fn follow_after(following: Seq<Option<u8>>, hits: Seq<(u8, u8)>, k: int) -> Seq<Option<u8>>
    decreases k,
{
    if k <= 0 {
        following
    } else {
        follow_after(following, hits, k - 1).update(hits[k - 1].1 as int, Some(hits[k - 1].0))
    }
}

/// The hits among the first `k` whose animal followed nobody just before:
/// the animals found this frame, with their finders.
pub open spec fn newly_found(following: Seq<Option<u8>>, hits: Seq<(u8, u8)>, k: int) -> Seq<(u8, u8)>
    decreases k,
{
    if k <= 0 {
        Seq::empty()
    } else if follow_after(following, hits, k - 1)[hits[k - 1].1 as int] is None {
        newly_found(following, hits, k - 1).push(hits[k - 1])
    } else {
        newly_found(following, hits, k - 1)
    }
}

/// Applies this frame's (player, animal) hits to whom each animal follows
/// (`following`, by animal), and returns the hits that found an animal that
/// followed nobody (each gives its finder a card and a bonus).
pub fn resolve_npc_hits(hits: &Vec<(u8, u8)>, following: &mut Vec<Option<u8>>) -> (found: Vec<(u8, u8)>)
    requires
        forall|i: int| 0 <= i < hits@.len() ==> (#[trigger] hits@[i]).1 < old(following)@.len(),
    ensures
        final(following)@ == follow_after(old(following)@, hits@, hits@.len() as int),
        found@ == newly_found(old(following)@, hits@, hits@.len() as int),
{
    let mut found: Vec<(u8, u8)> = Vec::new();
    let mut k: usize = 0;
    while k < hits.len()
        invariant
            forall|i: int| 0 <= i < hits@.len() ==> (#[trigger] hits@[i]).1 < old(following)@.len(),
            k <= hits@.len(),
            following@ == follow_after(old(following)@, hits@, k as int),
            following@.len() == old(following)@.len(),
            found@ == newly_found(old(following)@, hits@, k as int),
        decreases hits@.len() - k,
    {
        let (p, n) = hits[k];
        assert(hits@[k as int].1 < old(following)@.len());
        if following[n as usize].is_none() {
            found.push((p, n));
        }
        following.set(n as usize, Some(p));
        k = k + 1;
    }
    found
}

/// The countdown and score after an animal is found: one second more on the
/// countdown (capped at `MAX_COUNTDOWN`) and 60 more points, both modulo 2^32.
pub fn found_npc_bonus(countdown_timer_msec: u32, score: u32) -> (r: (u32, u32))
    ensures
        r.0 == (if (countdown_timer_msec + 60) % 0x1_0000_0000 <= MAX_COUNTDOWN {
            (countdown_timer_msec + 60) % 0x1_0000_0000
        } else {
            MAX_COUNTDOWN as int
        }),
        r.1 == (score + 60) % 0x1_0000_0000,
{
    let gained_amount: u32 = 60;
    let c = countdown_timer_msec.wrapping_add(gained_amount);
    let c = if c <= MAX_COUNTDOWN {
        c
    } else {
        MAX_COUNTDOWN
    };
    (c, score.wrapping_add(gained_amount))
}

/// The number of animals among the first `k` that follow a player.
pub open spec fn spec_count_following(following: Seq<Option<u8>>, k: int) -> int
    decreases k,
{
    if k <= 0 {
        0
    } else {
        spec_count_following(following, k - 1) + if following[k - 1] is Some { 1int } else { 0int }
    }
}

/// The number of animals that follow a player.
pub fn count_following(following: &Vec<Option<u8>>) -> (n: u32)
    requires
        following@.len() <= u32::MAX,
    ensures
        n == spec_count_following(following@, following@.len() as int),
{
    let mut n: u32 = 0;
    let mut k: usize = 0;
    while k < following.len()
        invariant
            following@.len() <= u32::MAX,
            k <= following@.len(),
            n == spec_count_following(following@, k as int),
            n <= k,
        decreases following@.len() - k,
    {
        if following[k].is_some() {
            n = n + 1;
        }
        k = k + 1;
    }
    n
}

} // verus!
