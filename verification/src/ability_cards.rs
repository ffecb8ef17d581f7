//! Ability cards: collected by finding animals, used from the top of a stack.
use vstd::prelude::*;

verus! {

#[derive(PartialEq, Eq, Structural)]
pub enum AbilityCardTypes {
    Kitty,
    Piggy,
    Lizard,
    Bird,
}

/// At most this many cards fit in a stack.
pub const N_CARDS: usize = 5;

pub enum AbilityCardUsageResult {
    NothingHappened,
    GainedTime(u32),
    EnabledFlyAndTime(u32),
    EnabledWarpAndTime(u32),
}

/// Whether the card in slot `i` is used up when the stack is used: the top
/// card is, and so is every card of the same type below it up to the first
/// card of another type (empty slots neither count nor stop the run).
pub open spec fn card_consumed(cards: Seq<Option<AbilityCardTypes>>, i: int) -> bool {
    let n = cards.len();
    &&& n > 0
    &&& cards[n - 1] is Some
    &&& 0 <= i < n
    &&& (i == n - 1 || (cards[i] == cards[n - 1] && forall|j: int|
        i < j < n - 1 ==> #[trigger] cards[j] is None || cards[j] == cards[n - 1]))
}

/// Using a stack uses up its top card and the cards of the same type below
/// it, down to the first card of another type; empty slots are skipped.
/// So: the top slot is used up exactly when it holds a card; a used-up slot
/// holds the top card's type; a card of another type between a slot and the
/// top keeps that slot (and everything beneath it) from being used up; and a
/// slot of the top's type with nothing but empty slots and cards of that type
/// above it is used up.
pub proof fn law_cards_used_down_to_other_type(cards: Seq<Option<AbilityCardTypes>>, i: int)
    requires
        0 <= i < cards.len(),
    ensures
        card_consumed(cards, cards.len() - 1) == (cards.last() is Some),
        card_consumed(cards, i) ==> cards.last() is Some && cards[i] == cards.last(),
        forall|j: int|
            i < j < cards.len() && (#[trigger] cards[j]) is Some && cards[j] != cards.last() ==> !card_consumed(
                cards,
                i,
            ),
        cards.last() is Some && cards[i] == cards.last() && (forall|j: int|
            i < j < cards.len() ==> (#[trigger] cards[j]) is None || cards[j] == cards.last()) ==> card_consumed(
            cards,
            i,
        ),
{
}

/// The number of used-up cards among the first `k` slots.
pub open spec fn count_consumed(cards: Seq<Option<AbilityCardTypes>>, k: int) -> int
    decreases k,
{
    if k <= 0 {
        0
    } else {
        count_consumed(cards, k - 1) + if card_consumed(cards, k - 1) { 1int } else { 0int }
    }
}

/// No slot below `k` being used up, none is counted.
pub proof fn lemma_count_none(cards: Seq<Option<AbilityCardTypes>>, k: int)
    requires
        forall|j: int| 0 <= j < k ==> !card_consumed(cards, j),
    ensures
        count_consumed(cards, k) == 0,
    decreases k,
{
    if k > 0 {
        lemma_count_none(cards, k - 1);
    }
}

/// The effect of using `n` cards of type `t`.
pub open spec fn usage_result(t: AbilityCardTypes, n: int) -> AbilityCardUsageResult {
    match t {
        AbilityCardTypes::Kitty => AbilityCardUsageResult::GainedTime((n * (n + 1) / 2) as u32),
        AbilityCardTypes::Piggy => AbilityCardUsageResult::GainedTime((n * 10) as u32),
        AbilityCardTypes::Lizard => AbilityCardUsageResult::EnabledWarpAndTime((n * 3) as u32),
        AbilityCardTypes::Bird => AbilityCardUsageResult::EnabledFlyAndTime((n * 3) as u32),
    }
}

/// Decides what using the top of a card stack does: which slots are used up,
/// and the effect. `cards` holds the type of the card in each slot (the top
/// is the last slot). Nothing happens when the stack is empty or its top
/// slot is empty (a stack of any size); a stack with a card on top holds at
/// most `N_CARDS` slots.
pub fn plan_card_use(cards: &Vec<Option<AbilityCardTypes>>) -> (res: (AbilityCardUsageResult, Vec<bool>))
    requires
        cards@.len() <= N_CARDS || cards@.last() is None,
    ensures
        res.1@.len() == cards@.len(),
        forall|i: int| 0 <= i < cards@.len() ==> res.1@[i] == card_consumed(cards@, i),
        forall|i: int, j: int|
            0 <= i < j < cards@.len() && #[trigger] res.1@[i] && (#[trigger] cards@[j]) is Some ==> cards@[j]
                == cards@[cards@.len() - 1],
        (cards@.len() == 0 || cards@.last() is None) ==> res.0 is NothingHappened,
        cards@.len() > 0 && cards@.last() is Some ==> res.0 == usage_result(
            cards@.last()->0,
            count_consumed(cards@, cards@.len() as int),
        ),
{
    let n = cards.len();
    let mut consume: Vec<bool> = Vec::new();
    let mut k: usize = 0;
    while k < n
        invariant
            k <= n,
            n == cards@.len(),
            consume@.len() == k,
            forall|i: int| 0 <= i < k ==> !consume@[i],
        decreases n - k,
    {
        consume.push(false);
        k = k + 1;
    }
    if n == 0 {
        return (AbilityCardUsageResult::NothingHappened, consume);
    }
    let top = &cards[n - 1];
    match top {
        None => {
            assert forall|i: int| 0 <= i < cards@.len() implies consume@[i] == card_consumed(cards@, i) by {}
            (AbilityCardUsageResult::NothingHappened, consume)
        },
        Some(top_type) => {
            consume.set(n - 1, true);
            let mut n_consumed: u32 = 1;
            let mut i: usize = n - 1;
            let mut stopped = false;
            // Walk down from just below the top while the run continues.
            while i > 0 && !stopped
                invariant
                    n == cards@.len(),
                    1 <= n <= N_CARDS,
                    cards@[n - 1] == Some(*top_type),
                    0 <= i <= n - 1,
                    consume@.len() == n,
                    consume@[n - 1],
                    forall|j: int| i <= j < n ==> consume@[j] == card_consumed(cards@, j),
                    forall|j: int| 0 <= j < i ==> !consume@[j],
                    stopped ==> forall|j: int| 0 <= j < i ==> !card_consumed(cards@, j),
                    !stopped ==> forall|j: int|
                        i <= j < n - 1 ==> #[trigger] cards@[j] is None || cards@[j] == cards@[n - 1],
                    n_consumed as int == count_consumed(cards@, n as int) - count_consumed(cards@, i as int),
                    1 <= n_consumed <= n - i,
                decreases i + (if stopped { 0int } else { 1int }),
            {
                let j = i - 1;
                match &cards[j] {
                    Some(oc) => {
                        if *oc == *top_type {
                            consume.set(j, true);
                            n_consumed = n_consumed + 1;
                            i = j;
                        } else {
                            stopped = true;
                        }
                    },
                    None => {
                        i = j;
                    },
                }
            }
            proof {
                if stopped {
                    lemma_count_none(cards@, i as int);
                }
            }
            assert(1 <= n_consumed <= 5);
            assert(n_consumed * (n_consumed + 1) <= 30) by (nonlinear_arith)
                requires 1 <= n_consumed <= 5;
            let res = match top_type {
                AbilityCardTypes::Kitty => AbilityCardUsageResult::GainedTime(
                    n_consumed * (n_consumed + 1) / 2,
                ),
                AbilityCardTypes::Piggy => AbilityCardUsageResult::GainedTime(n_consumed * 10),
                AbilityCardTypes::Lizard => AbilityCardUsageResult::EnabledWarpAndTime(
                    n_consumed * 3,
                ),
                AbilityCardTypes::Bird => AbilityCardUsageResult::EnabledFlyAndTime(n_consumed * 3),
            };
            (res, consume)
        },
    }
}

/// The items of `s` among its first `k` whose slot is not marked in `mask`,
/// in order.
pub open spec fn keep_unmarked<T>(s: Seq<T>, mask: Seq<bool>, k: int) -> Seq<T>
    decreases k,
{
    if k <= 0 {
        Seq::empty()
    } else if mask[k - 1] {
        keep_unmarked(s, mask, k - 1)
    } else {
        keep_unmarked(s, mask, k - 1).push(s[k - 1])
    }
}

/// Removes the used-up cards of a stack: those whose slot is marked in
/// `consumed` (as `plan_card_use` gives it); the others keep their order.
pub fn remove_consumed<T>(cards: &mut Vec<T>, consumed: &Vec<bool>)
    requires
        consumed@.len() == old(cards)@.len(),
    ensures
        final(cards)@ == keep_unmarked(old(cards)@, consumed@, old(cards)@.len() as int),
{
    let n = cards.len();
    let mut kept: Vec<T> = Vec::new();
    let mut i: usize = 0;
    while i < n
        invariant
            n == old(cards)@.len(),
            consumed@.len() == n,
            i <= n,
            cards@ == old(cards)@.subrange(i as int, n as int),
            kept@ == keep_unmarked(old(cards)@, consumed@, i as int),
        decreases n - i,
    {
        let c = cards.remove(0);
        if !consumed[i] {
            kept.push(c);
        }
        i = i + 1;
    }
    *cards = kept;
}

/// The slots that using `cards` marks as used up.
pub open spec fn consumed_mask(cards: Seq<Option<AbilityCardTypes>>) -> Seq<bool> {
    Seq::new(cards.len(), |i: int| card_consumed(cards, i))
}

proof fn lemma_keep_len(cards: Seq<Option<AbilityCardTypes>>, k: int)
    requires
        0 <= k <= cards.len(),
    ensures
        keep_unmarked(cards, consumed_mask(cards), k).len() == k - count_consumed(cards, k),
        0 <= count_consumed(cards, k) <= k,
    decreases k,
{
    if k > 0 {
        lemma_keep_len(cards, k - 1);
    }
}

/// Using a stack whose top slot holds a card uses up at least that card, and
/// removing the used-up cards (as `plan_card_use` marks them, with
/// `remove_consumed`) shrinks the stack by exactly the number of cards whose
/// effect was counted.
pub proof fn law_card_use_shrinks_stack(cards: Seq<Option<AbilityCardTypes>>)
    requires
        cards.len() > 0,
        cards.last() is Some,
    ensures
        count_consumed(cards, cards.len() as int) >= 1,
        keep_unmarked(cards, consumed_mask(cards), cards.len() as int).len() == cards.len() - count_consumed(
            cards,
            cards.len() as int,
        ),
{
    let n = cards.len() as int;
    lemma_keep_len(cards, n);
    lemma_keep_len(cards, n - 1);
    assert(card_consumed(cards, n - 1));
}

} // verus!
