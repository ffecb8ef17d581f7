//! A 128-bit multiplicative congruential generator with a xor-shift/rotate
//! output permutation (credit for the generator: analog-hors, MIT License).
use vstd::prelude::*;

verus! {

/// The multiplier of the congruential step.
pub open spec fn rng_multiplier() -> u128 {
    0x2360ED051FC65DA44385DF649FCCF645u128
}

/// The state of a freshly created generator.
pub open spec fn rng_initial_state() -> u128 {
    0x7369787465656E2062797465206E756Du128 | 1u128
}

/// One step of the generator: multiply the state, modulo 2^128.
#[verifier::opaque]
pub open spec fn rng_step(s: u128) -> u128 {
    vstd::wrapping::u128_specs::wrapping_mul(s, rng_multiplier())
}

/// The state after `n` steps from the initial state.
pub open spec fn rng_state_after(n: nat) -> u128
    decreases n,
{
    if n == 0 {
        rng_initial_state()
    } else {
        rng_step(rng_state_after((n - 1) as nat))
    }
}

/// A step keeps the state odd: the multiplier is odd.
proof fn lemma_step_keeps_odd(s: u128)
    requires
        s % 2 == 1,
    ensures
        rng_step(s) % 2 == 1,
{
    reveal(rng_step);
    let m = rng_multiplier();
    assert(m % 2 == 1);
    let p: int = s as int * m as int;
    vstd::arithmetic::div_mod::lemma_mul_mod_noop(s as int, m as int, 2);
    assert((s as int % 2) * (m as int % 2) % 2 == 1);
    assert(p % 2 == 1);
    vstd::arithmetic::div_mod::lemma_mod_mod(p, 2, 0x8000_0000_0000_0000_0000_0000_0000_0000);
    assert(2 * 0x8000_0000_0000_0000_0000_0000_0000_0000int == 0x1_0000_0000_0000_0000_0000_0000_0000_0000int);
}

/// The state of the generator stays odd after any number of steps, so the
/// multiplications never collapse it to zero and every stream keeps going.
pub proof fn law_rng_state_odd(n: nat)
    ensures
        rng_state_after(n) % 2 == 1,
    decreases n,
{
    if n == 0 {
        let x: u128 = 0x7369787465656E2062797465206E756Du128;
        assert((x | 1u128) % 2 == 1) by (bit_vector);
    } else {
        law_rng_state_odd((n - 1) as nat);
        lemma_step_keeps_odd(rng_state_after((n - 1) as nat));
    }
}

/// The state after `n` steps from state `s`.
pub open spec fn rng_steps_from(s: u128, n: nat) -> u128
    decreases n,
{
    if n == 0 {
        s
    } else {
        rng_step(rng_steps_from(s, (n - 1) as nat))
    }
}

/// Stepping `a` times and then `b` times is stepping `a + b` times.
pub proof fn lemma_rng_steps_add(s: u128, a: nat, b: nat)
    ensures
        rng_steps_from(rng_steps_from(s, a), b) == rng_steps_from(s, a + b),
    decreases b,
{
    if b > 0 {
        lemma_rng_steps_add(s, a, (b - 1) as nat);
    }
}

/// The `k`-th number (counting from 0) that a generator in state `s` hands out.
pub open spec fn rng_draw(s: u128, k: nat) -> u64 {
    rng_output(rng_steps_from(s, k + 1))
}

proof fn lemma_state_after_is_steps(n: nat)
    ensures
        rng_state_after(n) == rng_steps_from(rng_initial_state(), n),
    decreases n,
{
    if n > 0 {
        lemma_state_after_is_steps((n - 1) as nat);
    }
}

/// Seeding a generator with `n` skips the first `n` numbers of the fixed
/// stream: its `k`-th number is number `n + k` of an unseeded generator.
pub proof fn law_seed_is_prefix(n: nat, k: nat)
    ensures
        rng_draw(rng_state_after(n), k) == rng_draw(rng_initial_state(), n + k),
{
    lemma_state_after_is_steps(n);
    lemma_rng_steps_add(rng_initial_state(), n, k + 1);
}

/// Rotation of a 64-bit word to the right by `r` bits, for `r < 64`.
pub open spec fn rotate_right_u64(x: u64, r: u32) -> u64 {
    if r == 0 {
        x
    } else {
        (x >> r) | (x << (64 - r))
    }
}

/// The value that a generator in state `s` (already stepped) hands out: the
/// xor of the two halves of the state, rotated right by the top six bits.
pub open spec fn rng_output(s: u128) -> u64 {
    rotate_right_u64((((s >> 64u32) as u64) ^ (s as u64)), (s >> 122u32) as u32)
}

pub struct Rng(u128);

impl View for Rng {
    type V = u128;

    closed spec fn view(&self) -> u128 {
        self.0
    }
}

fn rotate_right(x: u64, r: u32) -> (res: u64)
    requires
        r < 64,
    ensures
        res == rotate_right_u64(x, r),
{
    if r == 0 {
        x
    } else {
        (x >> r) | (x << (64 - r))
    }
}

impl Rng {
    /// A generator in the fixed initial state.
    pub fn new() -> (rng: Self)
        ensures
            rng@ == rng_initial_state(),
    {
        Self(0x7369787465656E2062797465206E756Du128 | 1)
    }

    /// A generator that has already drawn `n_prefix_draws` numbers.
    pub fn new_from_seed(n_prefix_draws: u32) -> (rng: Self)
        ensures
            rng@ == rng_state_after(n_prefix_draws as nat),
    {
        let mut new_rng = Rng::new();
        let mut i: u32 = 0;
        while i < n_prefix_draws
            invariant
                i <= n_prefix_draws,
                new_rng@ == rng_state_after(i as nat),
            decreases n_prefix_draws - i,
        {
            new_rng.next();
            i = i + 1;
        }
        new_rng
    }

    /// Steps the generator and returns the output of the new state.
    pub fn next(&mut self) -> (r: u64)
        ensures
            final(self)@ == rng_step(old(self)@),
            r == rng_output(final(self)@),
    {
        proof {
            reveal(rng_step);
        }
        self.0 = self.0.wrapping_mul(0x2360ED051FC65DA44385DF649FCCF645);
        let s = self.0;
        let rot = (s >> 122) as u32;
        assert((s >> 122u32) < 64) by (bit_vector);
        let xsl = ((s >> 64) as u64) ^ (s as u64);
        rotate_right(xsl, rot)
    }
}

/// The generators of a game: either two fixed-seed streams (one for world
/// generation, one for the inputs of the non-player characters), or one
/// random stream shared by both uses.
pub enum GameRng {
    FixedSeed(Rng, Rng),
    Random(Rng),
}

impl GameRng {
    /// The state of the stream that world generation draws from.
    pub open spec fn worldgen_state(self) -> u128 {
        match self {
            GameRng::FixedSeed(w, _) => w@,
            GameRng::Random(r) => r@,
        }
    }

    /// The state of the stream that inputs draw from.
    pub open spec fn input_state(self) -> u128 {
        match self {
            GameRng::FixedSeed(_, i) => i@,
            GameRng::Random(r) => r@,
        }
    }

    /// `after` is `self` after draws for world generation only: the same kind
    /// of generator, and for fixed-seed streams the same input stream.
    pub open spec fn worldgen_only(self, after: GameRng) -> bool {
        &&& (after is FixedSeed) == (self is FixedSeed)
        &&& self is FixedSeed ==> after.input_state() == self.input_state()
    }

    /// Draws a number for world generation (see `worldgen_step`).
    pub fn next_for_worldgen(&mut self) -> (r: u64)
        ensures
            worldgen_step(*old(self), *final(self), r),
    {
        match self {
            GameRng::FixedSeed(fixed_rng, _) => fixed_rng.next(),
            GameRng::Random(rng) => rng.next(),
        }
    }

    /// Draws a number for the inputs of the non-player characters (see
    /// `input_step`).
    pub fn next_for_input(&mut self) -> (r: u64)
        ensures
            input_step(*old(self), *final(self), r),
    {
        match self {
            GameRng::FixedSeed(_, input_rng) => input_rng.next(),
            GameRng::Random(rng) => rng.next(),
        }
    }
}

/// A draw for world generation takes `before` to `after` and hands out `r`:
/// the kind of generator stays, the world-generation stream steps once and
/// `r` is its output, and a fixed-seed input stream is left alone.
pub open spec fn worldgen_step(before: GameRng, after: GameRng, r: u64) -> bool {
    &&& (after is FixedSeed) == (before is FixedSeed)
    &&& after.worldgen_state() == rng_step(before.worldgen_state())
    &&& r == rng_output(after.worldgen_state())
    &&& before is FixedSeed ==> after.input_state() == before.input_state()
}

/// A draw for the inputs takes `before` to `after` and hands out `r`: the
/// kind of generator stays, the input stream steps once and `r` is its
/// output, and a fixed-seed world-generation stream is left alone.
pub open spec fn input_step(before: GameRng, after: GameRng, r: u64) -> bool {
    &&& (after is FixedSeed) == (before is FixedSeed)
    &&& after.input_state() == rng_step(before.input_state())
    &&& r == rng_output(after.input_state())
    &&& before is FixedSeed ==> after.worldgen_state() == before.worldgen_state()
}

/// A run of draws: `states[i + 1]` follows `states[i]` by a draw for world
/// generation where `ops[i]` holds and by a draw for the inputs otherwise,
/// handing out `outs[i]`.
pub open spec fn draw_run(states: Seq<GameRng>, outs: Seq<u64>, ops: Seq<bool>) -> bool {
    &&& states.len() == ops.len() + 1
    &&& outs.len() == ops.len()
    &&& forall|i: int|
        0 <= i < ops.len() ==> if #[trigger] ops[i] {
            worldgen_step(states[i], states[i + 1], outs[i])
        } else {
            input_step(states[i], states[i + 1], outs[i])
        }
}

/// How many of the first `i` draws of `ops` are for world generation.
pub open spec fn n_worldgen_draws(ops: Seq<bool>, i: int) -> nat
    decreases i,
{
    if i <= 0 {
        0
    } else {
        n_worldgen_draws(ops, i - 1) + if ops[i - 1] { 1nat } else { 0nat }
    }
}

/// Along a run of draws from a fixed-seed generator, the generator stays
/// fixed-seed and its world-generation stream has stepped once per draw for
/// world generation so far.
proof fn lemma_run_worldgen_state(states: Seq<GameRng>, outs: Seq<u64>, ops: Seq<bool>, i: int)
    requires
        draw_run(states, outs, ops),
        states[0] is FixedSeed,
        0 <= i <= ops.len(),
    ensures
        states[i] is FixedSeed,
        states[i].worldgen_state() == rng_steps_from(states[0].worldgen_state(), n_worldgen_draws(ops, i)),
    decreases i,
{
    if i > 0 {
        lemma_run_worldgen_state(states, outs, ops, i - 1);
        assert(ops[i - 1] ==> worldgen_step(states[i - 1], states[i], outs[i - 1]));
        assert(!ops[i - 1] ==> input_step(states[i - 1], states[i], outs[i - 1]));
    }
}

/// With fixed-seed streams, draws for the inputs never disturb the draws for
/// world generation: however the two kinds of draw are interleaved, the
/// `k`-th draw for world generation hands out number `k` of the
/// world-generation stream, and after the run that stream has stepped once
/// per draw for world generation.
pub proof fn law_input_draws_leave_worldgen_draws(states: Seq<GameRng>, outs: Seq<u64>, ops: Seq<bool>)
    requires
        draw_run(states, outs, ops),
        states[0] is FixedSeed,
    ensures
        forall|i: int|
            0 <= i < ops.len() && #[trigger] ops[i] ==> outs[i] == rng_draw(
                states[0].worldgen_state(),
                n_worldgen_draws(ops, i),
            ),
        states.last().worldgen_state() == rng_steps_from(
            states[0].worldgen_state(),
            n_worldgen_draws(ops, ops.len() as int),
        ),
{
    assert forall|i: int| 0 <= i < ops.len() && #[trigger] ops[i] implies outs[i] == rng_draw(
        states[0].worldgen_state(),
        n_worldgen_draws(ops, i),
    ) by {
        lemma_run_worldgen_state(states, outs, ops, i);
        assert(worldgen_step(states[i], states[i + 1], outs[i]));
    }
    lemma_run_worldgen_state(states, outs, ops, ops.len() as int);
}

/// Two fixed-seed generators whose world-generation streams start in the same
/// state hand out the same numbers for world generation, draw for draw,
/// whatever their input streams and whatever draws for the inputs come in
/// between: the `k`-th draw for world generation of the one equals the
/// `k`-th of the other.
pub proof fn law_worldgen_draws_match(
    states1: Seq<GameRng>,
    outs1: Seq<u64>,
    ops1: Seq<bool>,
    states2: Seq<GameRng>,
    outs2: Seq<u64>,
    ops2: Seq<bool>,
)
    requires
        draw_run(states1, outs1, ops1),
        draw_run(states2, outs2, ops2),
        states1[0] is FixedSeed,
        states2[0] is FixedSeed,
        states1[0].worldgen_state() == states2[0].worldgen_state(),
    ensures
        forall|i: int, j: int|
            0 <= i < ops1.len() && 0 <= j < ops2.len() && #[trigger] ops1[i] && #[trigger] ops2[j]
                && n_worldgen_draws(ops1, i) == n_worldgen_draws(ops2, j) ==> outs1[i] == outs2[j],
{
    law_input_draws_leave_worldgen_draws(states1, outs1, ops1);
    law_input_draws_leave_worldgen_draws(states2, outs2, ops2);
}

} // verus!
