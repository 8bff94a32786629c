//! Sample command types over a small counter state.
//!
//! The journal itself does not interpret commands; these types give it
//! something concrete to record. [`CounterMutation`] edits a [`MyState`]
//! counter by a known delta, so a whole replay is pinned down by
//! [`lemma_counter_apply_all_sum`]: the result is the initial value plus the
//! sum of all deltas, in wrapping (modular) arithmetic. [`NopMutation`]
//! edits nothing and only carries an owned payload; it exists for entries
//! whose point is the resources they own and their teardown, not any state
//! edit.

use vstd::arithmetic::div_mod::{
    lemma_add_mod_noop, lemma_mod_add_multiples_vanish, lemma_mod_sub_multiples_vanish,
    lemma_small_mod,
};
use vstd::prelude::*;

use crate::mutation::{apply_all, LocalMutation};

verus! {

/// A state with a single wrapping counter.
pub struct MyState {
    pub val: u32,
}

/// A counter edit by a known delta: add `amt`, or subtract `a + b`. All
/// arithmetic wraps modulo `2^32`, so application is total.
pub enum CounterMutation {
    Add { amt: u32 },
    Sub { a: u32, b: u32 },
}

/// The signed delta a counter command stands for: `Add` contributes `amt`,
/// `Sub` contributes `-(a + b)`.
pub open spec fn delta_of(command: CounterMutation) -> int {
    match command {
        CounterMutation::Add { amt } => amt as int,
        CounterMutation::Sub { a, b } => -(a + b),
    }
}

/// The sum of the deltas of `commands`, in order.
pub open spec fn delta_sum(commands: Seq<CounterMutation>) -> int
    decreases commands.len(),
{
    if commands.len() == 0 {
        0
    } else {
        delta_of(commands[0]) + delta_sum(commands.drop_first())
    }
}

impl LocalMutation<MyState> for CounterMutation {
    open spec fn effect(&self, pre: MyState) -> MyState {
        match *self {
            CounterMutation::Add { amt } => MyState { val: pre.val.wrapping_add(amt) },
            CounterMutation::Sub { a, b } => MyState {
                val: pre.val.wrapping_sub(a.wrapping_add(b)),
            },
        }
    }

    fn apply(&self, state: &mut MyState) {
        match *self {
            CounterMutation::Add { amt } => {
                state.val = state.val.wrapping_add(amt);
            },
            CounterMutation::Sub { a, b } => {
                state.val = state.val.wrapping_sub(a.wrapping_add(b));
            },
        }
    }
}

/// One counter command moves the counter by its delta, modulo `2^32`.
proof fn lemma_effect_congruent(command: CounterMutation, pre: MyState)
    ensures
        (command.effect(pre).val as int) % 0x1_0000_0000 == (pre.val + delta_of(command))
            % 0x1_0000_0000,
{
    let modulus = 0x1_0000_0000int;
    match command {
        CounterMutation::Add { amt } => {
            if pre.val + amt > u32::MAX {
                lemma_mod_sub_multiples_vanish(pre.val + amt, modulus);
            }
        },
        CounterMutation::Sub { a, b } => {
            let inner = a.wrapping_add(b);
            if a + b > u32::MAX {
                // inner == a + b - modulus
                lemma_mod_add_multiples_vanish(pre.val - (a + b) + modulus, modulus);
            }
            if pre.val - inner < 0 {
                lemma_mod_add_multiples_vanish(pre.val - inner, modulus);
            }
            lemma_small_mod((pre.val - inner
                + if pre.val - inner < 0 {
                    modulus
                } else {
                    0
                }) as nat, modulus as nat);
        },
    }
}

/// Append/apply correctness for counter commands: replaying any log of
/// counter commands from any initial state yields the initial value plus
/// the sum of all deltas, in append order, modulo `2^32`. In particular the
/// result is a function of the log and the initial state alone, so repeated
/// application to independent, equal fresh states yields identical results.
pub proof fn lemma_counter_apply_all_sum(commands: Seq<CounterMutation>, init: MyState)
    ensures
        apply_all(commands, init).val as int == (init.val + delta_sum(commands)) % 0x1_0000_0000,
    decreases commands.len(),
{
    let modulus = 0x1_0000_0000int;
    if commands.len() == 0 {
        lemma_small_mod(init.val as nat, modulus as nat);
    } else {
        let stepped = commands[0].effect(init);
        let rest = commands.drop_first();
        lemma_counter_apply_all_sum(rest, stepped);
        lemma_effect_congruent(commands[0], init);
        lemma_small_mod(stepped.val as nat, modulus as nat);
        // (stepped.val + delta_sum(rest)) % m == (init.val + delta_of(commands[0]) + delta_sum(rest)) % m
        lemma_add_mod_noop(stepped.val as int, delta_sum(rest), modulus);
        lemma_add_mod_noop(init.val + delta_of(commands[0]), delta_sum(rest), modulus);
    }
}

/// A command that edits nothing: its `effect` is the identity and `apply`
/// leaves the state untouched. The owned `payload` travels into the
/// journal's arena with the entry and is torn down with it, exactly once,
/// on `clear` or when the journal is dropped.
pub struct NopMutation<P> {
    pub payload: P,
}

impl<T, P> LocalMutation<T> for NopMutation<P> {
    open spec fn effect(&self, pre: T) -> T {
        pre
    }

    fn apply(&self, _state: &mut T) {
    }
}

} // verus!
