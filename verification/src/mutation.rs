//! The journal of mutation commands.
//!
//! A [`Mutstore`] is an ordered, append-only log of commands. Each command
//! describes one edit of a state value of type `T` through the single shared
//! capability [`LocalMutation::apply`]; replaying the log in append order
//! against a state reproduces the whole sequence of edits. The journal also
//! carries at most one checkpoint (mark), scoping a later partial replay to
//! the entries recorded after the mark.

use vstd::prelude::*;

use crate::arena::Arena;
use core::marker::PhantomData;

verus! {

/// The capability every journal entry shares: apply one mutation to a state.
///
/// A command is immutable once recorded; `apply` reads the command and edits
/// only `state`. The spec function [`LocalMutation::effect`] is the command's
/// meaning: what it turns a given state into. `apply` must realize exactly
/// that meaning, for every input state, so application is total and the
/// journal's contracts can speak of whole replays as folds of `effect`.
pub trait LocalMutation<T> {
    /// The state this command turns `pre` into.
    spec fn effect(&self, pre: T) -> T;

    /// Applies the mutation to `state`.
    fn apply(&self, state: &mut T)
        ensures
            *final(state) == self.effect(*old(state)),
    ;
}

/// The state produced by applying every command of `commands`, in order,
/// starting from `init`.
pub open spec fn apply_all<T, C: LocalMutation<T>>(commands: Seq<C>, init: T) -> T
    decreases commands.len(),
{
    if commands.len() == 0 {
        init
    } else {
        apply_all(commands.drop_first(), commands[0].effect(init))
    }
}

/// Applying an empty log leaves the state unchanged. In particular, after
/// `clear` (whose contract empties the journal), `apply` on any state is a
/// no-op.
pub proof fn lemma_apply_all_empty<T, C: LocalMutation<T>>(init: T)
    ensures
        apply_all(Seq::<C>::empty(), init) == init,
{
}

/// Applying a log that ends in `last` is applying the rest, then `last`:
/// commands take effect in append order.
pub proof fn lemma_apply_all_push<T, C: LocalMutation<T>>(commands: Seq<C>, last: C, init: T)
    ensures
        apply_all(commands.push(last), init) == last.effect(apply_all(commands, init)),
    decreases commands.len(),
{
    let pushed = commands.push(last);
    if commands.len() == 0 {
        assert(pushed[0] == last);
        assert(pushed.drop_first() =~= Seq::<C>::empty());
        assert(apply_all(pushed, init) == apply_all(pushed.drop_first(), last.effect(init)));
        assert(apply_all(pushed.drop_first(), last.effect(init)) == last.effect(init));
        assert(apply_all(commands, init) == init);
    } else {
        let first_applied = commands[0].effect(init);
        assert(pushed[0] == commands[0]);
        assert(pushed.drop_first() =~= commands.drop_first().push(last));
        assert(apply_all(pushed, init) == apply_all(pushed.drop_first(), first_applied));
        lemma_apply_all_push(commands.drop_first(), last, first_applied);
        assert(apply_all(commands, init) == apply_all(commands.drop_first(), first_applied));
    }
}

/// A full replay splits at any position `at`: it equals replaying the prefix
/// before `at`, then the suffix from `at`. This is what makes a mark sound:
/// replaying `entries[mark..]` continues exactly where the prefix left off.
pub proof fn lemma_apply_all_split<T, C: LocalMutation<T>>(commands: Seq<C>, at: int, init: T)
    requires
        0 <= at <= commands.len(),
    ensures
        apply_all(commands, init) == apply_all(
            commands.skip(at),
            apply_all(commands.take(at), init),
        ),
    decreases at,
{
    if at == 0 {
        assert(commands.take(0) =~= Seq::<C>::empty());
        assert(commands.skip(0) =~= commands);
    } else {
        let rest = commands.drop_first();
        let first_applied = commands[0].effect(init);
        lemma_apply_all_split(rest, at - 1, first_applied);
        assert(rest.take(at - 1) =~= commands.take(at).drop_first());
        assert(rest.skip(at - 1) =~= commands.skip(at));
        assert(commands.take(at)[0] == commands[0]);
    }
}

/// The mutation journal: an append-only log of commands over states of type
/// `T`, with an optional replay checkpoint.
///
/// The journal owns an [`Arena`] holding the command values and keeps the
/// append order as a sequence of arena handles. Every recorded handle is
/// valid in the arena ([`Mutstore::inv`]); that invariant is the safe
/// counterpart of address stability: entries stay reachable however often
/// the log grows and wherever the journal is moved.
pub struct Mutstore<T, C> {
    arena: Arena<C>,
    muts: Vec<usize>,
    replay_position: Option<usize>,
    state_type: PhantomData<T>,
}

impl<T, C> Mutstore<T, C> {
    /// The recorded commands, in append order.
    pub closed spec fn entries(self) -> Seq<C> {
        self.muts@.map(|i: int, handle: usize| self.arena.contents()[handle as int])
    }

    /// The checkpoint, if one is live: the entry count at the moment of the
    /// last `mark_replay_position` not yet consumed or cleared.
    pub closed spec fn mark(self) -> Option<int> {
        match self.replay_position {
            Some(position) => Some(position as int),
            None => None,
        }
    }

    /// Well-formedness: every entry handle denotes a live arena slot, and
    /// the mark, if present, is at most the entry count.
    pub closed spec fn inv(self) -> bool {
        &&& forall|i: int|
            0 <= i < self.muts@.len() ==> (self.muts@[i] as int) < self.arena.contents().len()
        &&& match self.replay_position {
            Some(position) => position <= self.muts@.len(),
            None => true,
        }
    }
}

impl<T, C: LocalMutation<T>> Mutstore<T, C> {
    /// Creates an empty journal: no commands, no mark. The two capacity
    /// hints size the arena and the entry list up front; neither is a limit,
    /// and both storages grow transparently when the hints are exceeded.
    pub fn new(area_capacity: usize, vec_capacity: usize) -> (journal: Self)
        ensures
            journal.inv(),
            journal.entries() == Seq::<C>::empty(),
            journal.mark() is None,
    {
        let journal = Mutstore {
            arena: Arena::with_capacity(area_capacity),
            muts: Vec::with_capacity(vec_capacity),
            replay_position: None,
            state_type: PhantomData,
        };
        proof {
            assert(journal.entries() =~= Seq::<C>::empty());
        }
        journal
    }

    /// Moves `element` into the journal's arena and appends its entry at the
    /// end of the log. Never fails and never disturbs earlier entries or the
    /// mark, however many entries have been recorded already.
    pub fn create(&mut self, element: C)
        requires
            old(self).inv(),
        ensures
            final(self).inv(),
            final(self).entries() == old(self).entries().push(element),
            final(self).mark() == old(self).mark(),
    {
        let handle = self.arena.allocate(element);
        self.muts.push(handle);
        proof {
            assert(self.entries() =~= old(self).entries().push(element));
        }
    }

    /// Records the current entry count as the checkpoint, overwriting any
    /// previous mark.
    pub fn mark_replay_position(&mut self)
        requires
            old(self).inv(),
        ensures
            final(self).inv(),
            final(self).entries() == old(self).entries(),
            final(self).mark() == Some(old(self).entries().len() as int),
    {
        self.replay_position = Some(self.muts.len());
        proof {
            assert(self.entries() =~= old(self).entries());
        }
    }

    /// If a mark is live, applies exactly the entries recorded at or after
    /// it to `state`, in append order; without a mark, leaves `state`
    /// untouched. Either way the mark is gone afterwards, so a second call
    /// in a row is a no-op. The log itself is unchanged.
    pub fn replay_from_last_mark_and_clear_mark(&mut self, state: &mut T)
        requires
            old(self).inv(),
        ensures
            final(self).inv(),
            final(self).entries() == old(self).entries(),
            final(self).mark() is None,
            match old(self).mark() {
                Some(position) => *final(state) == apply_all(
                    old(self).entries().skip(position),
                    *old(state),
                ),
                None => *final(state) == *old(state),
            },
    {
        match self.replay_position {
            Some(position) => {
                self.apply_from(state, position);
            },
            None => {},
        }
        self.replay_position = None;
        proof {
            assert(self.entries() =~= old(self).entries());
        }
    }

    /// Applies every recorded command to `state`, in append order. The
    /// journal itself is read-only here: the call can be repeated, and run
    /// against independent states, and always realizes the same fold of the
    /// recorded entries.
    pub fn apply(&self, state: &mut T)
        requires
            self.inv(),
        ensures
            *final(state) == apply_all(self.entries(), *old(state)),
    {
        proof {
            assert(self.entries().skip(0) =~= self.entries());
        }
        self.apply_from(state, 0);
    }

    /// Destroys every recorded command and removes any pending mark. Each
    /// stored command is torn down exactly once, by dropping it inside
    /// [`Arena::reset`]; the journal stays usable and its storage is reused.
    pub fn clear(&mut self)
        requires
            old(self).inv(),
        ensures
            final(self).inv(),
            final(self).entries() == Seq::<C>::empty(),
            final(self).mark() is None,
    {
        self.muts.clear();
        self.arena.reset();
        self.replay_position = None;
        proof {
            assert(self.entries() =~= Seq::<C>::empty());
        }
    }

    /// Applies the suffix of the log from `start` on to `state`, in order.
    fn apply_from(&self, state: &mut T, start: usize)
        requires
            self.inv(),
            start <= self.entries().len(),
        ensures
            *final(state) == apply_all(self.entries().skip(start as int), *old(state)),
    {
        let end = self.muts.len();
        let mut i = start;
        while i < end
            invariant
                self.inv(),
                start <= i <= end,
                end == self.muts@.len(),
                apply_all(self.entries().skip(start as int), *old(state)) == apply_all(
                    self.entries().skip(i as int),
                    *state,
                ),
            decreases end - i,
        {
            let handle = self.muts[i];
            let command = self.arena.get(handle);
            command.apply(state);
            proof {
                assert(command == self.entries()[i as int]);
                assert(self.entries().skip(i as int).drop_first() =~= self.entries().skip(
                    i as int + 1,
                ));
                assert(self.entries().skip(i as int)[0] == self.entries()[i as int]);
            }
            i += 1;
        }
        proof {
            assert(self.entries().skip(end as int) =~= Seq::<C>::empty());
        }
    }
}

} // verus!
