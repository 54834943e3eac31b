//! The bounded history of a game, for the repetition and fifty-move draws.

use vstd::prelude::*;
use std::collections::HashMap;

verus! {

broadcast use vstd::std_specs::hash::group_hash_axioms;

/// The number of entries that a history can hold.
pub const MAX_GAME_MOVES: usize = 1024;

/// One entry of the history: the fingerprint of a position and the number
/// of half-moves since the last pawn move or capture.
#[derive(Copy, Clone, PartialEq, Eq, Hash, Debug, Structural)]
pub struct GameState {
    pub zobrist_hash: u64,
    pub half_move_clock: u16,
}

impl GameState {
    /// The entry with fingerprint 0 and clock 0.
    pub open spec fn blank() -> GameState {
        GameState { zobrist_hash: 0, half_move_clock: 0 }
    }

    /// The entry with fingerprint 0 and clock 0.
    pub fn new() -> (state: GameState)
        ensures
            state == GameState::blank(),
    {
        GameState { zobrist_hash: 0, half_move_clock: 0 }
    }
}

/// How many entries of `states` have the fingerprint `fingerprint`.
pub open spec fn occurrences(states: Seq<GameState>, fingerprint: u64) -> nat
    decreases states.len(),
{
    if states.len() == 0 {
        0
    } else {
        occurrences(states.drop_last(), fingerprint) + (if states.last().zobrist_hash
            == fingerprint {
            1nat
        } else {
            0nat
        })
    }
}

/// Some fingerprint occurs three times or more in `states`.
pub open spec fn has_threefold(states: Seq<GameState>) -> bool {
    exists|fingerprint: u64| occurrences(states, fingerprint) >= 3
}

/// A fingerprint occurs no more often than there are entries.
pub proof fn lemma_occurrences_bounded(states: Seq<GameState>, fingerprint: u64)
    ensures
        occurrences(states, fingerprint) <= states.len(),
    decreases states.len(),
{
    if states.len() > 0 {
        lemma_occurrences_bounded(states.drop_last(), fingerprint);
    }
}

/// A fingerprint that occurs is the fingerprint of some entry.
pub proof fn lemma_occurrence_has_index(states: Seq<GameState>, fingerprint: u64) -> (i: int)
    requires
        occurrences(states, fingerprint) > 0,
    ensures
        0 <= i < states.len(),
        states[i].zobrist_hash == fingerprint,
    decreases states.len(),
{
    if states.last().zobrist_hash == fingerprint {
        states.len() - 1
    } else {
        lemma_occurrence_has_index(states.drop_last(), fingerprint)
    }
}

/// Appending an entry adds one occurrence of its fingerprint and none of
/// any other.
pub proof fn lemma_occurrences_push(states: Seq<GameState>, state: GameState, fingerprint: u64)
    ensures
        occurrences(states.push(state), fingerprint) == occurrences(states, fingerprint) + (
        if state.zobrist_hash == fingerprint {
            1nat
        } else {
            0nat
        }),
{
    assert(states.push(state).drop_last() =~= states);
}

/// Appending three entries of one fingerprint makes a threefold
/// repetition, whatever stood before.
pub proof fn lemma_three_pushes_repeat(
    states: Seq<GameState>,
    first: GameState,
    second: GameState,
    third: GameState,
)
    requires
        first.zobrist_hash == second.zobrist_hash,
        second.zobrist_hash == third.zobrist_hash,
    ensures
        has_threefold(states.push(first).push(second).push(third)),
{
    let fingerprint = first.zobrist_hash;
    lemma_occurrences_push(states, first, fingerprint);
    lemma_occurrences_push(states.push(first), second, fingerprint);
    lemma_occurrences_push(states.push(first).push(second), third, fingerprint);
    assert(occurrences(states.push(first).push(second).push(third), fingerprint) >= 3);
}

/// Where no fingerprint occurs three times and that of `state` not at
/// all, two further entries of it make no threefold repetition: taking one
/// of three such entries off again undoes the repetition.
pub proof fn lemma_two_pushes_do_not_repeat(states: Seq<GameState>, state: GameState)
    requires
        !has_threefold(states),
        occurrences(states, state.zobrist_hash) == 0,
    ensures
        !has_threefold(states.push(state).push(state)),
        states.push(state).push(state).push(state).drop_last() == states.push(state).push(state),
{
    let twice = states.push(state).push(state);
    assert forall|fingerprint: u64| occurrences(twice, fingerprint) < 3 by {
        lemma_occurrences_push(states, state, fingerprint);
        lemma_occurrences_push(states.push(state), state, fingerprint);
        assert(!(occurrences(states, fingerprint) >= 3));
    }
    assert(twice.push(state).drop_last() =~= twice);
}

/// The history of a game: a bounded sequence of entries, newest last, and
/// for every fingerprint in it the number of its occurrences.
pub struct History {
    list: [GameState; MAX_GAME_MOVES],
    count: usize,
    repetitions: HashMap<u64, usize>,
}

impl View for History {
    type V = Seq<GameState>;

    /// The entries, oldest first.
    closed spec fn view(&self) -> Seq<GameState> {
        self.list@.take(self.count as int)
    }
}

impl History {
    /// All slots of the history, those beyond the entries included: a slot
    /// keeps what was last written to it.
    pub closed spec fn slots(&self) -> Seq<GameState> {
        self.list@
    }

    /// The occurrence counts are those of the entries, and the entries fit
    /// the slots.
    pub closed spec fn wf(&self) -> bool {
        &&& self.count <= MAX_GAME_MOVES
        &&& forall|fingerprint: u64|
            #![trigger self.repetitions@.contains_key(fingerprint)]
            #![trigger occurrences(self@, fingerprint)]
            {
                &&& self.repetitions@.contains_key(fingerprint) <==> occurrences(
                    self@,
                    fingerprint,
                ) > 0
                &&& self.repetitions@.contains_key(fingerprint) ==> self.repetitions@[fingerprint]
                    == occurrences(self@, fingerprint)
            }
    }

    /// The entries are the first slots.
    pub proof fn lemma_entries_are_slots(&self)
        requires
            self.wf(),
        ensures
            self.slots().len() == MAX_GAME_MOVES,
            self@.len() <= MAX_GAME_MOVES,
            self@ == self.slots().take(self@.len() as int),
    {
    }

    /// An empty history.
    pub fn new() -> (history: History)
        ensures
            history.wf(),
            history@ == Seq::<GameState>::empty(),
            history.slots() == Seq::new(MAX_GAME_MOVES as nat, |i: int| GameState::blank()),
    {
        let history = History {
            list: [GameState::new(); MAX_GAME_MOVES],
            count: 0,
            repetitions: HashMap::new(),
        };
        proof {
            assert(history@ =~= Seq::<GameState>::empty());
            assert(history.slots() =~= Seq::new(MAX_GAME_MOVES as nat, |i: int| GameState::blank()));
        }
        history
    }

    /// Appends `g` to the entries. The history must not be full.
    pub fn push(&mut self, g: GameState)
        requires
            old(self).wf(),
            old(self)@.len() < MAX_GAME_MOVES,
        ensures
            final(self).wf(),
            final(self)@ == old(self)@.push(g),
            final(self).slots() == old(self).slots().update(old(self)@.len() as int, g),
    {
        let ghost before = *self;
        proof {
            lemma_occurrences_bounded(before@, g.zobrist_hash);
        }
        self.list[self.count] = g;
        self.count += 1;
        let seen: usize = match self.repetitions.get(&g.zobrist_hash) {
            Some(n) => *n,
            None => 0,
        };
        self.repetitions.insert(g.zobrist_hash, seen + 1);
        proof {
            assert(self@ =~= before@.push(g));
            assert forall|fingerprint: u64|
                #![trigger self.repetitions@.contains_key(fingerprint)]
                #![trigger occurrences(self@, fingerprint)]
                {
                    &&& self.repetitions@.contains_key(fingerprint) <==> occurrences(
                        self@,
                        fingerprint,
                    ) > 0
                    &&& self.repetitions@.contains_key(fingerprint)
                        ==> self.repetitions@[fingerprint] == occurrences(self@, fingerprint)
                } by {
                lemma_occurrences_push(before@, g, fingerprint);
                assert(before.repetitions@.contains_key(fingerprint) <==> occurrences(
                    before@,
                    fingerprint,
                ) > 0);
            }
        }
    }

    /// Takes the newest entry off and returns it; `None` when there is no
    /// entry.
    pub fn pop(&mut self) -> (popped: Option<GameState>)
        requires
            old(self).wf(),
        ensures
            final(self).wf(),
            final(self).slots() == old(self).slots(),
            old(self)@.len() == 0 ==> popped.is_none() && final(self)@ == old(self)@,
            old(self)@.len() > 0 ==> popped == Some(old(self)@.last()) && final(self)@ == old(
                self,
            )@.drop_last(),
    {
        let ghost before = *self;
        if self.count > 0 {
            self.count -= 1;
            let state = self.list[self.count];
            proof {
                assert(self@ =~= before@.drop_last());
                assert(before@ =~= self@.push(state));
                lemma_occurrences_push(self@, state, state.zobrist_hash);
                assert(before.repetitions@.contains_key(state.zobrist_hash) <==> occurrences(
                    before@,
                    state.zobrist_hash,
                ) > 0);
            }
            let seen: usize = match self.repetitions.get(&state.zobrist_hash) {
                Some(n) => *n,
                None => 0,
            };
            if seen <= 1 {
                self.repetitions.remove(&state.zobrist_hash);
            } else {
                self.repetitions.insert(state.zobrist_hash, seen - 1);
            }
            proof {
                assert forall|fingerprint: u64|
                    #![trigger self.repetitions@.contains_key(fingerprint)]
                    #![trigger occurrences(self@, fingerprint)]
                    {
                        &&& self.repetitions@.contains_key(fingerprint) <==> occurrences(
                            self@,
                            fingerprint,
                        ) > 0
                        &&& self.repetitions@.contains_key(fingerprint)
                            ==> self.repetitions@[fingerprint] == occurrences(self@, fingerprint)
                    } by {
                    lemma_occurrences_push(self@, state, fingerprint);
                    assert(before.repetitions@.contains_key(fingerprint) <==> occurrences(
                        before@,
                        fingerprint,
                    ) > 0);
                }
            }
            Some(state)
        } else {
            None
        }
    }

    /// The slot at `index`: the entry at `index` where there is one, else
    /// what the slot was last given.
    pub fn get_ref(&self, index: usize) -> (state: &GameState)
        requires
            self.wf(),
            index < MAX_GAME_MOVES,
        ensures
            *state == self.slots()[index as int],
            index < self@.len() ==> *state == self@[index as int],
    {
        &self.list[index]
    }

    /// The number of entries.
    pub fn len(&self) -> (n: usize)
        requires
            self.wf(),
        ensures
            n == self@.len(),
    {
        self.count
    }

    /// Drops all entries. The slots keep what they hold.
    pub fn clear(&mut self)
        ensures
            final(self).wf(),
            final(self)@ == Seq::<GameState>::empty(),
            final(self).slots() == old(self).slots(),
    {
        self.count = 0;
        self.repetitions.clear();
        proof {
            assert(self@ =~= Seq::<GameState>::empty());
        }
    }

    /// Tells whether some fingerprint occurs three times or more among the
    /// entries.
    pub fn is_threefold_repetition(&self) -> (r: bool)
        requires
            self.wf(),
        ensures
            r == has_threefold(self@),
    {
        let mut i: usize = 0;
        while i < self.count
            invariant
                self.wf(),
                i <= self.count,
                forall|j: int| 0 <= j < i ==> occurrences(self@, #[trigger] self@[j].zobrist_hash) < 3,
            decreases self.count - i,
        {
            let fingerprint = self.list[i].zobrist_hash;
            proof {
                assert(self@[i as int].zobrist_hash == fingerprint);
                assert(self.repetitions@.contains_key(fingerprint) <==> occurrences(
                    self@,
                    fingerprint,
                ) > 0);
            }
            match self.repetitions.get(&fingerprint) {
                Some(n) => {
                    if *n >= 3 {
                        return true;
                    }
                },
                None => {},
            }
            i += 1;
        }
        proof {
            if has_threefold(self@) {
                let fingerprint = choose|fingerprint: u64| occurrences(self@, fingerprint) >= 3;
                let j = lemma_occurrence_has_index(self@, fingerprint);
                assert(occurrences(self@, self@[j].zobrist_hash) < 3);
            }
        }
        false
    }

    /// Tells whether the newest entry has a half-move clock of 100 or more.
    /// There must be an entry.
    pub fn is_fifty_move_rule(&self) -> (r: bool)
        requires
            self.wf(),
            self@.len() > 0,
        ensures
            r == (self@.last().half_move_clock >= 100),
    {
        self.list[self.count - 1].half_move_clock >= 100
    }
}

} // verus!
