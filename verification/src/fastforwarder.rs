use crate::input::{lemma_input_cloned_same_view, Input, InputView, Pair};
use crate::mgba::keys;
use crate::replay::pair_views;
use std::collections::VecDeque;
use vstd::prelude::*;

verus! {

broadcast use vstd::std_specs::vecdeque::group_vec_dequeue_axioms;

/// Why a fast-forward stopped.
pub enum FastforwardError {
    /// The two inputs of a pair are for different ticks.
    PlayerTickMismatch { in_battle_tick: u32, p1_tick: u32, p2_tick: u32 },
    /// The input is for another tick than the battle is at.
    InputTickMismatch { input_tick: u32, in_battle_tick: u32 },
}

/// What the remote player is taken to do on a tick whose input has not arrived: hold A
/// and B as in the last input committed for them, keep their custom screen state, and
/// send no turn.
pub open spec fn predicted_remote(local: InputView, last_remote: InputView) -> InputView {
    InputView {
        local_tick: local.local_tick,
        remote_tick: local.remote_tick,
        joyflags: last_remote.joyflags & ((keys::A | keys::B) as u16),
        custom_screen_state: last_remote.custom_screen_state,
        turn: Seq::empty(),
    }
}

/// The pairs a fast-forward replays: the committed pairs, then each local input left
/// paired with its predicted remote input.
pub open spec fn planned_pairs(
    commit_pairs: Seq<Pair<InputView>>,
    last_remote: InputView,
    left: Seq<InputView>,
) -> Seq<Pair<InputView>> {
    commit_pairs + Seq::new(
        left.len(),
        |i: int| Pair { local: left[i], remote: predicted_remote(left[i], last_remote) },
    )
}

/// The remote input predicted for a tick on which only the local input is known.
pub fn predict_remote(local: &Input, last_remote: &Input) -> (res: Input)
    ensures
        res@ == predicted_remote(local@, last_remote@),
{
    let joyflags = last_remote.joyflags & ((keys::A | keys::B) as u16);
    Input {
        local_tick: local.local_tick,
        remote_tick: local.remote_tick,
        joyflags,
        custom_screen_state: last_remote.custom_screen_state,
        turn: Vec::new(),
    }
}

/// What a fast-forward needs while the emulator replays inputs: the pairs still to
/// replay, the ticks at which to save the committed and the dirty state, the states
/// saved so far and the first error.
pub struct State<S> {
    local_player_index: u8,
    input_pairs: VecDeque<Pair<Input>>,
    commit_time: u32,
    committed_state: Option<S>,
    dirty_time: u32,
    dirty_state: Option<S>,
    error: Option<FastforwardError>,
}

impl<S> State<S> {
    pub closed spec fn spec_local_player_index(&self) -> u8 {
        self.local_player_index
    }

    /// The pairs still to replay, oldest first.
    pub closed spec fn pairs(&self) -> Seq<Pair<InputView>> {
        pair_views(self.input_pairs@)
    }

    pub closed spec fn spec_commit_time(&self) -> u32 {
        self.commit_time
    }

    pub closed spec fn spec_dirty_time(&self) -> u32 {
        self.dirty_time
    }

    pub closed spec fn spec_committed_state(&self) -> Option<S> {
        self.committed_state
    }

    pub closed spec fn spec_dirty_state(&self) -> Option<S> {
        self.dirty_state
    }

    pub closed spec fn spec_error(&self) -> Option<FastforwardError> {
        self.error
    }

    /// Plans a fast-forward from a battle at tick `start_in_battle_time`: the committed
    /// pairs are replayed first, then the local inputs left, each with a predicted remote
    /// input. The state after the committed pairs is the committed state; the state
    /// before the last pair is the dirty state. Gives the last pair too.
    pub fn new(
        local_player_index: u8,
        commit_pairs: &Vec<Pair<Input>>,
        last_committed_remote_input: &Input,
        local_player_inputs_left: &Vec<Input>,
        start_in_battle_time: u32,
    ) -> (res: (State<S>, Pair<Input>))
        requires
            commit_pairs@.len() + local_player_inputs_left@.len() >= 1,
            start_in_battle_time + commit_pairs@.len() <= u32::MAX,
            start_in_battle_time + commit_pairs@.len() + local_player_inputs_left@.len() - 1
                <= u32::MAX,
        ensures
            ({
                let planned = planned_pairs(
                    pair_views(commit_pairs@),
                    last_committed_remote_input@,
                    local_player_inputs_left@.map_values(|i: Input| i@),
                );
                &&& res.0.pairs() == planned
                &&& res.1.local@ == planned.last().local
                &&& res.1.remote@ == planned.last().remote
                &&& res.0.spec_commit_time() == start_in_battle_time + commit_pairs@.len()
                &&& res.0.spec_dirty_time() == start_in_battle_time + planned.len() - 1
            }),
            res.0.spec_local_player_index() == local_player_index,
            res.0.spec_committed_state() is None,
            res.0.spec_dirty_state() is None,
            res.0.spec_error() is None,
    {
        let ghost left_views = local_player_inputs_left@.map_values(|i: Input| i@);
        let mut input_pairs: VecDeque<Pair<Input>> = VecDeque::new();
        let mut i: usize = 0;
        while i < commit_pairs.len()
            invariant
                i <= commit_pairs@.len(),
                pair_views(input_pairs@) == pair_views(commit_pairs@).subrange(0, i as int),
            decreases commit_pairs@.len() - i,
        {
            let p = commit_pairs[i].clone();
            proof {
                lemma_input_cloned_same_view(commit_pairs@[i as int].local, p.local);
                lemma_input_cloned_same_view(commit_pairs@[i as int].remote, p.remote);
            }
            let ghost before = input_pairs@;
            input_pairs.push_back(p);
            proof {
                assert(input_pairs@ == before.push(p));
                assert(pair_views(input_pairs@) =~= pair_views(before).push(
                    Pair { local: p.local@, remote: p.remote@ },
                ));
            }
            i = i + 1;
            assert(pair_views(input_pairs@) =~= pair_views(commit_pairs@).subrange(0, i as int));
        }
        assert(pair_views(commit_pairs@).subrange(0, commit_pairs@.len() as int) =~= pair_views(
            commit_pairs@,
        ));
        let mut j: usize = 0;
        while j < local_player_inputs_left.len()
            invariant
                j <= local_player_inputs_left@.len(),
                left_views == local_player_inputs_left@.map_values(|i: Input| i@),
                pair_views(input_pairs@) == planned_pairs(
                    pair_views(commit_pairs@),
                    last_committed_remote_input@,
                    left_views.subrange(0, j as int),
                ),
            decreases local_player_inputs_left@.len() - j,
        {
            let local = local_player_inputs_left[j].clone();
            let remote = predict_remote(&local_player_inputs_left[j], last_committed_remote_input);
            let ghost before = input_pairs@;
            proof {
                lemma_input_cloned_same_view(local_player_inputs_left@[j as int], local);
            }
            let pair = Pair { local, remote };
            input_pairs.push_back(pair);
            proof {
                assert(input_pairs@ == before.push(pair));
                assert(pair_views(input_pairs@) =~= pair_views(before).push(
                    Pair { local: pair.local@, remote: pair.remote@ },
                ));
            }
            j = j + 1;
            assert(pair_views(input_pairs@) =~= planned_pairs(
                pair_views(commit_pairs@),
                last_committed_remote_input@,
                left_views.subrange(0, j as int),
            ));
        }
        assert(left_views.subrange(0, left_views.len() as int) =~= left_views);
        let n = input_pairs.len();
        let last_ref = &input_pairs[n - 1];
        let last = last_ref.clone();
        proof {
            lemma_input_cloned_same_view(input_pairs@[n - 1].local, last.local);
            lemma_input_cloned_same_view(input_pairs@[n - 1].remote, last.remote);
            assert(pair_views(input_pairs@)[n - 1] == pair_views(input_pairs@).last());
        }
        assert(pair_views(input_pairs@).len() == input_pairs@.len());
        let commit_time = start_in_battle_time + commit_pairs.len() as u32;
        let dirty_time = start_in_battle_time + (n - 1) as u32;
        let state = State {
            local_player_index,
            input_pairs,
            commit_time,
            committed_state: None,
            dirty_time,
            dirty_state: None,
            error: None,
        };
        proof {
            let planned = planned_pairs(
                pair_views(commit_pairs@),
                last_committed_remote_input@,
                local_player_inputs_left@.map_values(|i: Input| i@),
            );
            assert(state.pairs() == planned);
            assert(last.local@ == planned.last().local);
            assert(last.remote@ == planned.last().remote);
            assert(state.spec_dirty_time() == start_in_battle_time + planned.len() - 1);
        }
        (state, last)
    }

    /// The tick whose start is the committed state.
    pub fn commit_time(&self) -> (res: u32)
        ensures
            res == self.spec_commit_time(),
    {
        self.commit_time
    }

    pub fn set_committed_state(&mut self, state: S)
        ensures
            final(self).spec_committed_state() == Some(state),
            final(self).spec_dirty_state() == old(self).spec_dirty_state(),
            final(self).pairs() == old(self).pairs(),
            final(self).spec_error() == old(self).spec_error(),
            final(self).spec_commit_time() == old(self).spec_commit_time(),
            final(self).spec_dirty_time() == old(self).spec_dirty_time(),
            final(self).spec_local_player_index() == old(self).spec_local_player_index(),
    {
        self.committed_state = Some(state);
    }

    /// The tick whose start is the dirty state.
    pub fn dirty_time(&self) -> (res: u32)
        ensures
            res == self.spec_dirty_time(),
    {
        self.dirty_time
    }

    pub fn set_dirty_state(&mut self, state: S)
        ensures
            final(self).spec_dirty_state() == Some(state),
            final(self).spec_committed_state() == old(self).spec_committed_state(),
            final(self).pairs() == old(self).pairs(),
            final(self).spec_error() == old(self).spec_error(),
            final(self).spec_commit_time() == old(self).spec_commit_time(),
            final(self).spec_dirty_time() == old(self).spec_dirty_time(),
            final(self).spec_local_player_index() == old(self).spec_local_player_index(),
    {
        self.dirty_state = Some(state);
    }

    /// A copy of the next pair to replay, if any.
    pub fn peek_input_pair(&self) -> (res: Option<Pair<Input>>)
        ensures
            self.pairs().len() == 0 ==> res is None,
            self.pairs().len() > 0 ==> (res matches Some(p) && p.local@ == self.pairs()[0].local
                && p.remote@ == self.pairs()[0].remote),
    {
        if self.input_pairs.len() == 0 {
            return None;
        }
        let p = self.input_pairs[0].clone();
        proof {
            lemma_input_cloned_same_view(self.input_pairs@[0].local, p.local);
            lemma_input_cloned_same_view(self.input_pairs@[0].remote, p.remote);
        }
        Some(p)
    }

    /// Takes the next pair to replay, if any.
    pub fn pop_input_pair(&mut self) -> (res: Option<Pair<Input>>)
        ensures
            old(self).pairs().len() == 0 ==> res is None,
            old(self).pairs().len() == 0 ==> final(self).pairs() == old(self).pairs(),
            old(self).pairs().len() > 0 ==> (res matches Some(p) && p.local@ == old(self).pairs()[0].local && p.remote@ == old(self).pairs()[0].remote),
            old(self).pairs().len() > 0 ==> final(self).pairs() == old(self).pairs().drop_first(),
            final(self).spec_committed_state() == old(self).spec_committed_state(),
            final(self).spec_dirty_state() == old(self).spec_dirty_state(),
            final(self).spec_error() == old(self).spec_error(),
            final(self).spec_commit_time() == old(self).spec_commit_time(),
            final(self).spec_dirty_time() == old(self).spec_dirty_time(),
            final(self).spec_local_player_index() == old(self).spec_local_player_index(),
    {
        let ghost before = self.input_pairs@;
        let res = self.input_pairs.pop_front();
        proof {
            if before.len() > 0 {
                assert(pair_views(self.input_pairs@) =~= pair_views(before).drop_first());
            }
        }
        res
    }

    /// Records why the fast-forward stops.
    pub fn set_error(&mut self, err: FastforwardError)
        ensures
            final(self).spec_error() == Some(err),
            final(self).spec_committed_state() == old(self).spec_committed_state(),
            final(self).spec_dirty_state() == old(self).spec_dirty_state(),
            final(self).pairs() == old(self).pairs(),
            final(self).spec_commit_time() == old(self).spec_commit_time(),
            final(self).spec_dirty_time() == old(self).spec_dirty_time(),
            final(self).spec_local_player_index() == old(self).spec_local_player_index(),
    {
        self.error = Some(err);
    }

    /// Forgets the error of the last frame before the next one runs.
    pub fn clear_error(&mut self)
        ensures
            final(self).spec_error() is None,
            final(self).spec_committed_state() == old(self).spec_committed_state(),
            final(self).spec_dirty_state() == old(self).spec_dirty_state(),
            final(self).pairs() == old(self).pairs(),
            final(self).spec_commit_time() == old(self).spec_commit_time(),
            final(self).spec_dirty_time() == old(self).spec_dirty_time(),
            final(self).spec_local_player_index() == old(self).spec_local_player_index(),
    {
        self.error = None;
    }

    pub fn local_player_index(&self) -> (res: u8)
        ensures
            res == self.spec_local_player_index(),
    {
        self.local_player_index
    }

    /// Whether the emulator must run another frame: it stops on an error, and once both
    /// states are saved.
    pub fn needs_frame(&self) -> (res: bool)
        ensures
            res == (self.spec_error() is None && (self.spec_committed_state() is None
                || self.spec_dirty_state() is None)),
    {
        self.error.is_none() && (self.committed_state.is_none() || self.dirty_state.is_none())
    }

    /// The outcome of a fast-forward that needs no more frames: the error, or the
    /// committed and the dirty state.
    pub fn finish(self) -> (res: Result<(S, S), FastforwardError>)
        requires
            self.spec_error() is Some || (self.spec_committed_state() is Some
                && self.spec_dirty_state() is Some),
        ensures
            match self.spec_error() {
                Some(e) => res == Err::<(S, S), FastforwardError>(e),
                None => res == Ok::<(S, S), FastforwardError>(
                    (self.spec_committed_state().unwrap(), self.spec_dirty_state().unwrap()),
                ),
            },
    {
        match self.error {
            Some(e) => Err(e),
            None => match (self.committed_state, self.dirty_state) {
                (Some(c), Some(d)) => Ok((c, d)),
                _ => {
                    assert(false);
                    Err(FastforwardError::InputTickMismatch { input_tick: 0, in_battle_tick: 0 })
                },
            },
        }
    }
}

} // verus!
