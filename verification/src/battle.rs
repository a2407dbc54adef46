use crate::input::{Input, InputView, PairQueue, Pair, commit_count, peek_count};
use crate::replay::{Writer, input_record, input_records, lemma_input_records_push, pair_views, state_record};
use crate::protocol;
use vstd::prelude::*;

verus! {

/// How many ticks a marshaled turn waits before it is sent with a local input.
pub const TURN_TICKS: u8 = 64;

/// The number of inputs each side's queue holds at most.
pub const INPUT_QUEUE_LENGTH: usize = 120;

/// A turn that the game marshaled and that waits to go out with a local input.
pub struct LocalPendingTurn {
    pub marshaled: Vec<u8>,
    pub ticks_left: u8,
}

/// The value of an `i32` cast of `x`.
pub open spec fn as_i32(x: u32) -> int {
    if x < 0x8000_0000 {
        x as int
    } else {
        x - 0x1_0000_0000
    }
}

/// `x as i32` as a wider integer.
fn cast_i32(x: u32) -> (res: i64)
    ensures
        res == as_i32(x),
{
    if x < 0x8000_0000 {
        x as i64
    } else {
        x as i64 - 0x1_0000_0000i64
    }
}

/// Whether `v` fits in an `i32`.
pub open spec fn fits_i32(v: int) -> bool {
    i32::MIN <= v <= i32::MAX
}

/// What one tick takes from a pending turn `p` (its bytes and ticks left): the turn on
/// the tick its count runs out, nothing on every other tick.
pub open spec fn pending_taken(p: Option<(Seq<u8>, u8)>) -> Seq<u8> {
    match p {
        Some((t, n)) => if n == 1 {
            t
        } else {
            Seq::empty()
        },
        None => Seq::empty(),
    }
}

/// The pending turn after one tick: counted down by one, gone once handed out.
pub open spec fn pending_after(p: Option<(Seq<u8>, u8)>) -> Option<(Seq<u8>, u8)> {
    match p {
        Some((t, n)) => if n == 0 {
            p
        } else if n == 1 {
            None
        } else {
            Some((t, (n - 1) as u8))
        },
        None => None,
    }
}

/// The pending turn after `k` ticks.
pub open spec fn pending_after_ticks(p: Option<(Seq<u8>, u8)>, k: nat) -> Option<(Seq<u8>, u8)>
    decreases k,
{
    if k == 0 {
        p
    } else {
        pending_after(pending_after_ticks(p, (k - 1) as nat))
    }
}

/// A marshaled turn goes out exactly [`TURN_TICKS`] ticks after it was queued: the
/// ticks before hand out nothing, and after it is handed out nothing is pending.
pub proof fn lemma_turn_goes_out_after_turn_ticks(t: Seq<u8>, k: nat)
    ensures
        k < TURN_TICKS ==> pending_after_ticks(Some((t, TURN_TICKS)), k) == Some(
            (t, (TURN_TICKS - k) as u8),
        ),
        k + 1 < TURN_TICKS ==> pending_taken(pending_after_ticks(Some((t, TURN_TICKS)), k))
            == Seq::<u8>::empty(),
        pending_taken(pending_after_ticks(Some((t, TURN_TICKS)), (TURN_TICKS - 1) as nat)) == t,
        pending_after_ticks(Some((t, TURN_TICKS)), TURN_TICKS as nat) is None,
        k >= TURN_TICKS ==> pending_after_ticks(Some((t, TURN_TICKS)), k) is None,
        k >= TURN_TICKS ==> pending_taken(pending_after_ticks(Some((t, TURN_TICKS)), k))
            == Seq::<u8>::empty(),
    decreases k,
{
    if k > 0 {
        lemma_turn_goes_out_after_turn_ticks(t, (k - 1) as nat);
    }
    lemma_turn_ticks_count_down(t, (TURN_TICKS - 1) as nat);
}

/// With no turn pending, every tick hands out nothing and none becomes pending.
pub proof fn lemma_no_turn_stays_none(k: nat)
    ensures
        pending_after_ticks(None, k) is None,
        pending_taken(pending_after_ticks(None, k)) == Seq::<u8>::empty(),
    decreases k,
{
    if k > 0 {
        lemma_no_turn_stays_none((k - 1) as nat);
    }
}

/// Before its count runs out, a pending turn counts down one per tick.
proof fn lemma_turn_ticks_count_down(t: Seq<u8>, k: nat)
    requires
        k < TURN_TICKS,
    ensures
        pending_after_ticks(Some((t, TURN_TICKS)), k) == Some((t, (TURN_TICKS - k) as u8)),
    decreases k,
{
    if k > 0 {
        lemma_turn_ticks_count_down(t, (k - 1) as nat);
    }
}

/// One battle of a match: the input queues and what the emulator last committed.
pub struct Battle {
    local_player_index: u8,
    iq: PairQueue<Input>,
    remote_delay: u32,
    is_accepting_input: bool,
    is_over: bool,
    last_committed_remote_input: Input,
    last_input: Option<Pair<Input>>,
    committed_state: Option<Vec<u8>>,
    local_pending_turn: Option<LocalPendingTurn>,
    replay_writer: Writer,
}

impl Battle {
    /// The player index of the local side: 0 or 1.
    pub closed spec fn spec_local_player_index(&self) -> u8 {
        self.local_player_index
    }

    /// The input queues.
    pub closed spec fn queue(&self) -> PairQueue<Input> {
        self.iq
    }

    pub closed spec fn spec_remote_delay(&self) -> u32 {
        self.remote_delay
    }

    pub closed spec fn spec_is_accepting_input(&self) -> bool {
        self.is_accepting_input
    }

    pub closed spec fn spec_is_over(&self) -> bool {
        self.is_over
    }

    /// The remote input of the last pair that was committed.
    pub closed spec fn spec_last_committed_remote_input(&self) -> InputView {
        self.last_committed_remote_input@
    }

    /// The pair of inputs that the emulator last ran with, until it is taken.
    pub closed spec fn spec_last_input(&self) -> Option<Pair<InputView>> {
        match self.last_input {
            Some(p) => Some(Pair { local: p.local@, remote: p.remote@ }),
            None => None,
        }
    }

    /// The emulator state at the last committed tick.
    pub closed spec fn spec_committed_state(&self) -> Option<Seq<u8>> {
        match self.committed_state {
            Some(s) => Some(s@),
            None => None,
        }
    }

    /// The pending turn and the ticks it still waits.
    pub closed spec fn spec_local_pending_turn(&self) -> Option<(Seq<u8>, u8)> {
        match self.local_pending_turn {
            Some(t) => Some((t.marshaled@, t.ticks_left)),
            None => None,
        }
    }

    /// What the replay writer has written so far.
    pub closed spec fn replay_payload(&self) -> Seq<u8> {
        self.replay_writer.payload()
    }

    /// The local player index is 0 or 1 and the queues are within their bound.
    pub open spec fn wf(&self) -> bool {
        &&& self.spec_local_player_index() <= 1
        &&& self.queue().wf()
        &&& self.queue().max_len() == INPUT_QUEUE_LENGTH
    }

    /// A battle that has not started taking input: empty queues of [`INPUT_QUEUE_LENGTH`]
    /// inputs, the given local delay, a replay writer for the local player's index.
    pub fn new(local_player_index: u8, local_delay: u32) -> (res: Battle)
        requires
            local_player_index <= 1,
        ensures
            res.wf(),
            res.spec_local_player_index() == local_player_index,
            res.queue().local_queue() == Seq::<Input>::empty(),
            res.queue().remote_queue() == Seq::<Input>::empty(),
            res.queue().max_len() == INPUT_QUEUE_LENGTH,
            res.queue().delay() == local_delay,
            res.spec_remote_delay() == 0,
            !res.spec_is_accepting_input(),
            !res.spec_is_over(),
            res.spec_last_committed_remote_input() == (InputView {
                local_tick: 0,
                remote_tick: 0,
                joyflags: 0,
                custom_screen_state: 0,
                turn: Seq::empty(),
            }),
            res.spec_last_input() is None,
            res.spec_committed_state() is None,
            res.spec_local_pending_turn() is None,
            res.replay_payload() == seq![local_player_index],
    {
        Battle {
            local_player_index,
            iq: PairQueue::new(INPUT_QUEUE_LENGTH, local_delay),
            remote_delay: 0,
            is_accepting_input: false,
            is_over: false,
            last_committed_remote_input: Input::empty_at(0),
            last_input: None,
            committed_state: None,
            local_pending_turn: None,
            replay_writer: Writer::new(local_player_index),
        }
    }

    /// The replay writer of this battle.
    pub fn replay_writer(&self) -> (res: &Writer)
        ensures
            res.payload() == self.replay_payload(),
    {
        &self.replay_writer
    }

    pub fn local_player_index(&self) -> (res: u8)
        ensures
            res == self.spec_local_player_index(),
    {
        self.local_player_index
    }

    /// The other player's index.
    pub fn remote_player_index(&self) -> (res: u8)
        requires
            self.wf(),
        ensures
            res == 1 - self.spec_local_player_index(),
    {
        1 - self.local_player_index
    }

    /// Whether the local player is player 2.
    pub fn is_p2(&self) -> (res: bool)
        ensures
            res == (self.spec_local_player_index() == 1),
    {
        self.local_player_index == 1
    }

    /// Stores the emulator state at the committed tick.
    pub fn set_committed_state(&mut self, state: Vec<u8>)
        ensures
            final(self).spec_committed_state() == Some(state@),
            final(self).spec_local_player_index() == old(self).spec_local_player_index(),
            final(self).queue() == old(self).queue(),
            final(self).spec_remote_delay() == old(self).spec_remote_delay(),
            final(self).spec_is_accepting_input() == old(self).spec_is_accepting_input(),
            final(self).spec_is_over() == old(self).spec_is_over(),
            final(self).spec_last_committed_remote_input()
                == old(self).spec_last_committed_remote_input(),
            final(self).spec_last_input() == old(self).spec_last_input(),
            final(self).spec_local_pending_turn() == old(self).spec_local_pending_turn(),
            final(self).replay_payload() == old(self).replay_payload(),
    {
        self.committed_state = Some(state);
    }

    pub fn set_last_input(&mut self, inp: Pair<Input>)
        ensures
            final(self).spec_last_input() == Some(Pair { local: inp.local@, remote: inp.remote@ }),
            final(self).spec_local_player_index() == old(self).spec_local_player_index(),
            final(self).queue() == old(self).queue(),
            final(self).spec_remote_delay() == old(self).spec_remote_delay(),
            final(self).spec_is_accepting_input() == old(self).spec_is_accepting_input(),
            final(self).spec_is_over() == old(self).spec_is_over(),
            final(self).spec_last_committed_remote_input()
                == old(self).spec_last_committed_remote_input(),
            final(self).spec_committed_state() == old(self).spec_committed_state(),
            final(self).spec_local_pending_turn() == old(self).spec_local_pending_turn(),
            final(self).replay_payload() == old(self).replay_payload(),
    {
        self.last_input = Some(inp);
    }

    /// Takes the last pair of inputs, leaving none.
    pub fn take_last_input(&mut self) -> (res: Option<Pair<Input>>)
        ensures
            match (res, old(self).spec_last_input()) {
                (Some(p), Some(v)) => p.local@ == v.local && p.remote@ == v.remote,
                (None, None) => true,
                _ => false,
            },
            final(self).spec_last_input() is None,
            final(self).spec_local_player_index() == old(self).spec_local_player_index(),
            final(self).queue() == old(self).queue(),
            final(self).spec_remote_delay() == old(self).spec_remote_delay(),
            final(self).spec_is_accepting_input() == old(self).spec_is_accepting_input(),
            final(self).spec_is_over() == old(self).spec_is_over(),
            final(self).spec_last_committed_remote_input()
                == old(self).spec_last_committed_remote_input(),
            final(self).spec_committed_state() == old(self).spec_committed_state(),
            final(self).spec_local_pending_turn() == old(self).spec_local_pending_turn(),
            final(self).replay_payload() == old(self).replay_payload(),
    {
        self.last_input.take()
    }

    pub fn local_delay(&self) -> (res: u32)
        ensures
            res == self.queue().delay(),
    {
        self.iq.local_delay()
    }

    pub fn set_remote_delay(&mut self, delay: u32)
        ensures
            final(self).spec_remote_delay() == delay,
            final(self).spec_local_player_index() == old(self).spec_local_player_index(),
            final(self).queue() == old(self).queue(),
            final(self).spec_is_accepting_input() == old(self).spec_is_accepting_input(),
            final(self).spec_is_over() == old(self).spec_is_over(),
            final(self).spec_last_committed_remote_input()
                == old(self).spec_last_committed_remote_input(),
            final(self).spec_last_input() == old(self).spec_last_input(),
            final(self).spec_committed_state() == old(self).spec_committed_state(),
            final(self).spec_local_pending_turn() == old(self).spec_local_pending_turn(),
            final(self).replay_payload() == old(self).replay_payload(),
    {
        self.remote_delay = delay;
    }

    pub fn remote_delay(&self) -> (res: u32)
        ensures
            res == self.spec_remote_delay(),
    {
        self.remote_delay
    }

    pub fn local_queue_length(&self) -> (res: usize)
        ensures
            res == self.queue().local_queue().len(),
    {
        self.iq.local_queue_length()
    }

    pub fn remote_queue_length(&self) -> (res: usize)
        ensures
            res == self.queue().remote_queue().len(),
    {
        self.iq.remote_queue_length()
    }

    /// From now on the battle takes input.
    pub fn mark_accepting_input(&mut self)
        ensures
            final(self).spec_is_accepting_input(),
            final(self).spec_local_player_index() == old(self).spec_local_player_index(),
            final(self).queue() == old(self).queue(),
            final(self).spec_remote_delay() == old(self).spec_remote_delay(),
            final(self).spec_is_over() == old(self).spec_is_over(),
            final(self).spec_last_committed_remote_input()
                == old(self).spec_last_committed_remote_input(),
            final(self).spec_last_input() == old(self).spec_last_input(),
            final(self).spec_committed_state() == old(self).spec_committed_state(),
            final(self).spec_local_pending_turn() == old(self).spec_local_pending_turn(),
            final(self).replay_payload() == old(self).replay_payload(),
    {
        self.is_accepting_input = true;
    }

    /// The same as [`Battle::mark_accepting_input`].
    pub fn start_accepting_input(&mut self)
        ensures
            final(self).spec_is_accepting_input(),
            final(self).spec_local_player_index() == old(self).spec_local_player_index(),
            final(self).queue() == old(self).queue(),
            final(self).spec_remote_delay() == old(self).spec_remote_delay(),
            final(self).spec_is_over() == old(self).spec_is_over(),
            final(self).spec_last_committed_remote_input()
                == old(self).spec_last_committed_remote_input(),
            final(self).spec_last_input() == old(self).spec_last_input(),
            final(self).spec_committed_state() == old(self).spec_committed_state(),
            final(self).spec_local_pending_turn() == old(self).spec_local_pending_turn(),
            final(self).replay_payload() == old(self).replay_payload(),
    {
        self.mark_accepting_input();
    }

    pub fn is_accepting_input(&self) -> (res: bool)
        ensures
            res == self.spec_is_accepting_input(),
    {
        self.is_accepting_input
    }

    /// Marks the battle as over.
    pub fn mark_over(&mut self)
        ensures
            final(self).spec_is_over(),
            final(self).spec_local_player_index() == old(self).spec_local_player_index(),
            final(self).queue() == old(self).queue(),
            final(self).spec_remote_delay() == old(self).spec_remote_delay(),
            final(self).spec_is_accepting_input() == old(self).spec_is_accepting_input(),
            final(self).spec_last_committed_remote_input()
                == old(self).spec_last_committed_remote_input(),
            final(self).spec_last_input() == old(self).spec_last_input(),
            final(self).spec_committed_state() == old(self).spec_committed_state(),
            final(self).spec_local_pending_turn() == old(self).spec_local_pending_turn(),
            final(self).replay_payload() == old(self).replay_payload(),
    {
        self.is_over = true;
    }

    pub fn is_over(&self) -> (res: bool)
        ensures
            res == self.spec_is_over(),
    {
        self.is_over
    }

    /// A copy of the remote input of the last committed pair.
    pub fn last_committed_remote_input(&self) -> (res: Input)
        ensures
            res@ == self.spec_last_committed_remote_input(),
    {
        self.last_committed_remote_input.clone()
    }

    pub fn committed_state(&self) -> (res: &Option<Vec<u8>>)
        ensures
            match (*res, self.spec_committed_state()) {
                (Some(s), Some(v)) => s@ == v,
                (None, None) => true,
                _ => false,
            },
    {
        &self.committed_state
    }

    /// Commits what the queues allow (see [`PairQueue::consume_and_peek_local`]); the remote
    /// input of the last committed pair becomes the last committed remote input.
    pub fn consume_and_peek_local(&mut self) -> (res: (Vec<Pair<Input>>, Vec<Input>))
        requires
            old(self).wf(),
        ensures
            final(self).wf(),
            ({
                let q = old(self).queue();
                let l = q.local_queue();
                let r = q.remote_queue();
                let c = commit_count(l.len(), r.len(), q.delay() as nat);
                &&& res.0@.len() == c
                &&& forall|i: int|
                    0 <= i < c ==> #[trigger] res.0@[i].local == l[i] && res.0@[i].remote == r[i]
                &&& final(self).queue().local_queue() == l.skip(c as int)
                &&& final(self).queue().remote_queue() == r.skip(c as int)
                &&& res.1@.len() == peek_count((l.len() - c) as nat, q.delay() as nat)
                &&& forall|i: int|
                    0 <= i < res.1@.len() ==> (#[trigger] res.1@[i])@ == l[c + i]@
                &&& final(self).spec_last_committed_remote_input() == if c > 0 {
                    r[c - 1]@
                } else {
                    old(self).spec_last_committed_remote_input()
                }
            }),
            final(self).queue().max_len() == old(self).queue().max_len(),
            final(self).queue().delay() == old(self).queue().delay(),
            final(self).spec_local_player_index() == old(self).spec_local_player_index(),
            final(self).spec_remote_delay() == old(self).spec_remote_delay(),
            final(self).spec_is_accepting_input() == old(self).spec_is_accepting_input(),
            final(self).spec_is_over() == old(self).spec_is_over(),
            final(self).spec_last_input() == old(self).spec_last_input(),
            final(self).spec_committed_state() == old(self).spec_committed_state(),
            final(self).spec_local_pending_turn() == old(self).spec_local_pending_turn(),
            final(self).replay_payload() == old(self).replay_payload(),
    {
        let ghost l = self.iq.local_queue();
        let ghost r = self.iq.remote_queue();
        let (input_pairs, left) = self.iq.consume_and_peek_local();
        proof {
            let c = commit_count(l.len(), r.len(), self.iq.delay() as nat);
            assert forall|i: int| 0 <= i < left@.len() implies (#[trigger] left@[i])@ == l[c
                + i]@ by {
                assert(self.iq.local_queue()[i] == l[c + i]);
                assert(cloned::<Input>(self.iq.local_queue()[i], left@[i]));
            }
        }
        let ghost c = commit_count(l.len(), r.len(), self.iq.delay() as nat);
        if input_pairs.len() > 0 {
            let last = input_pairs.len() - 1;
            self.last_committed_remote_input = input_pairs[last].remote.clone();
            proof {
                assert(input_pairs@[last as int].local == l[last as int]);
                assert(input_pairs@[last as int].remote == r[c - 1]);
            }
        }
        proof {
            assert(self.iq.local_queue().len() == l.len() - c);
        }
        (input_pairs, left)
    }

    /// Queues a local input; `false`, with nothing queued, when the local queue is full.
    pub fn add_local_input(&mut self, input: Input) -> (accepted: bool)
        requires
            old(self).wf(),
        ensures
            final(self).wf(),
            accepted == (old(self).queue().local_queue().len() < old(self).queue().max_len()),
            accepted ==> final(self).queue().local_queue() == old(self).queue().local_queue().push(
                input,
            ),
            !accepted ==> final(self).queue().local_queue() == old(self).queue().local_queue(),
            final(self).queue().remote_queue() == old(self).queue().remote_queue(),
            final(self).queue().max_len() == old(self).queue().max_len(),
            final(self).queue().delay() == old(self).queue().delay(),
            final(self).spec_local_player_index() == old(self).spec_local_player_index(),
            final(self).spec_remote_delay() == old(self).spec_remote_delay(),
            final(self).spec_is_accepting_input() == old(self).spec_is_accepting_input(),
            final(self).spec_is_over() == old(self).spec_is_over(),
            final(self).spec_last_committed_remote_input()
                == old(self).spec_last_committed_remote_input(),
            final(self).spec_last_input() == old(self).spec_last_input(),
            final(self).spec_committed_state() == old(self).spec_committed_state(),
            final(self).spec_local_pending_turn() == old(self).spec_local_pending_turn(),
            final(self).replay_payload() == old(self).replay_payload(),
    {
        self.iq.add_local_input(input)
    }

    /// Queues a remote input; `false`, with nothing queued, when the remote queue is full.
    pub fn add_remote_input(&mut self, input: Input) -> (accepted: bool)
        requires
            old(self).wf(),
        ensures
            final(self).wf(),
            accepted == (old(self).queue().remote_queue().len() < old(self).queue().max_len()),
            accepted ==> final(self).queue().remote_queue()
                == old(self).queue().remote_queue().push(input),
            !accepted ==> final(self).queue().remote_queue() == old(self).queue().remote_queue(),
            final(self).queue().local_queue() == old(self).queue().local_queue(),
            final(self).queue().max_len() == old(self).queue().max_len(),
            final(self).queue().delay() == old(self).queue().delay(),
            final(self).spec_local_player_index() == old(self).spec_local_player_index(),
            final(self).spec_remote_delay() == old(self).spec_remote_delay(),
            final(self).spec_is_accepting_input() == old(self).spec_is_accepting_input(),
            final(self).spec_is_over() == old(self).spec_is_over(),
            final(self).spec_last_committed_remote_input()
                == old(self).spec_last_committed_remote_input(),
            final(self).spec_last_input() == old(self).spec_last_input(),
            final(self).spec_committed_state() == old(self).spec_committed_state(),
            final(self).spec_local_pending_turn() == old(self).spec_local_pending_turn(),
            final(self).replay_payload() == old(self).replay_payload(),
    {
        self.iq.add_remote_input(input)
    }

    /// Queues an input for the given player: the local queue where it is the local player.
    pub fn add_input(&mut self, player_index: u8, input: Input) -> (accepted: bool)
        requires
            old(self).wf(),
        ensures
            final(self).wf(),
            player_index == old(self).spec_local_player_index() ==> {
                &&& accepted == (old(self).queue().local_queue().len()
                    < old(self).queue().max_len())
                &&& final(self).queue().local_queue() == if accepted {
                    old(self).queue().local_queue().push(input)
                } else {
                    old(self).queue().local_queue()
                }
                &&& final(self).queue().remote_queue() == old(self).queue().remote_queue()
            },
            player_index != old(self).spec_local_player_index() ==> {
                &&& accepted == (old(self).queue().remote_queue().len()
                    < old(self).queue().max_len())
                &&& final(self).queue().remote_queue() == if accepted {
                    old(self).queue().remote_queue().push(input)
                } else {
                    old(self).queue().remote_queue()
                }
                &&& final(self).queue().local_queue() == old(self).queue().local_queue()
            },
            final(self).queue().max_len() == old(self).queue().max_len(),
            final(self).queue().delay() == old(self).queue().delay(),
            final(self).spec_local_player_index() == old(self).spec_local_player_index(),
            final(self).spec_last_committed_remote_input()
                == old(self).spec_last_committed_remote_input(),
            final(self).spec_committed_state() == old(self).spec_committed_state(),
            final(self).replay_payload() == old(self).replay_payload(),
    {
        if player_index == self.local_player_index {
            self.add_local_input(input)
        } else {
            self.add_remote_input(input)
        }
    }

    /// Holds a marshaled turn for [`TURN_TICKS`] ticks.
    pub fn add_local_pending_turn(&mut self, marshaled: Vec<u8>)
        ensures
            final(self).spec_local_pending_turn() == Some((marshaled@, TURN_TICKS)),
            final(self).spec_local_player_index() == old(self).spec_local_player_index(),
            final(self).queue() == old(self).queue(),
            final(self).spec_remote_delay() == old(self).spec_remote_delay(),
            final(self).spec_is_accepting_input() == old(self).spec_is_accepting_input(),
            final(self).spec_is_over() == old(self).spec_is_over(),
            final(self).spec_last_committed_remote_input()
                == old(self).spec_last_committed_remote_input(),
            final(self).spec_last_input() == old(self).spec_last_input(),
            final(self).spec_committed_state() == old(self).spec_committed_state(),
            final(self).replay_payload() == old(self).replay_payload(),
    {
        self.local_pending_turn = Some(LocalPendingTurn { ticks_left: TURN_TICKS, marshaled });
    }

    /// Counts a pending turn down by one tick; hands it out, and drops it, on the tick where
    /// its count reaches zero. Empty on every other tick.
    pub fn take_local_pending_turn(&mut self) -> (res: Vec<u8>)
        ensures
            res@ == pending_taken(old(self).spec_local_pending_turn()),
            final(self).spec_local_pending_turn() == pending_after(old(self).spec_local_pending_turn()),
            match old(self).spec_local_pending_turn() {
                Some((t, n)) => if n == 0 {
                    res@ == Seq::<u8>::empty() && final(self).spec_local_pending_turn()
                        == old(self).spec_local_pending_turn()
                } else if n == 1 {
                    res@ == t && final(self).spec_local_pending_turn() is None
                } else {
                    res@ == Seq::<u8>::empty() && final(self).spec_local_pending_turn() == Some(
                        (t, (n - 1) as u8),
                    )
                },
                None => res@ == Seq::<u8>::empty() && final(self).spec_local_pending_turn() is None,
            },
            final(self).spec_local_player_index() == old(self).spec_local_player_index(),
            final(self).queue() == old(self).queue(),
            final(self).spec_remote_delay() == old(self).spec_remote_delay(),
            final(self).spec_is_accepting_input() == old(self).spec_is_accepting_input(),
            final(self).spec_is_over() == old(self).spec_is_over(),
            final(self).spec_last_committed_remote_input()
                == old(self).spec_last_committed_remote_input(),
            final(self).spec_last_input() == old(self).spec_last_input(),
            final(self).spec_committed_state() == old(self).spec_committed_state(),
            final(self).replay_payload() == old(self).replay_payload(),
    {
        match self.local_pending_turn.take() {
            Some(mut lpt) => {
                if lpt.ticks_left > 0 {
                    lpt.ticks_left = lpt.ticks_left - 1;
                    if lpt.ticks_left != 0 {
                        self.local_pending_turn = Some(lpt);
                        return Vec::new();
                    }
                    lpt.marshaled
                } else {
                    self.local_pending_turn = Some(lpt);
                    Vec::new()
                }
            },
            None => Vec::new(),
        }
    }

    /// How many ticks per second the local emulator should run faster (or slower, where
    /// negative) to keep pace: how far the last local input ran ahead of the remote side, less
    /// the local delay, against the same for the last committed remote input.
    pub open spec fn spec_tps_adjustment(&self) -> int {
        match self.spec_last_input() {
            None => 0,
            Some(p) => (as_i32(p.local.remote_tick) - as_i32(p.local.local_tick) - as_i32(
                self.queue().delay(),
            )) - (as_i32(self.spec_last_committed_remote_input().remote_tick) - as_i32(
                self.spec_last_committed_remote_input().local_tick,
            ) - as_i32(self.spec_remote_delay())),
        }
    }

    /// The `i32` steps of [`Battle::spec_tps_adjustment`] stay in range.
    pub open spec fn tps_adjustment_fits(&self) -> bool {
        match self.spec_last_input() {
            None => true,
            Some(p) => {
                let lr = self.spec_last_committed_remote_input();
                &&& fits_i32(as_i32(p.local.remote_tick) - as_i32(p.local.local_tick))
                &&& fits_i32(
                    as_i32(p.local.remote_tick) - as_i32(p.local.local_tick) - as_i32(
                        self.queue().delay(),
                    ),
                )
                &&& fits_i32(as_i32(lr.remote_tick) - as_i32(lr.local_tick))
                &&& fits_i32(
                    as_i32(lr.remote_tick) - as_i32(lr.local_tick) - as_i32(
                        self.spec_remote_delay(),
                    ),
                )
                &&& fits_i32(self.spec_tps_adjustment())
            },
        }
    }

    pub fn tps_adjustment(&self) -> (res: i32)
        requires
            self.tps_adjustment_fits(),
        ensures
            res == self.spec_tps_adjustment(),
            self.spec_last_input() is None ==> res == 0,
            self.spec_last_input() matches Some(p) ==> res == (as_i32(
                self.spec_last_committed_remote_input().local_tick,
            ) - as_i32(self.spec_last_committed_remote_input().remote_tick) + as_i32(
                self.spec_remote_delay(),
            )) - (as_i32(p.local.local_tick) - as_i32(p.local.remote_tick) + as_i32(
                self.queue().delay(),
            )),
    {
        let last_local_input = match &self.last_input {
            Some(p) => &p.local,
            None => {
                return 0;
            },
        };
        let a = cast_i32(last_local_input.remote_tick) - cast_i32(last_local_input.local_tick)
            - cast_i32(self.iq.local_delay());
        let b = cast_i32(self.last_committed_remote_input.remote_tick) - cast_i32(
            self.last_committed_remote_input.local_tick,
        ) - cast_i32(self.remote_delay);
        (a - b) as i32
    }
}

/// How far the local side runs ahead of the peer by its last input: its own tick past the
/// tick of the peer it had seen, plus the local delay.
pub open spec fn local_lead(b: Battle, p: Pair<InputView>) -> int {
    as_i32(p.local.local_tick) - as_i32(p.local.remote_tick) + as_i32(b.queue().delay())
}

/// How far the peer runs ahead of us by its last committed input, plus the remote delay.
pub open spec fn remote_lead(b: Battle) -> int {
    as_i32(b.spec_last_committed_remote_input().local_tick) - as_i32(
        b.spec_last_committed_remote_input().remote_tick,
    ) + as_i32(b.spec_remote_delay())
}

/// The tick-rate adjustment slows down the side that runs further ahead and speeds up the
/// side that lags: it is the peer's lead minus ours, negative exactly when we lead by more,
/// zero when the leads are equal, and zero before any input.
pub proof fn lemma_tps_adjustment_slows_the_side_ahead(b: Battle)
    ensures
        b.spec_last_input() is None ==> b.spec_tps_adjustment() == 0,
        b.spec_last_input() matches Some(p) ==> {
            &&& b.spec_tps_adjustment() == remote_lead(b) - local_lead(b, p)
            &&& (b.spec_tps_adjustment() < 0 <==> local_lead(b, p) > remote_lead(b))
            &&& (b.spec_tps_adjustment() == 0 <==> local_lead(b, p) == remote_lead(b))
            &&& (b.spec_tps_adjustment() > 0 <==> local_lead(b, p) < remote_lead(b))
        },
{
}

/// What one local tick hands on: the packet for the peer, and what the fastforwarder runs
/// from.
pub struct LocalTick {
    pub input: protocol::Input,
    pub commit_pairs: Vec<Pair<Input>>,
    pub left: Vec<Input>,
    pub committed_state: Vec<u8>,
    pub last_committed_remote_input: Input,
}

/// The local player's index in a battle: the winner of the last battle is player 1
/// (index 0).
pub open spec fn local_index_for(won_last_battle: bool) -> u8 {
    if won_last_battle {
        0
    } else {
        1
    }
}

/// What a local tick did to the battle (from `b0` to `b1`) and handed on: the local input
/// for `current_tick` (ahead by the local delay) is queued, unless the local queue is full;
/// the pairs that both queues allow are committed, written to the replay and handed on with
/// the local inputs still ahead; the pending turn is then `pending`.
pub open spec fn local_tick_result(
    number: u8,
    b0: Battle,
    b1: Battle,
    current_tick: u32,
    joyflags: u16,
    custom_screen_state: u8,
    turn: Seq<u8>,
    pending: Option<(Seq<u8>, u8)>,
    res: Option<LocalTick>,
) -> bool {
    let q0 = b0.queue();
    let inp = InputView {
        local_tick: (current_tick + q0.delay()) as u32,
        remote_tick: b0.spec_last_committed_remote_input().local_tick,
        joyflags,
        custom_screen_state,
        turn: turn,
    };
    let lv = views(q0.local_queue()).push(inp);
    let rv = views(q0.remote_queue());
    let c = commit_count(lv.len(), rv.len(), q0.delay() as nat);
    &&& (res is None <==> q0.local_queue().len() >= q0.max_len())
    &&& res is None ==> {
        &&& b1.queue().local_queue() == q0.local_queue()
        &&& b1.queue().remote_queue() == q0.remote_queue()
        &&& b1.queue().max_len() == q0.max_len()
        &&& b1.queue().delay() == q0.delay()
        &&& b1.spec_local_player_index() == b0.spec_local_player_index()
        &&& b1.spec_committed_state() == b0.spec_committed_state()
        &&& b1.spec_remote_delay() == b0.spec_remote_delay()
        &&& b1.spec_last_input() == b0.spec_last_input()
        &&& b1.spec_last_committed_remote_input()
            == b0.spec_last_committed_remote_input()
        &&& b1.replay_payload() == b0.replay_payload()
        &&& b1.spec_local_pending_turn() == pending
    }
    &&& res matches Some(t) ==> {
        &&& t.input.battle_number == number
        &&& t.input.local_tick == inp.local_tick
        &&& t.input.remote_tick == inp.remote_tick
        &&& t.input.joyflags == joyflags
        &&& t.input.custom_screen_state == custom_screen_state
        &&& t.input.turn@ == turn
        &&& t.commit_pairs@.len() == c
        &&& forall|i: int|
            0 <= i < c ==> #[trigger] t.commit_pairs@[i].local@ == lv[i]
                && t.commit_pairs@[i].remote@ == rv[i]
        &&& views(b1.queue().local_queue()) == lv.skip(c as int)
        &&& views(b1.queue().remote_queue()) == rv.skip(c as int)
        &&& views(t.left@) == lv.skip(c as int).take(
            peek_count((lv.len() - c) as nat, q0.delay() as nat) as int,
        )
        &&& Some(t.committed_state@) == b0.spec_committed_state()
        &&& t.last_committed_remote_input@ == b1.spec_last_committed_remote_input()
        &&& b1.spec_last_committed_remote_input() == if c > 0 {
            rv[c - 1]
        } else {
            b0.spec_last_committed_remote_input()
        }
        &&& b1.replay_payload() == b0.replay_payload() + input_records(
            b0.spec_local_player_index(),
            pair_views(t.commit_pairs@),
        )
        &&& b1.queue().max_len() == q0.max_len()
        &&& b1.queue().delay() == q0.delay()
        &&& b1.spec_local_player_index() == b0.spec_local_player_index()
        &&& b1.spec_committed_state() == b0.spec_committed_state()
        &&& b1.spec_remote_delay() == b0.spec_remote_delay()
        &&& b1.spec_last_input() == b0.spec_last_input()
        &&& b1.spec_local_pending_turn() == pending
    }
}

/// The local inputs of a tick in the order they were queued: those committed with it,
/// then those the battle still holds.
pub open spec fn queued_local_inputs(t: LocalTick, b: Battle) -> Seq<InputView> {
    Seq::new(t.commit_pairs@.len(), |i: int| t.commit_pairs@[i].local@) + views(
        b.queue().local_queue(),
    )
}

/// The local input that a tick queued last.
pub open spec fn newest_local_input(t: LocalTick, b: Battle) -> InputView {
    queued_local_inputs(t, b).last()
}

/// A local tick queues the local input with the peer's tick as the local tick of the last
/// remote input committed before it, sends the peer that same tick, and stamps the input
/// with the current tick plus the local delay.
pub proof fn lemma_local_tick_stamps_last_committed_remote_tick(
    number: u8,
    b0: Battle,
    b1: Battle,
    current_tick: u32,
    joyflags: u16,
    custom_screen_state: u8,
    turn: Seq<u8>,
    pending: Option<(Seq<u8>, u8)>,
    t: LocalTick,
)
    requires
        current_tick + b0.queue().delay() <= u32::MAX,
        local_tick_result(
            number,
            b0,
            b1,
            current_tick,
            joyflags,
            custom_screen_state,
            turn,
            pending,
            Some(t),
        ),
    ensures
        t.input.remote_tick == b0.spec_last_committed_remote_input().local_tick,
        t.input.local_tick == current_tick + b0.queue().delay(),
        queued_local_inputs(t, b1) == views(b0.queue().local_queue()).push(
            newest_local_input(t, b1),
        ),
        newest_local_input(t, b1).remote_tick == b0.spec_last_committed_remote_input().local_tick,
        newest_local_input(t, b1).local_tick == current_tick + b0.queue().delay(),
        newest_local_input(t, b1).joyflags == joyflags,
        newest_local_input(t, b1).turn == turn,
{
    let q0 = b0.queue();
    let inp = InputView {
        local_tick: (current_tick + q0.delay()) as u32,
        remote_tick: b0.spec_last_committed_remote_input().local_tick,
        joyflags,
        custom_screen_state,
        turn: turn,
    };
    let lv = views(q0.local_queue()).push(inp);
    let rv = views(q0.remote_queue());
    let c = commit_count(lv.len(), rv.len(), q0.delay() as nat);
    crate::input::lemma_commit_count_is_largest_allowed(lv.len(), rv.len(), q0.delay() as nat);
    assert(queued_local_inputs(t, b1) =~= lv.take(c as int) + lv.skip(c as int));
    assert(lv.take(c as int) + lv.skip(c as int) =~= lv);
}

/// What became of an input packet from the peer.
#[derive(PartialEq, Eq, Structural)]
pub enum RemoteInput {
    /// It was for another battle and was dropped.
    WrongBattle,
    /// No battle runs; it was dropped.
    NoBattle,
    /// It was queued.
    Queued,
    /// The remote queue was full: the peer overflowed it.
    Overflowed,
}

/// The battles of a match: which one is running, and who won the last.
pub struct BattleState {
    pub number: u8,
    pub battle: Option<Battle>,
    pub won_last_battle: bool,
}

impl BattleState {
    /// The running battle.
    pub open spec fn current(&self) -> Battle {
        self.battle.unwrap()
    }

    /// Where a battle runs, it is well formed.
    pub open spec fn wf(&self) -> bool {
        self.battle matches Some(b) ==> b.wf()
    }

    /// No battle yet, none won.
    pub fn new() -> (res: BattleState)
        ensures
            res.number == 0,
            res.battle is None,
            !res.won_last_battle,
            res.wf(),
    {
        BattleState { number: 0, battle: None, won_last_battle: false }
    }

    /// Starts the next battle: the player who won the last battle is player 1 (index 0).
    pub fn start_battle(&mut self, input_delay: u32)
        requires
            old(self).number < u8::MAX,
        ensures
            final(self).wf(),
            final(self).number == old(self).number + 1,
            final(self).won_last_battle == old(self).won_last_battle,
            final(self).battle is Some,
            final(self).current().spec_local_player_index() == local_index_for(
                old(self).won_last_battle,
            ),
            final(self).current().queue().local_queue() == Seq::<Input>::empty(),
            final(self).current().queue().remote_queue() == Seq::<Input>::empty(),
            final(self).current().queue().max_len() == INPUT_QUEUE_LENGTH,
            final(self).current().queue().delay() == input_delay,
            final(self).current().spec_remote_delay() == 0,
            !final(self).current().spec_is_accepting_input(),
            final(self).current().spec_last_input() is None,
            final(self).current().spec_committed_state() is None,
            final(self).current().spec_local_pending_turn() is None,
            final(self).current().replay_payload() == seq![
                final(self).current().spec_local_player_index(),
            ],
    {
        self.number = self.number + 1;
        let local_player_index: u8 = if self.won_last_battle {
            0
        } else {
            1
        };
        self.battle = Some(Battle::new(local_player_index, input_delay));
    }

    /// Ends the running battle.
    pub fn end_battle(&mut self)
        ensures
            final(self).battle is None,
            final(self).number == old(self).number,
            final(self).won_last_battle == old(self).won_last_battle,
            final(self).wf(),
    {
        self.battle = None;
    }

    pub fn is_active(&self) -> (res: bool)
        ensures
            res == self.battle is Some,
    {
        self.battle.is_some()
    }

    pub fn set_won_last_battle(&mut self, did_win: bool)
        ensures
            final(self).won_last_battle == did_win,
            final(self).number == old(self).number,
            final(self).battle == old(self).battle,
    {
        self.won_last_battle = did_win;
    }

    pub fn add_local_pending_turn(&mut self, local_turn: Vec<u8>)
        requires
            old(self).battle is Some,
        ensures
            final(self).battle is Some,
            final(self).current().spec_local_pending_turn() == Some((local_turn@, TURN_TICKS)),
            final(self).current().queue() == old(self).current().queue(),
            final(self).current().spec_local_player_index() == old(self).current().spec_local_player_index(),
            final(self).number == old(self).number,
            final(self).won_last_battle == old(self).won_last_battle,
    {
        let mut battle = self.battle.take().unwrap();
        battle.add_local_pending_turn(local_turn);
        self.battle = Some(battle);
    }

    pub fn has_committed_state(&self) -> (res: bool)
        requires
            self.battle is Some,
        ensures
            res == self.current().spec_committed_state() is Some,
    {
        match &self.battle {
            Some(b) => b.committed_state().is_some(),
            None => false,
        }
    }

    /// Stores the committed state; the first one of a battle also goes into its replay.
    pub fn set_committed_state(&mut self, state: Vec<u8>)
        requires
            old(self).battle is Some,
        ensures
            final(self).battle is Some,
            final(self).current().spec_committed_state() == Some(state@),
            final(self).current().replay_payload() == if old(self).current().spec_committed_state() is None {
                old(self).current().replay_payload() + state_record(state@)
            } else {
                old(self).current().replay_payload()
            },
            final(self).current().queue() == old(self).current().queue(),
            final(self).current().spec_local_player_index() == old(self).current().spec_local_player_index(),
            final(self).current().spec_last_input() == old(self).current().spec_last_input(),
            final(self).current().spec_last_committed_remote_input() == old(self).current().spec_last_committed_remote_input(),
            final(self).current().spec_remote_delay() == old(self).current().spec_remote_delay(),
            final(self).number == old(self).number,
            final(self).won_last_battle == old(self).won_last_battle,
    {
        let mut battle = self.battle.take().unwrap();
        if battle.committed_state.is_none() {
            battle.replay_writer.write_state(state.as_slice());
        }
        battle.set_committed_state(state);
        self.battle = Some(battle);
    }

    /// Fills both queues with the empty inputs that cover each side's delay, from the current
    /// tick on.
    pub fn fill_input_delay(&mut self, current_tick: u32)
        requires
            old(self).battle is Some,
            old(self).wf(),
            current_tick + old(self).current().queue().delay() <= u32::MAX,
            current_tick + old(self).current().spec_remote_delay() <= u32::MAX,
            old(self).current().queue().local_queue().len() + old(self).current().queue().delay()
                <= old(self).current().queue().max_len(),
            old(self).current().queue().remote_queue().len() + old(self).current().spec_remote_delay() <= old(self).current().queue().max_len(),
        ensures
            final(self).wf(),
            final(self).battle is Some,
            ({
                let q0 = old(self).current().queue();
                let q1 = final(self).current().queue();
                let d = q0.delay() as int;
                let rd = old(self).current().spec_remote_delay() as int;
                &&& q1.local_queue().len() == q0.local_queue().len() + d
                &&& q1.local_queue().subrange(0, q0.local_queue().len() as int)
                    == q0.local_queue()
                &&& forall|i: int|
                    0 <= i < d ==> #[trigger] q1.local_queue()[q0.local_queue().len() + i]@
                        == empty_input_at((current_tick + i) as u32)
                &&& q1.remote_queue().len() == q0.remote_queue().len() + rd
                &&& q1.remote_queue().subrange(0, q0.remote_queue().len() as int)
                    == q0.remote_queue()
                &&& forall|i: int|
                    0 <= i < rd ==> #[trigger] q1.remote_queue()[q0.remote_queue().len() + i]@
                        == empty_input_at((current_tick + i) as u32)
                &&& q1.max_len() == q0.max_len()
                &&& q1.delay() == q0.delay()
            }),
            final(self).current().spec_local_player_index() == old(self).current().spec_local_player_index(),
            final(self).current().spec_remote_delay() == old(self).current().spec_remote_delay(),
            final(self).current().spec_committed_state() == old(self).current().spec_committed_state(),
            final(self).current().spec_last_committed_remote_input() == old(self).current().spec_last_committed_remote_input(),
            final(self).current().replay_payload() == old(self).current().replay_payload(),
            final(self).number == old(self).number,
            final(self).won_last_battle == old(self).won_last_battle,
    {
        let mut battle = self.battle.take().unwrap();
        let ghost b0 = battle;
        let ghost l0 = battle.queue().local_queue();
        let ghost r0 = battle.queue().remote_queue();
        let local_delay = battle.local_delay();
        let mut i: u32 = 0;
        while i < local_delay
            invariant
                battle.wf(),
                i <= local_delay,
                local_delay == b0.queue().delay(),
                current_tick + local_delay <= u32::MAX,
                l0.len() + local_delay <= battle.queue().max_len(),
                battle.queue().max_len() == b0.queue().max_len(),
                battle.queue().delay() == b0.queue().delay(),
                battle.queue().local_queue().len() == l0.len() + i,
                battle.queue().local_queue().subrange(0, l0.len() as int) == l0,
                forall|k: int|
                    0 <= k < i ==> #[trigger] battle.queue().local_queue()[l0.len() + k]@
                        == empty_input_at((current_tick + k) as u32),
                battle.queue().remote_queue() == r0,
                battle.spec_local_player_index() == b0.spec_local_player_index(),
                battle.spec_remote_delay() == b0.spec_remote_delay(),
                battle.spec_committed_state() == b0.spec_committed_state(),
                battle.spec_last_committed_remote_input() == b0.spec_last_committed_remote_input(),
                battle.replay_payload() == b0.replay_payload(),
            decreases local_delay - i,
        {
            let ghost before = battle.queue().local_queue();
            let ok = battle.add_local_input(Input::empty_at(current_tick + i));
            proof {
                assert(ok);
                assert(battle.queue().local_queue().subrange(0, l0.len() as int) =~= l0) by {
                    assert(before.subrange(0, l0.len() as int) == l0);
                }
            }
            i = i + 1;
        }
        let remote_delay = battle.remote_delay();
        let mut j: u32 = 0;
        let ghost l1 = battle.queue().local_queue();
        while j < remote_delay
            invariant
                battle.wf(),
                j <= remote_delay,
                remote_delay == b0.spec_remote_delay(),
                current_tick + remote_delay <= u32::MAX,
                r0.len() + remote_delay <= battle.queue().max_len(),
                battle.queue().max_len() == b0.queue().max_len(),
                battle.queue().delay() == b0.queue().delay(),
                battle.queue().remote_queue().len() == r0.len() + j,
                battle.queue().remote_queue().subrange(0, r0.len() as int) == r0,
                forall|k: int|
                    0 <= k < j ==> #[trigger] battle.queue().remote_queue()[r0.len() + k]@
                        == empty_input_at((current_tick + k) as u32),
                battle.queue().local_queue() == l1,
                battle.spec_local_player_index() == b0.spec_local_player_index(),
                battle.spec_remote_delay() == b0.spec_remote_delay(),
                battle.spec_committed_state() == b0.spec_committed_state(),
                battle.spec_last_committed_remote_input() == b0.spec_last_committed_remote_input(),
                battle.replay_payload() == b0.replay_payload(),
            decreases remote_delay - j,
        {
            let ghost before = battle.queue().remote_queue();
            let ok = battle.add_remote_input(Input::empty_at(current_tick + j));
            proof {
                assert(ok);
                assert(battle.queue().remote_queue().subrange(0, r0.len() as int) =~= r0) by {
                    assert(before.subrange(0, r0.len() as int) == r0);
                }
            }
            j = j + 1;
        }
        self.battle = Some(battle);
    }

    /// The packet that sends the local marshaled state at the start of a battle.
    pub fn init_packet(&self, init: &[u8]) -> (res: protocol::Init)
        requires
            self.battle is Some,
        ensures
            res.battle_number == self.number,
            res.input_delay == self.current().queue().delay(),
            res.marshaled@ == init@,
    {
        let local_delay = match &self.battle {
            Some(b) => b.local_delay(),
            None => 0,
        };
        protocol::Init {
            battle_number: self.number,
            input_delay: local_delay,
            marshaled: crate::bytes::copy_range(init, 0, init.len()),
        }
    }

    /// Whether an input packet from the peer has to wait before it is taken: it is for
    /// the running battle, whose committed state is not set yet.
    pub fn input_waits_for_commit(&self, input: &protocol::Input) -> (res: bool)
        ensures
            res == (input.battle_number == self.number && self.battle is Some
                && self.current().spec_committed_state() is None),
    {
        if input.battle_number != self.number {
            return false;
        }
        match &self.battle {
            Some(b) => b.committed_state.is_none(),
            None => false,
        }
    }

    /// Takes an input packet from the peer: dropped where it is for another battle or
    /// no battle runs, refused where the remote queue is full, queued otherwise.
    pub fn receive_input(&mut self, input: protocol::Input) -> (res: RemoteInput)
        requires
            old(self).wf(),
        ensures
            final(self).wf(),
            final(self).number == old(self).number,
            final(self).won_last_battle == old(self).won_last_battle,
            input.battle_number != old(self).number ==> res == RemoteInput::WrongBattle
                && final(self).battle == old(self).battle,
            input.battle_number == old(self).number && old(self).battle is None ==> res
                == RemoteInput::NoBattle && final(self).battle is None,
            input.battle_number == old(self).number && old(self).battle is Some ==> ({
                let q = old(self).current().queue();
                let v = InputView {
                    local_tick: input.local_tick,
                    remote_tick: input.remote_tick,
                    joyflags: input.joyflags,
                    custom_screen_state: input.custom_screen_state,
                    turn: input.turn@,
                };
                &&& final(self).battle is Some
                &&& final(self).current().queue().local_queue() == q.local_queue()
                &&& final(self).current().spec_local_player_index() == old(self).current().spec_local_player_index()
                &&& if q.remote_queue().len() < q.max_len() {
                    res == RemoteInput::Queued && views(final(self).current().queue().remote_queue())
                        == views(q.remote_queue()).push(v)
                } else {
                    res == RemoteInput::Overflowed && final(self).current().queue().remote_queue()
                        == q.remote_queue()
                }
            }),
    {
        if input.battle_number != self.number {
            return RemoteInput::WrongBattle;
        }
        let mut battle = match self.battle.take() {
            Some(b) => b,
            None => {
                return RemoteInput::NoBattle;
            },
        };
        let inp = Input {
            local_tick: input.local_tick,
            remote_tick: input.remote_tick,
            joyflags: input.joyflags,
            custom_screen_state: input.custom_screen_state,
            turn: input.turn,
        };
        let ghost before = battle.queue().remote_queue();
        let accepted = battle.add_remote_input(inp);
        proof {
            if accepted {
                assert(views(battle.queue().remote_queue()) =~= views(before).push(inp@));
            }
        }
        self.battle = Some(battle);
        if accepted {
            RemoteInput::Queued
        } else {
            RemoteInput::Overflowed
        }
    }

    /// Takes the peer's init packet: its input delay becomes the remote delay; hands back its
    /// marshaled state. A packet for another battle number is taken all the same.
    pub fn receive_init(&mut self, init: protocol::Init) -> (res: Vec<u8>)
        requires
            old(self).battle is Some,
        ensures
            res@ == init.marshaled@,
            final(self).battle is Some,
            final(self).current().spec_remote_delay() == init.input_delay,
            final(self).current().queue() == old(self).current().queue(),
            final(self).current().spec_local_player_index() == old(self).current().spec_local_player_index(),
            final(self).current().spec_committed_state() == old(self).current().spec_committed_state(),
            final(self).current().replay_payload() == old(self).current().replay_payload(),
            final(self).number == old(self).number,
            final(self).won_last_battle == old(self).won_last_battle,
    {
        let mut battle = self.battle.take().unwrap();
        battle.set_remote_delay(init.input_delay);
        self.battle = Some(battle);
        init.marshaled
    }

    pub fn mark_accepting_input(&mut self)
        requires
            old(self).battle is Some,
        ensures
            final(self).battle is Some,
            final(self).current().spec_is_accepting_input(),
            final(self).current().queue() == old(self).current().queue(),
            final(self).current().spec_local_player_index() == old(self).current().spec_local_player_index(),
            final(self).number == old(self).number,
            final(self).won_last_battle == old(self).won_last_battle,
    {
        let mut battle = self.battle.take().unwrap();
        battle.mark_accepting_input();
        self.battle = Some(battle);
    }

    pub fn is_accepting_input(&self) -> (res: bool)
        requires
            self.battle is Some,
        ensures
            res == self.current().spec_is_accepting_input(),
    {
        match &self.battle {
            Some(b) => b.is_accepting_input(),
            None => false,
        }
    }

    pub fn local_player_index(&self) -> (res: u8)
        requires
            self.battle is Some,
        ensures
            res == self.current().spec_local_player_index(),
    {
        match &self.battle {
            Some(b) => b.local_player_index(),
            None => 0,
        }
    }

    pub fn remote_player_index(&self) -> (res: u8)
        requires
            self.battle is Some,
            self.wf(),
        ensures
            res == 1 - self.current().spec_local_player_index(),
    {
        match &self.battle {
            Some(b) => b.remote_player_index(),
            None => 0,
        }
    }

    pub fn take_last_input(&mut self) -> (res: Option<Pair<Input>>)
        requires
            old(self).battle is Some,
        ensures
            final(self).battle is Some,
            match (res, old(self).current().spec_last_input()) {
                (Some(p), Some(v)) => p.local@ == v.local && p.remote@ == v.remote,
                (None, None) => true,
                _ => false,
            },
            final(self).current().spec_last_input() is None,
            final(self).current().queue() == old(self).current().queue(),
            final(self).current().spec_local_player_index() == old(self).current().spec_local_player_index(),
            final(self).number == old(self).number,
            final(self).won_last_battle == old(self).won_last_battle,
    {
        let mut battle = self.battle.take().unwrap();
        let res = battle.take_last_input();
        self.battle = Some(battle);
        res
    }

    pub fn take_local_pending_turn(&mut self) -> (res: Vec<u8>)
        requires
            old(self).battle is Some,
        ensures
            final(self).battle is Some,
            match old(self).current().spec_local_pending_turn() {
                Some((t, n)) => if n == 1 {
                    res@ == t && final(self).current().spec_local_pending_turn() is None
                } else if n == 0 {
                    res@ == Seq::<u8>::empty() && final(self).current().spec_local_pending_turn()
                        == old(self).current().spec_local_pending_turn()
                } else {
                    res@ == Seq::<u8>::empty() && final(self).current().spec_local_pending_turn()
                        == Some((t, (n - 1) as u8))
                },
                None => res@ == Seq::<u8>::empty() && final(self).current().spec_local_pending_turn() is None,
            },
            res@ == pending_taken(old(self).current().spec_local_pending_turn()),
            final(self).current().spec_local_pending_turn() == pending_after(
                old(self).current().spec_local_pending_turn(),
            ),
            final(self).wf() == old(self).wf(),
            final(self).current().queue() == old(self).current().queue(),
            final(self).current().spec_local_player_index() == old(self).current().spec_local_player_index(),
            final(self).current().spec_remote_delay() == old(self).current().spec_remote_delay(),
            final(self).current().spec_is_accepting_input() == old(self).current().spec_is_accepting_input(),
            final(self).current().spec_is_over() == old(self).current().spec_is_over(),
            final(self).current().spec_last_committed_remote_input()
                == old(self).current().spec_last_committed_remote_input(),
            final(self).current().spec_last_input() == old(self).current().spec_last_input(),
            final(self).current().spec_committed_state() == old(self).current().spec_committed_state(),
            final(self).current().replay_payload() == old(self).current().replay_payload(),
            final(self).number == old(self).number,
            final(self).won_last_battle == old(self).won_last_battle,
    {
        let mut battle = self.battle.take().unwrap();
        let res = battle.take_local_pending_turn();
        self.battle = Some(battle);
        res
    }
}

/// The values of a sequence of inputs.
pub open spec fn views(s: Seq<Input>) -> Seq<InputView> {
    s.map_values(|i: Input| i@)
}

impl BattleState {
    /// The first half of a local tick: queues the local input (ahead by the local delay, and
    /// naming the tick of the last committed remote input), commits what the queues allow and
    /// writes the committed pairs to the replay. `None`, with nothing changed, where the local
    /// queue is full.
    pub fn add_local_input_and_consume(
        &mut self,
        current_tick: u32,
        joyflags: u16,
        custom_screen_state: u8,
        turn: Vec<u8>,
    ) -> (res: Option<LocalTick>)
        requires
            old(self).battle is Some,
            old(self).wf(),
            current_tick + old(self).current().queue().delay() <= u32::MAX,
            old(self).current().spec_committed_state() is Some,
        ensures
            final(self).wf(),
            final(self).battle is Some,
            final(self).number == old(self).number,
            final(self).won_last_battle == old(self).won_last_battle,
            local_tick_result(
                old(self).number,
                old(self).current(),
                final(self).current(),
                current_tick,
                joyflags,
                custom_screen_state,
                turn@,
                old(self).current().spec_local_pending_turn(),
                res,
            ),
            res matches Some(t) ==> t.input.remote_tick == old(self).current().spec_last_committed_remote_input().local_tick,
            res matches Some(t) ==> t.input.local_tick == current_tick + old(self).current().queue().delay(),
            res matches Some(t) ==> newest_local_input(t, final(self).current()).remote_tick == old(self).current().spec_last_committed_remote_input().local_tick,
    {
        let mut battle = self.battle.take().unwrap();
        let ghost b0 = battle;
        let local_tick = current_tick + battle.local_delay();
        let remote_tick = battle.last_committed_remote_input.local_tick;
        let packet_turn = crate::input::copy_bytes(&turn);
        let input = Input { local_tick, remote_tick, joyflags, custom_screen_state, turn };
        let ghost inp = input@;
        if !battle.add_local_input(input) {
            self.battle = Some(battle);
            return None;
        }
        let ghost l1 = battle.queue().local_queue();
        let ghost r1 = battle.queue().remote_queue();
        proof {
            assert(views(l1) =~= views(b0.queue().local_queue()).push(inp));
        }
        let (input_pairs, left) = battle.consume_and_peek_local();
        let ghost c = commit_count(l1.len(), r1.len(), b0.queue().delay() as nat);
        let lpi = battle.local_player_index;
        let ghost p0 = battle.replay_writer.payload();
        let ghost b2 = battle;
        let mut k: usize = 0;
        while k < input_pairs.len()
            invariant
                k <= input_pairs@.len(),
                battle.iq == b2.iq,
                battle.local_player_index == b2.local_player_index,
                battle.remote_delay == b2.remote_delay,
                battle.last_committed_remote_input == b2.last_committed_remote_input,
                battle.last_input == b2.last_input,
                battle.committed_state == b2.committed_state,
                battle.local_pending_turn == b2.local_pending_turn,
                battle.is_accepting_input == b2.is_accepting_input,
                battle.is_over == b2.is_over,
                lpi == b2.local_player_index,
                battle.replay_writer.payload() == p0 + input_records(
                    lpi,
                    pair_views(input_pairs@.take(k as int)),
                ),
            decreases input_pairs@.len() - k,
        {
            let ghost before = battle.replay_writer.payload();
            battle.replay_writer.write_input(lpi, &input_pairs[k]);
            proof {
                let ip = input_pairs@[k as int];
                let pv = Pair { local: ip.local@, remote: ip.remote@ };
                assert(pair_views(input_pairs@.take(k + 1)) =~= pair_views(
                    input_pairs@.take(k as int),
                ).push(pv));
                lemma_input_records_push(lpi, pair_views(input_pairs@.take(k as int)), pv);
                assert(battle.replay_writer.payload() =~= p0 + input_records(
                    lpi,
                    pair_views(input_pairs@.take(k + 1)),
                ));
            }
            k = k + 1;
        }
        proof {
            assert(input_pairs@.take(input_pairs@.len() as int) =~= input_pairs@);
        }
        let committed_state = match &battle.committed_state {
            Some(st) => crate::input::copy_bytes(st),
            None => Vec::new(),
        };
        let last_committed_remote_input = battle.last_committed_remote_input();
        proof {
            let lv = views(l1);
            let rv = views(r1);
            assert forall|i: int| 0 <= i < c implies #[trigger] input_pairs@[i].local@ == lv[i]
                && input_pairs@[i].remote@ == rv[i] by {
                assert(input_pairs@[i].local == l1[i]);
            }
            assert(battle.queue().local_queue() == l1.skip(c as int));
            assert(views(battle.queue().local_queue()) =~= lv.skip(c as int));
            assert(views(battle.queue().remote_queue()) =~= rv.skip(c as int));
            let pc = peek_count((l1.len() - c) as nat, b0.queue().delay() as nat);
            assert forall|i: int| 0 <= i < pc implies #[trigger] views(left@)[i] == lv.skip(
                c as int,
            ).take(pc as int)[i] by {
                assert(left@[i]@ == l1[c + i]@);
            }
            assert(views(left@) =~= lv.skip(c as int).take(pc as int));
            if c > 0 {
                assert(r1[c - 1]@ == rv[c - 1]);
            }
        }
        self.battle = Some(battle);
        Some(
            LocalTick {
                input: protocol::Input {
                    battle_number: self.number,
                    local_tick,
                    remote_tick,
                    joyflags,
                    custom_screen_state,
                    turn: packet_turn,
                },
                commit_pairs: input_pairs,
                left,
                committed_state,
                last_committed_remote_input,
            },
        )
    }

    /// The second half of a local tick: stores what the fastforwarder committed and the pair it
    /// ended on.
    pub fn complete_fastforward(&mut self, committed_state: Vec<u8>, last_input: Pair<Input>)
        requires
            old(self).battle is Some,
        ensures
            final(self).battle is Some,
            final(self).current().spec_committed_state() == Some(committed_state@),
            final(self).current().spec_last_input() == Some(
                Pair { local: last_input.local@, remote: last_input.remote@ },
            ),
            final(self).current().queue() == old(self).current().queue(),
            final(self).current().spec_local_player_index() == old(self).current().spec_local_player_index(),
            final(self).current().spec_last_committed_remote_input() == old(self).current().spec_last_committed_remote_input(),
            final(self).current().spec_remote_delay() == old(self).current().spec_remote_delay(),
            final(self).current().replay_payload() == old(self).current().replay_payload(),
            final(self).number == old(self).number,
            final(self).won_last_battle == old(self).won_last_battle,
    {
        let mut battle = self.battle.take().unwrap();
        battle.set_committed_state(committed_state);
        battle.set_last_input(last_input);
        self.battle = Some(battle);
    }
}

/// An input with every field zero, no turn data, at the given tick.
pub open spec fn empty_input_at(tick: u32) -> InputView {
    InputView { local_tick: tick, remote_tick: 0, joyflags: 0, custom_screen_state: 0, turn: Seq::empty() }
}

} // verus!
