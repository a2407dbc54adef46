use std::collections::VecDeque;
use vstd::prelude::*;

verus! {

/// One player's input for one emulator tick, as exchanged between peers.
pub struct Input {
    pub local_tick: u32,
    pub remote_tick: u32,
    pub joyflags: u16,
    pub custom_screen_state: u8,
    pub turn: Vec<u8>,
}

/// The mathematical value of an [`Input`].
pub struct InputView {
    pub local_tick: u32,
    pub remote_tick: u32,
    pub joyflags: u16,
    pub custom_screen_state: u8,
    pub turn: Seq<u8>,
}

impl View for Input {
    type V = InputView;

    open spec fn view(&self) -> InputView {
        InputView {
            local_tick: self.local_tick,
            remote_tick: self.remote_tick,
            joyflags: self.joyflags,
            custom_screen_state: self.custom_screen_state,
            turn: self.turn@,
        }
    }
}

/// Copies a byte vector element by element.
pub fn copy_bytes(v: &Vec<u8>) -> (res: Vec<u8>)
    ensures
        res@ == v@,
{
    let mut res: Vec<u8> = Vec::with_capacity(v.len());
    let mut i: usize = 0;
    while i < v.len()
        invariant
            i <= v.len(),
            res@ == v@.subrange(0, i as int),
        decreases v.len() - i,
    {
        res.push(v[i]);
        i = i + 1;
    }
    proof {
        assert(v@.subrange(0, v@.len() as int) =~= v@);
    }
    res
}

impl Clone for Input {
    fn clone(&self) -> (res: Self)
        ensures
            res@ == self@,
    {
        Input {
            local_tick: self.local_tick,
            remote_tick: self.remote_tick,
            joyflags: self.joyflags,
            custom_screen_state: self.custom_screen_state,
            turn: copy_bytes(&self.turn),
        }
    }
}

impl Input {
    /// An input with every field zero and no turn data.
    pub fn empty_at(local_tick: u32) -> (res: Input)
        ensures
            res.local_tick == local_tick,
            res.remote_tick == 0,
            res.joyflags == 0,
            res.custom_screen_state == 0,
            res.turn@ == Seq::<u8>::empty(),
    {
        Input { local_tick, remote_tick: 0, joyflags: 0, custom_screen_state: 0, turn: Vec::new() }
    }
}

/// A clone of an [`Input`] has the same value.
pub proof fn lemma_input_cloned_same_view(a: Input, b: Input)
    requires
        cloned::<Input>(a, b),
    ensures
        a@ == b@,
{
}

/// The local and the remote value for the same tick.
pub struct Pair<T> {
    pub local: T,
    pub remote: T,
}

impl<T: Clone> Clone for Pair<T> {
    fn clone(&self) -> (res: Self)
        ensures
            cloned::<T>(self.local, res.local),
            cloned::<T>(self.remote, res.remote),
    {
        Pair { local: self.local.clone(), remote: self.remote.clone() }
    }
}

/// Number of pairs that `consume_and_peek_local` commits: the local inputs that are older than
/// the local delay, as far as remote inputs for them have arrived.
pub open spec fn commit_count(local_len: nat, remote_len: nat, local_delay: nat) -> nat {
    if local_len <= local_delay {
        0
    } else if remote_len < local_len - local_delay {
        remote_len
    } else {
        (local_len - local_delay) as nat
    }
}

/// The count of committed pairs is the largest that both queues allow: it takes no local
/// input that is still within the local delay, needs a remote input for each pair, and
/// stops only where the remote inputs or the local inputs beyond the delay run out.
pub proof fn lemma_commit_count_is_largest_allowed(local_len: nat, remote_len: nat, local_delay: nat)
    ensures
        commit_count(local_len, remote_len, local_delay) <= remote_len,
        commit_count(local_len, remote_len, local_delay) > 0 ==> commit_count(
            local_len,
            remote_len,
            local_delay,
        ) + local_delay <= local_len,
        commit_count(local_len, remote_len, local_delay) == remote_len || commit_count(
            local_len,
            remote_len,
            local_delay,
        ) + local_delay >= local_len,
{
}

/// Number of local inputs that `consume_and_peek_local` hands back after committing.
pub open spec fn peek_count(local_len: nat, local_delay: nat) -> nat {
    if local_len <= local_delay {
        0
    } else {
        (local_len - local_delay) as nat
    }
}

/// Two bounded queues of inputs, one per player, delayed on the local side.
pub struct PairQueue<T> {
    max_length: usize,
    local: VecDeque<T>,
    remote: VecDeque<T>,
    local_delay: u32,
}

impl<T: Clone> PairQueue<T> {
    /// The inputs queued for the local player, oldest first.
    pub closed spec fn local_queue(&self) -> Seq<T> {
        self.local@
    }

    /// The inputs queued for the remote player, oldest first.
    pub closed spec fn remote_queue(&self) -> Seq<T> {
        self.remote@
    }

    /// The bound on the length of each queue.
    pub closed spec fn max_len(&self) -> nat {
        self.max_length as nat
    }

    /// The local input delay the queue was made with.
    pub closed spec fn delay(&self) -> u32 {
        self.local_delay
    }

    /// Neither queue holds more than the bound.
    pub open spec fn wf(&self) -> bool {
        &&& self.local_queue().len() <= self.max_len()
        &&& self.remote_queue().len() <= self.max_len()
    }

    pub fn new(max_length: usize, local_delay: u32) -> (res: Self)
        ensures
            res.wf(),
            res.local_queue() == Seq::<T>::empty(),
            res.remote_queue() == Seq::<T>::empty(),
            res.max_len() == max_length,
            res.delay() == local_delay,
    {
        PairQueue {
            max_length,
            local: VecDeque::with_capacity(max_length),
            remote: VecDeque::with_capacity(max_length),
            local_delay,
        }
    }

    /// Queues a local input; refuses it, leaving the queue as it was, when the local queue is
    /// full.
    pub fn add_local_input(&mut self, v: T) -> (accepted: bool)
        requires
            old(self).wf(),
        ensures
            final(self).wf(),
            accepted == (old(self).local_queue().len() < old(self).max_len()),
            accepted ==> final(self).local_queue() == old(self).local_queue().push(v),
            !accepted ==> final(self).local_queue() == old(self).local_queue(),
            final(self).remote_queue() == old(self).remote_queue(),
            final(self).max_len() == old(self).max_len(),
            final(self).delay() == old(self).delay(),
    {
        if self.local.len() >= self.max_length {
            return false;
        }
        self.local.push_back(v);
        true
    }

    /// Queues a remote input; refuses it, leaving the queue as it was, when the remote queue is
    /// full.
    pub fn add_remote_input(&mut self, v: T) -> (accepted: bool)
        requires
            old(self).wf(),
        ensures
            final(self).wf(),
            accepted == (old(self).remote_queue().len() < old(self).max_len()),
            accepted ==> final(self).remote_queue() == old(self).remote_queue().push(v),
            !accepted ==> final(self).remote_queue() == old(self).remote_queue(),
            final(self).local_queue() == old(self).local_queue(),
            final(self).max_len() == old(self).max_len(),
            final(self).delay() == old(self).delay(),
    {
        if self.remote.len() >= self.max_length {
            return false;
        }
        self.remote.push_back(v);
        true
    }

    pub fn local_delay(&self) -> (res: u32)
        ensures
            res == self.delay(),
    {
        self.local_delay
    }

    pub fn local_queue_length(&self) -> (res: usize)
        ensures
            res == self.local_queue().len(),
    {
        self.local.len()
    }

    pub fn remote_queue_length(&self) -> (res: usize)
        ensures
            res == self.remote_queue().len(),
    {
        self.remote.len()
    }

    /// Takes from the front of both queues the pairs that can be committed (see
    /// [`commit_count`]) and hands back copies of the local inputs that stay queued beyond the
    /// local delay.
    pub fn consume_and_peek_local(&mut self) -> (res: (Vec<Pair<T>>, Vec<T>))
        requires
            old(self).wf(),
        ensures
            final(self).wf(),
            ({
                let l = old(self).local_queue();
                let r = old(self).remote_queue();
                let c = commit_count(l.len(), r.len(), old(self).delay() as nat);
                &&& res.0@.len() == c
                &&& res.0@.len() <= r.len()
                &&& res.0@.len() > 0 ==> res.0@.len() + old(self).delay() <= l.len()
                &&& res.0@.len() == r.len() || res.0@.len() + old(self).delay() >= l.len()
                &&& forall|i: int|
                    0 <= i < c ==> #[trigger] res.0@[i].local == l[i] && res.0@[i].remote == r[i]
                &&& final(self).local_queue() == l.skip(c as int)
                &&& final(self).remote_queue() == r.skip(c as int)
                &&& res.1@.len() == peek_count(
                    final(self).local_queue().len(),
                    old(self).delay() as nat,
                )
                &&& forall|i: int|
                    0 <= i < res.1@.len() ==> cloned::<T>(
                        final(self).local_queue()[i],
                        #[trigger] res.1@[i],
                    )
            }),
            final(self).max_len() == old(self).max_len(),
            final(self).delay() == old(self).delay(),
    {
        let ghost l = self.local@;
        let ghost r = self.remote@;
        let delay = self.local_delay as usize;
        let n: usize = if self.local.len() <= delay {
            0
        } else if self.remote.len() < self.local.len() - delay {
            self.remote.len()
        } else {
            self.local.len() - delay
        };
        let mut to_commit: Vec<Pair<T>> = Vec::with_capacity(n);
        let mut k: usize = 0;
        while k < n
            invariant
                k <= n,
                n <= l.len(),
                n <= r.len(),
                n == commit_count(l.len(), r.len(), delay as nat),
                delay == self.local_delay,
                self.max_length == old(self).max_length,
                self.local_delay == old(self).local_delay,
                l == old(self).local@,
                r == old(self).remote@,
                l.len() <= self.max_length,
                r.len() <= self.max_length,
                self.local@ == l.skip(k as int),
                self.remote@ == r.skip(k as int),
                to_commit@.len() == k,
                forall|i: int|
                    0 <= i < k ==> #[trigger] to_commit@[i].local == l[i] && to_commit@[i].remote
                        == r[i],
            decreases n - k,
        {
            let ghost before_l = self.local@;
            let ghost before_r = self.remote@;
            let local = self.local.pop_front().unwrap();
            let remote = self.remote.pop_front().unwrap();
            proof {
                assert(local == l[k as int]);
                assert(remote == r[k as int]);
                assert(self.local@ =~= l.skip(k + 1));
                assert(self.remote@ =~= r.skip(k + 1));
            }
            to_commit.push(Pair { local, remote });
            k = k + 1;
        }
        let m: usize = if self.local.len() <= delay {
            0
        } else {
            self.local.len() - delay
        };
        let mut peeked: Vec<T> = Vec::with_capacity(m);
        let mut j: usize = 0;
        while j < m
            invariant
                j <= m,
                m <= self.local@.len(),
                self.max_length == old(self).max_length,
                self.local_delay == old(self).local_delay,
                self.local@.len() <= self.max_length,
                self.remote@.len() <= self.max_length,
                peeked@.len() == j,
                forall|i: int| 0 <= i < j ==> cloned::<T>(self.local@[i], #[trigger] peeked@[i]),
            decreases m - j,
        {
            let v = self.local[j].clone();
            peeked.push(v);
            j = j + 1;
        }
        proof {
            lemma_commit_count_is_largest_allowed(l.len(), r.len(), old(self).delay() as nat);
        }
        (to_commit, peeked)
    }
}

/// Whether queues hold what their history leaves: `al` and `ar` are every input each side
/// ever accepted, in order, and `committed` the pairs taken so far. Then the pairs taken
/// are the accepted inputs paired up in order, none twice and none lost, and each queue
/// holds the accepted inputs not yet taken.
pub open spec fn queues_follow_history<T>(
    local: Seq<T>,
    remote: Seq<T>,
    al: Seq<T>,
    ar: Seq<T>,
    committed: Seq<Pair<T>>,
) -> bool {
    let c = committed.len();
    &&& c <= al.len()
    &&& c <= ar.len()
    &&& local == al.skip(c as int)
    &&& remote == ar.skip(c as int)
    &&& forall|i: int| 0 <= i < c ==> #[trigger] committed[i] == Pair { local: al[i], remote: ar[i] }
}

/// Empty queues follow an empty history.
pub proof fn lemma_history_start<T>()
    ensures
        queues_follow_history(
            Seq::<T>::empty(),
            Seq::<T>::empty(),
            Seq::<T>::empty(),
            Seq::<T>::empty(),
            Seq::<Pair<T>>::empty(),
        ),
{
    assert(Seq::<T>::empty().skip(0) =~= Seq::<T>::empty());
}

/// Accepting a local input keeps the queues following their history, with the input
/// appended to the local side of it.
pub proof fn lemma_history_add_local<T>(
    local: Seq<T>,
    remote: Seq<T>,
    al: Seq<T>,
    ar: Seq<T>,
    committed: Seq<Pair<T>>,
    v: T,
)
    requires
        queues_follow_history(local, remote, al, ar, committed),
    ensures
        queues_follow_history(local.push(v), remote, al.push(v), ar, committed),
{
    let c = committed.len() as int;
    assert(al.push(v).skip(c) =~= al.skip(c).push(v));
    assert forall|i: int| 0 <= i < c implies #[trigger] committed[i] == Pair {
        local: al.push(v)[i],
        remote: ar[i],
    } by {
        assert(al.push(v)[i] == al[i]);
    }
}

/// Accepting a remote input keeps the queues following their history, with the input
/// appended to the remote side of it.
pub proof fn lemma_history_add_remote<T>(
    local: Seq<T>,
    remote: Seq<T>,
    al: Seq<T>,
    ar: Seq<T>,
    committed: Seq<Pair<T>>,
    v: T,
)
    requires
        queues_follow_history(local, remote, al, ar, committed),
    ensures
        queues_follow_history(local, remote.push(v), al, ar.push(v), committed),
{
    let c = committed.len() as int;
    assert(ar.push(v).skip(c) =~= ar.skip(c).push(v));
    assert forall|i: int| 0 <= i < c implies #[trigger] committed[i] == Pair {
        local: al[i],
        remote: ar.push(v)[i],
    } by {
        assert(ar.push(v)[i] == ar[i]);
    }
}

/// Taking the first `k` pairs from the fronts of both queues, as
/// [`PairQueue::consume_and_peek_local`] does, keeps the queues following their history,
/// with the pairs taken appended to the committed ones.
pub proof fn lemma_history_consume<T>(
    local: Seq<T>,
    remote: Seq<T>,
    al: Seq<T>,
    ar: Seq<T>,
    committed: Seq<Pair<T>>,
    taken: Seq<Pair<T>>,
)
    requires
        queues_follow_history(local, remote, al, ar, committed),
        taken.len() <= local.len(),
        taken.len() <= remote.len(),
        forall|i: int|
            0 <= i < taken.len() ==> #[trigger] taken[i].local == local[i] && taken[i].remote
                == remote[i],
    ensures
        queues_follow_history(
            local.skip(taken.len() as int),
            remote.skip(taken.len() as int),
            al,
            ar,
            committed + taken,
        ),
{
    let c = committed.len() as int;
    let k = taken.len() as int;
    assert(local.skip(k) =~= al.skip(c + k));
    assert(remote.skip(k) =~= ar.skip(c + k));
    assert forall|i: int| 0 <= i < c + k implies #[trigger] (committed + taken)[i] == Pair {
        local: al[i],
        remote: ar[i],
    } by {
        if i >= c {
            assert(taken[i - c].local == local[i - c]);
            assert(local[i - c] == al[i]);
            assert(remote[i - c] == ar[i]);
        }
    }
}

} // verus!
