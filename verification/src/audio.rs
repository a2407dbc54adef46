use vstd::prelude::*;

verus! {

/// A source of audio samples, such as an emulator's sound output.
pub trait Stream {
    /// What one fill of this stream may do: turn the buffer `before` into `after` and
    /// report `count` samples. A kind of stream that states nothing of its fills keeps
    /// this default, which allows any outcome.
    open spec fn filled(&self, before: Seq<i16>, after: Seq<i16>, count: usize) -> bool {
        true
    }

    /// Writes samples into `buf` and gives how many it wrote.
    fn fill(&self, buf: &mut [i16]) -> (res: usize)
        ensures
            self.filled(old(buf)@, final(buf)@, res),
    ;
}

/// A run of fills of the streams `streams` in the order `order`: `bufs[k]` is the buffer
/// that the `k`-th fill was handed and `bufs[k + 1]` what it left, `counts[k]` what that
/// fill reported.
pub open spec fn fill_chain<S: Stream>(
    streams: Seq<S>,
    order: Seq<usize>,
    bufs: Seq<Seq<i16>>,
    counts: Seq<usize>,
) -> bool {
    &&& bufs.len() == order.len() + 1
    &&& counts.len() == order.len()
    &&& forall|k: int|
        0 <= k < order.len() ==> #[trigger] streams[order[k] as int].filled(
            bufs[k],
            bufs[k + 1],
            counts[k],
        )
}

/// The order in which a mux of `n` streams, of which stream `selected` is heard, fills
/// them: every muted stream in order, then the heard one last, so that its samples are
/// what the buffer holds.
pub open spec fn fill_order(n: nat, selected: nat) -> Seq<usize> {
    Seq::new(
        n,
        |i: int|
            if i == n - 1 {
                selected as usize
            } else if i < selected {
                i as usize
            } else {
                (i + 1) as usize
            },
    )
}

/// Several audio streams of which one at a time is heard.
pub struct MuxStream<S> {
    streams: Vec<S>,
    index: usize,
}

/// Selects one stream of a [`MuxStream`].
#[derive(Clone, Copy)]
pub struct MuxHandle {
    index: usize,
}

impl MuxHandle {
    /// The stream this handle selects.
    pub closed spec fn spec_index(&self) -> usize {
        self.index
    }

    /// Makes the stream of this handle the one that is heard.
    pub fn switch<S>(&self, mux: &mut MuxStream<S>)
        ensures
            final(mux).selected() == self.spec_index(),
            final(mux).streams() == old(mux).streams(),
    {
        mux.index = self.index;
    }
}

impl<S> MuxStream<S> {
    /// The streams, in the order they were added.
    pub closed spec fn streams(&self) -> Seq<S> {
        self.streams@
    }

    /// The index of the stream that is heard.
    pub closed spec fn selected(&self) -> usize {
        self.index
    }

    /// No streams; the first one added is heard.
    pub fn new() -> (res: MuxStream<S>)
        ensures
            res.streams() == Seq::<S>::empty(),
            res.selected() == 0,
    {
        MuxStream { streams: Vec::new(), index: 0 }
    }

    /// Adds a stream and gives the handle that selects it.
    pub fn add(&mut self, stream: S) -> (res: MuxHandle)
        ensures
            final(self).streams() == old(self).streams().push(stream),
            final(self).selected() == old(self).selected(),
            res.spec_index() == old(self).streams().len(),
    {
        let index = self.streams.len();
        self.streams.push(stream);
        MuxHandle { index }
    }

    /// The index of the stream that is heard.
    pub fn selected_index(&self) -> (res: usize)
        ensures
            res == self.selected(),
    {
        self.index
    }
}

impl<S: Stream> MuxStream<S> {
    /// The indexes of the streams in the order [`MuxStream::fill`] fills them.
    pub fn fill_sequence(&self) -> (res: Vec<usize>)
        requires
            self.selected() < self.streams().len(),
        ensures
            res@ == fill_order(self.streams().len(), self.selected() as nat),
    {
        let n = self.streams.len();
        let mut order: Vec<usize> = Vec::new();
        let mut i: usize = 0;
        while i < n
            invariant
                i <= n,
                n == self.streams@.len(),
                self.index < n,
                order@.len() == if i <= self.index { i as int } else { i - 1 },
                forall|j: int|
                    0 <= j < order@.len() ==> #[trigger] order@[j] == if j < self.index {
                        j as usize
                    } else {
                        (j + 1) as usize
                    },
            decreases n - i,
        {
            if i != self.index {
                order.push(i);
            }
            i = i + 1;
        }
        order.push(self.index);
        proof {
            assert(order@ =~= fill_order(n as nat, self.index as nat));
        }
        order
    }

    /// Fills `buf` from every stream, the muted ones first and the heard one last, and
    /// gives the count that the heard stream reports. Each stream is handed the buffer
    /// that the fill before it left.
    pub fn fill(&self, buf: &mut [i16]) -> (res: usize)
        requires
            self.selected() < self.streams().len(),
        ensures
            exists|bufs: Seq<Seq<i16>>, counts: Seq<usize>|
                #[trigger] fill_chain(
                    self.streams(),
                    fill_order(self.streams().len(), self.selected() as nat),
                    bufs,
                    counts,
                ) && bufs[0] == old(buf)@ && bufs[self.streams().len() as int] == final(buf)@
                    && res == counts[self.streams().len() - 1] && self.streams()[self.selected() as int].filled(
                    bufs[self.streams().len() - 1],
                    final(buf)@,
                    res,
                ),
    {
        let order = self.fill_sequence();
        let mut last: usize = 0;
        let mut k: usize = 0;
        let ghost mut bufs: Seq<Seq<i16>> = seq![buf@];
        let ghost mut counts: Seq<usize> = Seq::empty();
        while k < order.len()
            invariant
                order@ == fill_order(self.streams().len(), self.selected() as nat),
                self.index < self.streams@.len(),
                k <= order@.len(),
                bufs.len() == k + 1,
                counts.len() == k,
                bufs[0] == old(buf)@,
                bufs[k as int] == buf@,
                k > 0 ==> last == counts[k - 1],
                forall|j: int|
                    0 <= j < k ==> #[trigger] self.streams@[order@[j] as int].filled(
                        bufs[j],
                        bufs[j + 1],
                        counts[j],
                    ),
            decreases order@.len() - k,
        {
            let i = order[k];
            last = self.streams[i].fill(buf);
            proof {
                bufs = bufs.push(buf@);
                counts = counts.push(last);
            }
            k = k + 1;
        }
        proof {
            let o = fill_order(self.streams().len(), self.selected() as nat);
            assert(fill_chain(self.streams(), o, bufs, counts));
            let n = self.streams@.len() as int;
            assert(o[n - 1] == self.index);
            assert(k == n);
            let j = n - 1;
            assert(0 <= j < k);
            assert(self.streams@[order@[j] as int].filled(bufs[j], bufs[j + 1], counts[j]));
            assert(j + 1 == n);
            assert(bufs[n] == buf@);
            assert(last == counts[n - 1]);
        }
        last
    }
}

} // verus!
