use crate::bytes::{
    lemma_read_le16, lemma_read_le32, copy_range, get_le16, get_le32, le16, le32, push_all, push_le16, push_le32, read_le16, read_le32,
};
use crate::input::{Input, InputView, Pair};
pub mod legacy;

use vstd::prelude::*;

verus! {

/// The magic bytes a replay file starts with.
pub open spec fn header() -> Seq<u8> {
    seq![0x54u8, 0x4fu8, 0x4fu8, 0x54u8]
}

/// The format version written after the magic bytes.
pub const VERSION: u8 = 0x0a;

/// The compression level of the replay stream.
pub const COMPRESSION_LEVEL: i32 = 3;

/// The bytes that zstd's `encode_all` produces for `data` at `level`.
pub uninterp spec fn zstd_frame(data: Seq<u8>, level: i32) -> Seq<u8>;

/// How zstd's streaming decoder stops reading a frame: at its end, because the input ends
/// inside it, or on an error in the data.
#[derive(PartialEq, Eq, Structural)]
pub enum StreamEnd {
    Complete,
    Truncated,
    Failed,
}

/// What zstd's streaming decoder reads from `frame`: the bytes it hands out before it
/// stops, and how it stops.
pub uninterp spec fn zstd_stream(frame: Seq<u8>) -> (Seq<u8>, StreamEnd);

/// Calls `zstd::stream::encode_all` on the bytes, at a level zstd accepts. Claims: the
/// result is the frame that zstd produces for these bytes at this level, and zstd's
/// streaming decoder reads the bytes back from it and finds the frame complete (zstd is
/// lossless). Compressing from memory into memory reports an error only where zstd cannot
/// allocate its buffers; the call then panics, as an allocation that fails does.
#[verifier::external_body]
fn zstd_encode_all(data: &[u8], level: i32) -> (res: Vec<u8>)
    requires
        1 <= level <= 19,
    ensures
        res@ == zstd_frame(data@, level),
        zstd_stream(res@) == (data@, StreamEnd::Complete),
{
    zstd::stream::encode_all(data, level).unwrap()
}

/// Reads `frame` to its end through `zstd::stream::read::Decoder`: the bytes decoded before
/// the decoder stopped, and how it stopped (an `UnexpectedEof` error where the frame is
/// cut short, any other error where the data is bad or the decoder could not be made).
#[verifier::external_body]
fn zstd_read_stream(frame: &[u8]) -> (res: (Vec<u8>, StreamEnd))
    ensures
        (res.0@, res.1) == zstd_stream(frame@),
{
    let mut out: Vec<u8> = Vec::new();
    let end = match zstd::stream::read::Decoder::new(frame) {
        Ok(mut decoder) => match std::io::Read::read_to_end(&mut decoder, &mut out) {
            Ok(_) => StreamEnd::Complete,
            Err(e) if e.kind() == std::io::ErrorKind::UnexpectedEof => StreamEnd::Truncated,
            Err(_) => StreamEnd::Failed,
        },
        Err(_) => StreamEnd::Failed,
    };
    (out, end)
}

/// A `u32` length prefix for `n` bytes, as the writer stores it (the length modulo 2^32).
pub open spec fn len32(n: nat) -> u32 {
    (n % 0x1_0000_0000) as u32
}

/// The record the writer appends for a saved emulator state.
pub open spec fn state_record(state: Seq<u8>) -> Seq<u8> {
    le32(len32(state.len())) + state
}

/// The record the writer appends for one pair of inputs. Player 1 is the local player when
/// `local_player_index` is 0, the remote player otherwise; only the local input's ticks are
/// stored.
#[verifier::opaque]
pub open spec fn input_record(local_player_index: u8, local: InputView, remote: InputView) -> Seq<
    u8,
> {
    let (p1, p2) = if local_player_index == 0 {
        (local, remote)
    } else {
        (remote, local)
    };
    record_head(local, p1, p2) + p1.turn + le32(len32(p2.turn.len())) + p2.turn
}

/// The fixed-size start of an input record: ticks, both players' joyflags and custom screen
/// states, and the length of player 1's turn.
pub open spec fn record_head(local: InputView, p1: InputView, p2: InputView) -> Seq<u8> {
    le32(local.local_tick) + le32(local.remote_tick) + le16(p1.joyflags) + le16(p2.joyflags) + seq![
        p1.custom_screen_state,
        p2.custom_screen_state,
    ] + le32(len32(p1.turn.len()))
}

/// The pair of inputs that a reader gets back from one record: both players' inputs carry the
/// stored local tick, player 1's input the stored remote tick, player 2's input the local tick
/// again.
pub open spec fn replayed_pair(local_player_index: u8, local: InputView, remote: InputView) -> Pair<
    InputView,
> {
    let (p1, p2) = if local_player_index == 0 {
        (local, remote)
    } else {
        (remote, local)
    };
    let p1r = InputView {
        local_tick: local.local_tick,
        remote_tick: local.remote_tick,
        joyflags: p1.joyflags,
        custom_screen_state: p1.custom_screen_state,
        turn: p1.turn,
    };
    let p2r = InputView {
        local_tick: local.local_tick,
        remote_tick: local.local_tick,
        joyflags: p2.joyflags,
        custom_screen_state: p2.custom_screen_state,
        turn: p2.turn,
    };
    if local_player_index == 0 {
        Pair { local: p1r, remote: p2r }
    } else {
        Pair { local: p2r, remote: p1r }
    }
}

/// The value of a decoded replay.
pub struct ReplayView {
    pub local_player_index: u8,
    pub state: Seq<u8>,
    pub input_pairs: Seq<Pair<InputView>>,
}

/// One record at the start of `c`, and its length; `None` where `c` ends inside it.
pub open spec fn parse_record_at(c: Seq<u8>, local_player_index: u8) -> Option<
    (Pair<InputView>, int),
> {
    if c.len() < 18 {
        None
    } else {
        let local_tick = read_le32(c, 0);
        let remote_tick = read_le32(c, 4);
        let n1 = read_le32(c, 14) as int;
        let d = c.skip(18);
        if d.len() < n1 + 4 {
            None
        } else {
            let e = d.skip(n1);
            let n2 = read_le32(e, 0) as int;
            let f = e.skip(4);
            if f.len() < n2 {
                None
            } else {
                let p1 = InputView {
                    local_tick,
                    remote_tick,
                    joyflags: read_le16(c, 8),
                    custom_screen_state: c[12],
                    turn: d.take(n1),
                };
                let p2 = InputView {
                    local_tick,
                    remote_tick: local_tick,
                    joyflags: read_le16(c, 10),
                    custom_screen_state: c[13],
                    turn: f.take(n2),
                };
                let pair = if local_player_index == 0 {
                    Pair { local: p1, remote: p2 }
                } else {
                    Pair { local: p2, remote: p1 }
                };
                Some((pair, 22 + n1 + n2))
            }
        }
    }
}

/// One record starting at `pos`, and where the next one starts.
pub open spec fn parse_record(b: Seq<u8>, pos: int, local_player_index: u8) -> Option<
    (Pair<InputView>, int),
> {
    match parse_record_at(b.skip(pos), local_player_index) {
        None => None,
        Some((pair, n)) => Some((pair, pos + n)),
    }
}

/// The records from `pos` on. Reading stops without error where fewer than four bytes are
/// left at the start of a record, and fails where a record is cut short after that.
pub open spec fn parse_records(b: Seq<u8>, pos: int, local_player_index: u8) -> Option<
    Seq<Pair<InputView>>,
>
    decreases b.len() - pos,
{
    if pos < 0 || pos > b.len() {
        None
    } else if b.len() - pos < 4 {
        Some(Seq::empty())
    } else {
        match parse_record(b, pos, local_player_index) {
            None => None,
            Some((pair, next)) => if next <= pos {
                None
            } else {
                match parse_records(b, next, local_player_index) {
                    None => None,
                    Some(rest) => Some(seq![pair] + rest),
                }
            },
        }
    }
}

/// The decompressed part of a replay: the local player's index, the state record, the input
/// records.
pub open spec fn parse_payload(b: Seq<u8>) -> Option<ReplayView> {
    if b.len() < 5 {
        None
    } else {
        let n = read_le32(b, 1);
        if 5 + n > b.len() {
            None
        } else {
            match parse_records(b, 5 + n, b[0]) {
                None => None,
                Some(pairs) => Some(
                    ReplayView {
                        local_player_index: b[0],
                        state: b.subrange(5, 5 + n),
                        input_pairs: pairs,
                    },
                ),
            }
        }
    }
}

/// Why a replay could not be read.
#[derive(Debug, PartialEq, Eq, Structural)]
pub enum ReplayError {
    InvalidHeader,
    InvalidVersion,
    Decompression,
    UnexpectedEof,
}

/// What reading the bytes of a replay file gives. The compressed part is read through
/// zstd's streaming decoder: an error in its data fails the read, while a frame cut short
/// gives the records that were read before the cut (as a complete frame does).
pub open spec fn decode_file(b: Seq<u8>) -> Result<ReplayView, ReplayError> {
    if b.len() < 4 {
        Err(ReplayError::UnexpectedEof)
    } else if b.subrange(0, 4) != header() {
        Err(ReplayError::InvalidHeader)
    } else if b.len() < 5 {
        Err(ReplayError::UnexpectedEof)
    } else if b[4] != VERSION {
        Err(ReplayError::InvalidVersion)
    } else {
        let (payload, end) = zstd_stream(b.subrange(5, b.len() as int));
        if end == StreamEnd::Failed {
            Err(ReplayError::Decompression)
        } else {
            match parse_payload(payload) {
                None => Err(ReplayError::UnexpectedEof),
                Some(r) => Ok(r),
            }
        }
    }
}

/// The views of a sequence of input pairs.
pub open spec fn pair_views(ps: Seq<Pair<Input>>) -> Seq<Pair<InputView>> {
    ps.map_values(|p: Pair<Input>| Pair { local: p.local@, remote: p.remote@ })
}

/// A replay read back from a file.
pub struct Replay {
    pub local_player_index: u8,
    pub state: Vec<u8>,
    pub input_pairs: Vec<Pair<Input>>,
}

impl Replay {
    pub open spec fn view_of(&self) -> ReplayView {
        ReplayView {
            local_player_index: self.local_player_index,
            state: self.state@,
            input_pairs: pair_views(self.input_pairs@),
        }
    }

    /// Reads a replay from the bytes of a replay file.
    pub fn decode(b: &[u8]) -> (res: Result<Replay, ReplayError>)
        ensures
            match (res, decode_file(b@)) {
                (Ok(r), Ok(v)) => r.view_of() == v,
                (Err(e), Err(f)) => e == f,
                _ => false,
            },
    {
        if b.len() < 4 {
            return Err(ReplayError::UnexpectedEof);
        }
        if b[0] != 0x54 || b[1] != 0x4f || b[2] != 0x4f || b[3] != 0x54 {
            proof {
                assert(b@.subrange(0, 4)[0] == b@[0]);
                assert(b@.subrange(0, 4)[1] == b@[1]);
                assert(b@.subrange(0, 4)[2] == b@[2]);
                assert(b@.subrange(0, 4)[3] == b@[3]);
            }
            return Err(ReplayError::InvalidHeader);
        }
        proof {
            assert(b@.subrange(0, 4) =~= header());
        }
        if b.len() < 5 {
            return Err(ReplayError::UnexpectedEof);
        }
        if b[4] != VERSION {
            return Err(ReplayError::InvalidVersion);
        }
        let frame = copy_range(b, 5, b.len());
        let (payload, end) = zstd_read_stream(frame.as_slice());
        if end == StreamEnd::Failed {
            return Err(ReplayError::Decompression);
        }
        match decode_payload(payload.as_slice()) {
            None => Err(ReplayError::UnexpectedEof),
            Some(r) => Ok(r),
        }
    }
}

/// Reads one input record at `pos`.
fn decode_record(b: &[u8], pos: usize, local_player_index: u8) -> (res: Option<
    (Pair<Input>, usize),
>)
    requires
        pos <= b@.len(),
    ensures
        match (res, parse_record(b@, pos as int, local_player_index)) {
            (Some((p, next)), Some((v, vnext))) => p.local@ == v.local && p.remote@ == v.remote
                && next == vnext,
            (None, None) => true,
            _ => false,
        },
{
    let ghost c = b@.skip(pos as int);
    if b.len() - pos < 18 {
        return None;
    }
    let local_tick = get_le32(b, pos);
    let remote_tick = get_le32(b, pos + 4);
    let j1 = get_le16(b, pos + 8);
    let j2 = get_le16(b, pos + 10);
    let c1 = b[pos + 12];
    let c2 = b[pos + 13];
    let n1 = get_le32(b, pos + 14) as usize;
    proof {
        assert(read_le32(c, 0) == local_tick);
        assert(read_le32(c, 4) == remote_tick);
        assert(read_le16(c, 8) == j1);
        assert(read_le16(c, 10) == j2);
        assert(c[12] == c1);
        assert(c[13] == c2);
        assert(read_le32(c, 14) == n1);
    }
    let ghost d = c.skip(18);
    if b.len() - (pos + 18) < n1 || b.len() - (pos + 18) - n1 < 4 {
        return None;
    }
    let t1_end = pos + 18 + n1;
    let n2 = get_le32(b, t1_end) as usize;
    let ghost e = d.skip(n1 as int);
    let ghost f = e.skip(4);
    proof {
        assert(read_le32(e, 0) == n2);
    }
    if b.len() - (t1_end + 4) < n2 {
        return None;
    }
    let t2_end = t1_end + 4 + n2;
    let p1 = Input {
        local_tick,
        remote_tick,
        joyflags: j1,
        custom_screen_state: c1,
        turn: copy_range(b, pos + 18, t1_end),
    };
    let p2 = Input {
        local_tick,
        remote_tick: local_tick,
        joyflags: j2,
        custom_screen_state: c2,
        turn: copy_range(b, t1_end + 4, t2_end),
    };
    proof {
        assert(p1.turn@ =~= d.take(n1 as int));
        assert(p2.turn@ =~= f.take(n2 as int));
    }
    let pair = if local_player_index == 0 {
        Pair { local: p1, remote: p2 }
    } else {
        Pair { local: p2, remote: p1 }
    };
    Some((pair, t2_end))
}

/// Prepends `acc` to a successful parse.
pub open spec fn prepend_all(acc: Seq<Pair<InputView>>, o: Option<Seq<Pair<InputView>>>) -> Option<
    Seq<Pair<InputView>>,
> {
    match o {
        Some(r) => Some(acc + r),
        None => None,
    }
}

/// Reads the input records from `pos` on.
pub(crate) fn decode_records(b: &[u8], from: usize, local_player_index: u8) -> (res: Option<
    Vec<Pair<Input>>,
>)
    requires
        from <= b@.len(),
    ensures
        match (res, parse_records(b@, from as int, local_player_index)) {
            (Some(v), Some(p)) => pair_views(v@) == p,
            (None, None) => true,
            _ => false,
        },
{
    let mut pos = from;
    let mut pairs: Vec<Pair<Input>> = Vec::new();
    let ghost start = pos as int;
    while b.len() - pos >= 4
        invariant
            start <= pos <= b@.len(),
            start == from,
            parse_records(b@, start, local_player_index) == prepend_all(
                pair_views(pairs@),
                parse_records(b@, pos as int, local_player_index),
            ),
        decreases b@.len() - pos,
    {
        match decode_record(b, pos, local_player_index) {
            None => {
                proof {
                    assert(parse_records(b@, pos as int, local_player_index) is None);
                    assert(parse_records(b@, start, local_player_index) is None);
                }
                return None;
            },
            Some((pair, next)) => {
                let ghost pv = Pair { local: pair.local@, remote: pair.remote@ };
                let ghost old_pairs = pairs@;
                pairs.push(pair);
                proof {
                    assert(pair_views(pairs@) =~= pair_views(old_pairs).push(pv));
                    let r = parse_records(b@, next as int, local_player_index);
                    if let Some(rest) = r {
                        assert(pair_views(old_pairs) + (seq![pv] + rest) =~= pair_views(
                            old_pairs,
                        ).push(pv) + rest);
                    }
                }
                pos = next;
            },
        }
    }
    proof {
        assert(pair_views(pairs@) + Seq::<Pair<InputView>>::empty() =~= pair_views(pairs@));
        assert(parse_records(b@, start, local_player_index) == Some(pair_views(pairs@)));
    }
    Some(pairs)
}

/// Reads the decompressed part of a replay.
fn decode_payload(b: &[u8]) -> (res: Option<Replay>)
    ensures
        match (res, parse_payload(b@)) {
            (Some(r), Some(v)) => r.view_of() == v,
            (None, None) => true,
            _ => false,
        },
{
    if b.len() < 5 {
        return None;
    }
    let local_player_index = b[0];
    let n = get_le32(b, 1) as usize;
    if b.len() - 5 < n {
        return None;
    }
    let state = copy_range(b, 5, 5 + n);
    match decode_records(b, 5 + n, local_player_index) {
        None => None,
        Some(input_pairs) => Some(Replay { local_player_index, state, input_pairs }),
    }
}

/// The records the writer appends for a sequence of input pairs.
pub open spec fn input_records(local_player_index: u8, pairs: Seq<Pair<InputView>>) -> Seq<u8>
    decreases pairs.len(),
{
    if pairs.len() == 0 {
        Seq::empty()
    } else {
        input_record(local_player_index, pairs[0].local, pairs[0].remote) + input_records(
            local_player_index,
            pairs.drop_first(),
        )
    }
}

/// Appending one record to the records of a sequence gives the records of the longer
/// sequence.
pub proof fn lemma_input_records_push(
    local_player_index: u8,
    pairs: Seq<Pair<InputView>>,
    p: Pair<InputView>,
)
    ensures
        input_records(local_player_index, pairs.push(p)) == input_records(local_player_index, pairs)
            + input_record(local_player_index, p.local, p.remote),
    decreases pairs.len(),
{
    let rec = input_record(local_player_index, p.local, p.remote);
    if pairs.len() == 0 {
        assert(pairs.push(p).drop_first() =~= Seq::<Pair<InputView>>::empty());
        assert(input_records(local_player_index, pairs.push(p).drop_first()) =~= Seq::<u8>::empty());
        assert(rec + Seq::<u8>::empty() =~= rec);
        assert(input_records(local_player_index, pairs.push(p)) =~= rec);
        assert(input_records(local_player_index, pairs) =~= Seq::<u8>::empty());
        assert(Seq::<u8>::empty() + rec =~= rec);
    } else {
        assert(pairs.push(p).drop_first() =~= pairs.drop_first().push(p));
        lemma_input_records_push(local_player_index, pairs.drop_first(), p);
        let first = input_record(local_player_index, pairs[0].local, pairs[0].remote);
        assert(first + (input_records(local_player_index, pairs.drop_first()) + rec) =~= (first
            + input_records(local_player_index, pairs.drop_first())) + rec);
    }
}

/// What the reader gets back for a sequence of written input pairs.
pub open spec fn replayed_pairs(local_player_index: u8, pairs: Seq<Pair<InputView>>) -> Seq<
    Pair<InputView>,
> {
    pairs.map_values(|p: Pair<InputView>| replayed_pair(local_player_index, p.local, p.remote))
}

/// Each turn fits the writer's `u32` length prefix.
pub open spec fn turns_fit(pairs: Seq<Pair<InputView>>) -> bool {
    forall|i: int|
        0 <= i < pairs.len() ==> #[trigger] pairs[i].local.turn.len() < 0x1_0000_0000
            && pairs[i].remote.turn.len() < 0x1_0000_0000
}

#[verifier::rlimit(40)]
#[verifier::spinoff_prover]
proof fn lemma_record_fields(
    lpi: u8,
    local: InputView,
    remote: InputView,
    p1: InputView,
    p2: InputView,
    c: Seq<u8>,
    rest: Seq<u8>,
)
    requires
        local.turn.len() < 0x1_0000_0000,
        remote.turn.len() < 0x1_0000_0000,
        (p1, p2) == (if lpi == 0 {
            (local, remote)
        } else {
            (remote, local)
        }),
        c == input_record(lpi, local, remote) + rest,
    ensures
        c.len() >= 22 + p1.turn.len() + p2.turn.len(),
        read_le32(c, 0) == local.local_tick,
        read_le32(c, 4) == local.remote_tick,
        read_le16(c, 8) == p1.joyflags,
        read_le16(c, 10) == p2.joyflags,
        c[12] == p1.custom_screen_state,
        c[13] == p2.custom_screen_state,
        read_le32(c, 14) == p1.turn.len(),
        c.skip(18).take(p1.turn.len() as int) == p1.turn,
        read_le32(c.skip(18).skip(p1.turn.len() as int), 0) == p2.turn.len(),
        c.skip(18).skip(p1.turn.len() as int).skip(4).take(p2.turn.len() as int) == p2.turn,
        input_record(lpi, local, remote).len() == 22 + p1.turn.len() + p2.turn.len(),
{
    reveal(input_record);
    let n1 = p1.turn.len();
    let n2 = p2.turn.len();
    assert(len32(n1) == n1);
    assert(len32(n2) == n2);
    let head = record_head(local, p1, p2);
    assert(head.len() == 18);
    assert(c =~= head + (p1.turn + (le32(len32(n2)) + (p2.turn + rest))));
    assert(read_le32(c, 0) == local.local_tick) by {
        assert(c.subrange(0, 4) =~= le32(local.local_tick));
        lemma_read_le32(c, 0, local.local_tick);
    }
    assert(read_le32(c, 4) == local.remote_tick) by {
        assert(c.subrange(4, 8) =~= le32(local.remote_tick));
        lemma_read_le32(c, 4, local.remote_tick);
    }
    assert(read_le16(c, 8) == p1.joyflags) by {
        assert(c.subrange(8, 10) =~= le16(p1.joyflags));
        lemma_read_le16(c, 8, p1.joyflags);
    }
    assert(read_le16(c, 10) == p2.joyflags) by {
        assert(c.subrange(10, 12) =~= le16(p2.joyflags));
        lemma_read_le16(c, 10, p2.joyflags);
    }
    assert(c[12] == p1.custom_screen_state && c[13] == p2.custom_screen_state);
    assert(read_le32(c, 14) == n1) by {
        assert(c.subrange(14, 18) =~= le32(len32(n1)));
        lemma_read_le32(c, 14, len32(n1));
    }
    let d = c.skip(18);
    assert(d =~= p1.turn + (le32(len32(n2)) + (p2.turn + rest)));
    assert(d.take(n1 as int) =~= p1.turn);
    let e = d.skip(n1 as int);
    assert(e =~= le32(len32(n2)) + (p2.turn + rest));
    assert(read_le32(e, 0) == n2) by {
        assert(e.subrange(0, 4) =~= le32(len32(n2)));
        lemma_read_le32(e, 0, len32(n2));
    }
    let f = e.skip(4);
    assert(f =~= p2.turn + rest);
    assert(f.take(n2 as int) =~= p2.turn);
}

proof fn lemma_parse_one_record(
    pre: Seq<u8>,
    lpi: u8,
    local: InputView,
    remote: InputView,
    rest: Seq<u8>,
)
    requires
        local.turn.len() < 0x1_0000_0000,
        remote.turn.len() < 0x1_0000_0000,
    ensures
        parse_record(pre + input_record(lpi, local, remote) + rest, pre.len() as int, lpi) == Some(
            (
                replayed_pair(lpi, local, remote),
                pre.len() + input_record(lpi, local, remote).len() as int,
            ),
        ),
{
    let (p1, p2) = if lpi == 0 {
        (local, remote)
    } else {
        (remote, local)
    };
    let b = pre + input_record(lpi, local, remote) + rest;
    let c = b.skip(pre.len() as int);
    assert(c =~= input_record(lpi, local, remote) + rest);
    lemma_record_fields(lpi, local, remote, p1, p2, c, rest);
}

/// Reading input records that were written for `pairs`, with anything after them, gives
/// the replayed pairs followed by what reading from the end of those records gives.
#[verifier::rlimit(40)]
#[verifier::spinoff_prover]
pub proof fn lemma_parse_records_of(
    pre: Seq<u8>,
    lpi: u8,
    pairs: Seq<Pair<InputView>>,
    tail: Seq<u8>,
)
    requires
        turns_fit(pairs),
    ensures
        parse_records(pre + input_records(lpi, pairs) + tail, pre.len() as int, lpi) == prepend_all(
            replayed_pairs(lpi, pairs),
            parse_records(
                pre + input_records(lpi, pairs) + tail,
                (pre.len() + input_records(lpi, pairs).len()) as int,
                lpi,
            ),
        ),
    decreases pairs.len(),
{
    let b = pre + input_records(lpi, pairs) + tail;
    if pairs.len() == 0 {
        assert(replayed_pairs(lpi, pairs) =~= Seq::<Pair<InputView>>::empty());
        match parse_records(b, pre.len() as int, lpi) {
            Some(r) => {
                assert(Seq::<Pair<InputView>>::empty() + r =~= r);
            },
            None => {},
        }
    } else {
        let first = pairs[0];
        let rest_pairs = pairs.drop_first();
        let rec = input_record(lpi, first.local, first.remote);
        let tail_recs = input_records(lpi, rest_pairs);
        let rp = replayed_pair(lpi, first.local, first.remote);
        assert(turns_fit(rest_pairs)) by {
            assert forall|i: int| 0 <= i < rest_pairs.len() implies #[trigger] rest_pairs[i].local.turn.len()
                < 0x1_0000_0000 && rest_pairs[i].remote.turn.len() < 0x1_0000_0000 by {
                assert(rest_pairs[i] == pairs[i + 1]);
            }
        }
        assert(pairs[0].local.turn.len() < 0x1_0000_0000 && pairs[0].remote.turn.len()
            < 0x1_0000_0000);
        let pre2 = pre + rec;
        assert(parse_record(b, pre.len() as int, lpi) == Some((rp, pre2.len() as int))) by {
            assert(b =~= pre + rec + (tail_recs + tail));
            lemma_parse_one_record(pre, lpi, first.local, first.remote, tail_recs + tail);
        }
        let end: int = (pre.len() + input_records(lpi, pairs).len()) as int;
        assert(parse_records(b, pre2.len() as int, lpi) == prepend_all(
            replayed_pairs(lpi, rest_pairs),
            parse_records(b, end, lpi),
        )) by {
            assert(b =~= pre2 + tail_recs + tail);
            lemma_parse_records_of(pre2, lpi, rest_pairs, tail);
        }
        assert(replayed_pairs(lpi, pairs) =~= seq![rp] + replayed_pairs(lpi, rest_pairs));
        assert(rec.len() >= 22) by {
            assert(rec.len() == 22 + first.local.turn.len() + first.remote.turn.len()) by {
                let (p1, p2) = if lpi == 0 {
                    (first.local, first.remote)
                } else {
                    (first.remote, first.local)
                };
                lemma_record_fields(lpi, first.local, first.remote, p1, p2, rec, Seq::empty());
                assert(rec + Seq::<u8>::empty() =~= rec);
            }
        }
        match parse_records(b, end, lpi) {
            Some(r) => {
                assert(seq![rp] + (replayed_pairs(lpi, rest_pairs) + r) =~= replayed_pairs(lpi, pairs)
                    + r);
            },
            None => {},
        }
    }
}

/// Input records followed by a tail that holds no whole record: reading gives the written
/// pairs where fewer than four bytes follow them, and fails where four or more do.
pub proof fn lemma_records_then_cut_record(
    pre: Seq<u8>,
    lpi: u8,
    pairs: Seq<Pair<InputView>>,
    tail: Seq<u8>,
)
    requires
        turns_fit(pairs),
        parse_record_at(tail, lpi) is None,
    ensures
        tail.len() < 4 ==> parse_records(pre + input_records(lpi, pairs) + tail, pre.len() as int, lpi)
            == Some(replayed_pairs(lpi, pairs)),
        tail.len() >= 4 ==> parse_records(
            pre + input_records(lpi, pairs) + tail,
            pre.len() as int,
            lpi,
        ) is None,
{
    let b = pre + input_records(lpi, pairs) + tail;
    let end: int = (pre.len() + input_records(lpi, pairs).len()) as int;
    lemma_parse_records_of(pre, lpi, pairs, tail);
    assert(b.skip(end) =~= tail);
    assert(replayed_pairs(lpi, pairs) + Seq::<Pair<InputView>>::empty() =~= replayed_pairs(
        lpi,
        pairs,
    ));
}

/// Reading back the decompressed part of a replay gives the local player's index and the
/// state that were written, and each written pair of inputs as [`replayed_pair`] describes.
pub proof fn lemma_payload_roundtrip(lpi: u8, state: Seq<u8>, pairs: Seq<Pair<InputView>>)
    requires
        state.len() < 0x1_0000_0000,
        turns_fit(pairs),
    ensures
        parse_payload(seq![lpi] + state_record(state) + input_records(lpi, pairs)) == Some(
            ReplayView {
                local_player_index: lpi,
                state,
                input_pairs: replayed_pairs(lpi, pairs),
            },
        ),
{
    let pre = seq![lpi] + state_record(state);
    let b = pre + input_records(lpi, pairs);
    assert(len32(state.len()) == state.len());
    assert(b.subrange(1, 5) =~= le32(len32(state.len())));
    lemma_read_le32(b, 1, len32(state.len()));
    assert(b.subrange(5, 5 + state.len() as int) =~= state);
    assert(pre.len() == 5 + state.len());
    lemma_parse_records_of(pre, lpi, pairs, Seq::empty());
    assert(b + Seq::<u8>::empty() =~= b);
    assert(replayed_pairs(lpi, pairs) + Seq::<Pair<InputView>>::empty() =~= replayed_pairs(
        lpi,
        pairs,
    ));
}

/// A writer made for local player `lpi`, then given `state` and, in order, the pairs
/// `pairs` (each written with the same index), holds records that read back as that index,
/// that state and the pairs as [`replayed_pair`] describes; so the file that
/// [`Writer::finish`] makes decodes to them.
pub proof fn lemma_writer_reads_back(
    w: Writer,
    lpi: u8,
    state: Seq<u8>,
    pairs: Seq<Pair<InputView>>,
)
    requires
        w.payload() == seq![lpi] + state_record(state) + input_records(lpi, pairs),
        state.len() < 0x1_0000_0000,
        turns_fit(pairs),
    ensures
        parse_payload(w.payload()) == Some(
            ReplayView {
                local_player_index: lpi,
                state,
                input_pairs: replayed_pairs(lpi, pairs),
            },
        ),
{
    lemma_payload_roundtrip(lpi, state, pairs);
}

/// Builds a replay file: the writer keeps the uncompressed records and compresses them when
/// the file is finished.
pub struct Writer {
    payload: Vec<u8>,
}

impl Writer {
    /// The uncompressed bytes written so far.
    pub closed spec fn payload(&self) -> Seq<u8> {
        self.payload@
    }

    pub fn new(local_player_index: u8) -> (res: Writer)
        ensures
            res.payload() == seq![local_player_index],
    {
        let mut payload: Vec<u8> = Vec::new();
        payload.push(local_player_index);
        Writer { payload }
    }

    /// Appends a saved emulator state.
    pub fn write_state(&mut self, state: &[u8])
        ensures
            final(self).payload() == old(self).payload() + state_record(state@),
    {
        let n = (state.len() as u64 % 0x1_0000_0000u64) as u32;
        proof {
            assert(n == len32(state@.len()));
        }
        push_le32(&mut self.payload, n);
        push_all(&mut self.payload, state);
        proof {
            assert(self.payload@ =~= old(self).payload@ + state_record(state@));
        }
    }

    /// Appends a pair of inputs; the local player's index decides which input is player 1's.
    pub fn write_input(&mut self, local_player_index: u8, ip: &Pair<Input>)
        ensures
            final(self).payload() == old(self).payload() + input_record(
                local_player_index,
                ip.local@,
                ip.remote@,
            ),
    {
        let (p1, p2) = if local_player_index == 0 {
            (&ip.local, &ip.remote)
        } else {
            (&ip.remote, &ip.local)
        };
        let ghost start = self.payload@;
        proof {
            reveal(input_record);
        }
        push_le32(&mut self.payload, ip.local.local_tick);
        push_le32(&mut self.payload, ip.local.remote_tick);
        push_le16(&mut self.payload, p1.joyflags);
        push_le16(&mut self.payload, p2.joyflags);
        self.payload.push(p1.custom_screen_state);
        self.payload.push(p2.custom_screen_state);
        push_le32(&mut self.payload, (p1.turn.len() as u64 % 0x1_0000_0000u64) as u32);
        push_all(&mut self.payload, p1.turn.as_slice());
        push_le32(&mut self.payload, (p2.turn.len() as u64 % 0x1_0000_0000u64) as u32);
        push_all(&mut self.payload, p2.turn.as_slice());
        proof {
            assert(self.payload@ =~= start + input_record(
                local_player_index,
                ip.local@,
                ip.remote@,
            ));
        }
    }

    /// The bytes of the replay file: the magic bytes, the version and the compressed records.
    /// Reading the file back gives what reading the records gives.
    pub fn finish(&self) -> (res: Vec<u8>)
        ensures
            res@ == header() + seq![VERSION] + zstd_frame(self.payload(), COMPRESSION_LEVEL),
            decode_file(res@) == match parse_payload(self.payload()) {
                Some(r) => Ok::<ReplayView, ReplayError>(r),
                None => Err(ReplayError::UnexpectedEof),
            },
    {
        let frame = zstd_encode_all(self.payload.as_slice(), COMPRESSION_LEVEL);
        let mut out: Vec<u8> = Vec::new();
        out.push(0x54);
        out.push(0x4f);
        out.push(0x4f);
        out.push(0x54);
        out.push(VERSION);
        push_all(&mut out, frame.as_slice());
        proof {
            assert(out@ =~= header() + seq![VERSION] + frame@);
            assert(out@.subrange(0, 4) =~= header());
            assert(out@.subrange(5, out@.len() as int) =~= frame@);
        }
        out
    }
}

} // verus!
