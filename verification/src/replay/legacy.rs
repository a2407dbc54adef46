use super::{
    decode_records, header, input_records, lemma_records_then_cut_record, len32, pair_views,
    parse_record_at, parse_records, replayed_pairs, state_record, turns_fit, ReplayError,
};
use crate::bytes::{copy_range, get_le32, lemma_read_le32, le32, read_le32};
use crate::input::{Input, InputView, Pair};
use vstd::prelude::*;

verus! {

/// The version of the uncompressed replay format that stores both players' inits.
pub const LEGACY_VERSION: u8 = 0x09;

/// The value of a replay in the uncompressed format.
pub struct LegacyReplayView {
    pub local_player_index: u8,
    pub p1_init: Seq<u8>,
    pub p2_init: Seq<u8>,
    pub state: Seq<u8>,
    pub input_pairs: Seq<Pair<InputView>>,
}

/// A block at `pos`: a tag byte, a little-endian `u32` length and that many bytes; the
/// tag, the bytes and where the block ends. `None` where `b` ends inside it.
pub open spec fn tagged_block_at(b: Seq<u8>, pos: int) -> Option<(u8, Seq<u8>, int)> {
    if pos < 0 || pos + 5 > b.len() {
        None
    } else {
        let n = read_le32(b, pos + 1) as int;
        if pos + 5 + n > b.len() {
            None
        } else {
            Some((b[pos], b.subrange(pos + 5, pos + 5 + n), pos + 5 + n))
        }
    }
}

/// Bytes at `pos` that a little-endian `u32` length precedes, and where they end.
pub open spec fn sized_at(b: Seq<u8>, pos: int) -> Option<(Seq<u8>, int)> {
    if pos < 0 || pos + 4 > b.len() {
        None
    } else {
        let n = read_le32(b, pos) as int;
        if pos + 4 + n > b.len() {
            None
        } else {
            Some((b.subrange(pos + 4, pos + 4 + n), pos + 4 + n))
        }
    }
}

/// Whether `b` starts with the magic bytes and the legacy version.
pub open spec fn legacy_prologue_ok(b: Seq<u8>) -> bool {
    b.len() >= 5 && b.subrange(0, 4) == header() && b[4] == LEGACY_VERSION
}

/// Whether reading `b` reaches an init block tagged with a player index other than 0
/// or 1, which has no slot to go in.
pub open spec fn bad_init_index(b: Seq<u8>) -> bool {
    legacy_prologue_ok(b) && match tagged_block_at(b, 5) {
        None => false,
        Some((i1, _x1, p1)) => i1 >= 2 || match tagged_block_at(b, p1) {
            None => false,
            Some((i2, _x2, _p2)) => i2 >= 2,
        },
    }
}

/// What reading an uncompressed replay gives: the magic bytes, the version, the two
/// players' init blocks (each stored under the player's index; an index given twice
/// keeps the later block and leaves the other init empty), the local player's index, the
/// state and the input records.
pub open spec fn parse_legacy(b: Seq<u8>) -> Result<LegacyReplayView, ReplayError> {
    if b.len() < 4 || b.subrange(0, 4) != header() {
        Err(ReplayError::InvalidHeader)
    } else if b.len() < 5 {
        Err(ReplayError::UnexpectedEof)
    } else if b[4] != LEGACY_VERSION {
        Err(ReplayError::InvalidVersion)
    } else {
        match tagged_block_at(b, 5) {
            None => Err(ReplayError::UnexpectedEof),
            Some((i1, x1, p1)) => match tagged_block_at(b, p1) {
                None => Err(ReplayError::UnexpectedEof),
                Some((i2, x2, p2)) => {
                    let inits = seq![Seq::<u8>::empty(), Seq::<u8>::empty()].update(
                        i1 as int,
                        x1,
                    ).update(i2 as int, x2);
                    if p2 >= b.len() {
                        Err(ReplayError::UnexpectedEof)
                    } else {
                        match sized_at(b, p2 + 1) {
                            None => Err(ReplayError::UnexpectedEof),
                            Some((state, p3)) => match parse_records(b, p3, b[p2]) {
                                None => Err(ReplayError::UnexpectedEof),
                                Some(pairs) => Ok(
                                    LegacyReplayView {
                                        local_player_index: b[p2],
                                        p1_init: inits[0],
                                        p2_init: inits[1],
                                        state,
                                        input_pairs: pairs,
                                    },
                                ),
                            },
                        }
                    }
                },
            },
        }
    }
}

/// The bytes of an uncompressed replay before its input records: the magic bytes, the
/// version, two init blocks tagged with the players' indexes, the local player's index
/// and the state, each block and the state preceded by its length.
pub open spec fn legacy_prologue(
    i1: u8,
    x1: Seq<u8>,
    i2: u8,
    x2: Seq<u8>,
    local_player_index: u8,
    state: Seq<u8>,
) -> Seq<u8> {
    header() + seq![LEGACY_VERSION] + seq![i1] + state_record(x1) + seq![i2] + state_record(x2)
        + seq![local_player_index] + state_record(state)
}

proof fn lemma_sized_block(pre: Seq<u8>, x: Seq<u8>, rest: Seq<u8>)
    requires
        x.len() < 0x1_0000_0000,
    ensures
        sized_at(pre + state_record(x) + rest, pre.len() as int) == Some(
            (x, (pre.len() + 4 + x.len()) as int),
        ),
{
    let b = pre + state_record(x) + rest;
    let p = pre.len() as int;
    assert(len32(x.len()) == x.len());
    assert(b.subrange(p, p + 4) =~= le32(len32(x.len())));
    lemma_read_le32(b, p, len32(x.len()));
    assert(b.subrange(p + 4, p + 4 + x.len()) =~= x);
}

proof fn lemma_tagged_block(pre: Seq<u8>, i: u8, x: Seq<u8>, rest: Seq<u8>)
    requires
        x.len() < 0x1_0000_0000,
    ensures
        tagged_block_at(pre + seq![i] + state_record(x) + rest, pre.len() as int) == Some(
            (i, x, (pre.len() + 5 + x.len()) as int),
        ),
{
    let b = pre + seq![i] + state_record(x) + rest;
    let p = pre.len() as int;
    lemma_sized_block(pre + seq![i], x, rest);
    assert(b =~= (pre + seq![i]) + state_record(x) + rest);
    assert(b[p] == i);
}

proof fn lemma_parse_legacy_steps(
    b: Seq<u8>,
    i1: u8,
    x1: Seq<u8>,
    p1: int,
    i2: u8,
    x2: Seq<u8>,
    p2: int,
    state: Seq<u8>,
    p3: int,
)
    requires
        b.len() >= 5,
        b.subrange(0, 4) == header(),
        b[4] == LEGACY_VERSION,
        tagged_block_at(b, 5) == Some((i1, x1, p1)),
        tagged_block_at(b, p1) == Some((i2, x2, p2)),
        p2 < b.len(),
        sized_at(b, p2 + 1) == Some((state, p3)),
    ensures
        parse_legacy(b) == match parse_records(b, p3, b[p2]) {
            None => Err(ReplayError::UnexpectedEof),
            Some(pairs) => Ok(
                LegacyReplayView {
                    local_player_index: b[p2],
                    p1_init: seq![Seq::<u8>::empty(), Seq::<u8>::empty()].update(i1 as int, x1).update(
                        i2 as int,
                        x2,
                    )[0],
                    p2_init: seq![Seq::<u8>::empty(), Seq::<u8>::empty()].update(i1 as int, x1).update(
                        i2 as int,
                        x2,
                    )[1],
                    state,
                    input_pairs: pairs,
                },
            ),
        },
{
}

/// An uncompressed replay whose input records are followed by a tail that holds no
/// whole record reads back as what was written where fewer than four bytes follow the
/// records (the tail is ignored), and fails with [`ReplayError::UnexpectedEof`] where
/// four or more do. Its init indexes are 0 or 1, so [`LegacyReplay::decode`] takes it.
#[verifier::rlimit(40)]
#[verifier::spinoff_prover]
pub proof fn lemma_legacy_records_then_tail(
    i1: u8,
    x1: Seq<u8>,
    i2: u8,
    x2: Seq<u8>,
    local_player_index: u8,
    state: Seq<u8>,
    pairs: Seq<Pair<InputView>>,
    tail: Seq<u8>,
)
    requires
        i1 < 2,
        i2 < 2,
        x1.len() < 0x1_0000_0000,
        x2.len() < 0x1_0000_0000,
        state.len() < 0x1_0000_0000,
        turns_fit(pairs),
        parse_record_at(tail, local_player_index) is None,
    ensures
        ({
            let b = legacy_prologue(i1, x1, i2, x2, local_player_index, state) + input_records(
                local_player_index,
                pairs,
            ) + tail;
            let inits = seq![Seq::<u8>::empty(), Seq::<u8>::empty()].update(i1 as int, x1).update(
                i2 as int,
                x2,
            );
            &&& !bad_init_index(b)
            &&& tail.len() < 4 ==> parse_legacy(b) == Ok::<LegacyReplayView, ReplayError>(
                LegacyReplayView {
                    local_player_index,
                    p1_init: inits[0],
                    p2_init: inits[1],
                    state,
                    input_pairs: replayed_pairs(local_player_index, pairs),
                },
            )
            &&& tail.len() >= 4 ==> parse_legacy(b) == Err::<LegacyReplayView, ReplayError>(
                ReplayError::UnexpectedEof,
            )
        }),
{
    let lpi = local_player_index;
    let recs = input_records(lpi, pairs);
    let pro = legacy_prologue(i1, x1, i2, x2, lpi, state);
    let b = pro + recs + tail;
    assert(b =~= pro + (recs + tail));
    lemma_prologue_blocks(i1, x1, i2, x2, lpi, state, recs + tail);
    let q1: int = (10 + x1.len()) as int;
    let q2: int = q1 + 5 + x2.len();
    lemma_parse_legacy_steps(b, i1, x1, q1, i2, x2, q2, state, pro.len() as int);
    lemma_records_then_cut_record(pro, lpi, pairs, tail);
}

/// Where the blocks of a legacy prologue lie, followed by anything.
#[verifier::rlimit(40)]
#[verifier::spinoff_prover]
proof fn lemma_prologue_blocks(
    i1: u8,
    x1: Seq<u8>,
    i2: u8,
    x2: Seq<u8>,
    lpi: u8,
    state: Seq<u8>,
    rest: Seq<u8>,
)
    requires
        x1.len() < 0x1_0000_0000,
        x2.len() < 0x1_0000_0000,
        state.len() < 0x1_0000_0000,
    ensures
        ({
            let b = legacy_prologue(i1, x1, i2, x2, lpi, state) + rest;
            let q1: int = (10 + x1.len()) as int;
            let q2: int = q1 + 5 + x2.len();
            &&& b.len() >= 5
            &&& b.subrange(0, 4) == header()
            &&& b[4] == LEGACY_VERSION
            &&& tagged_block_at(b, 5) == Some((i1, x1, q1 as int))
            &&& tagged_block_at(b, q1 as int) == Some((i2, x2, q2 as int))
            &&& q2 < b.len()
            &&& b[q2 as int] == lpi
            &&& sized_at(b, q2 + 1) == Some(
                (state, legacy_prologue(i1, x1, i2, x2, lpi, state).len() as int),
            )
        }),
{
    let pro = legacy_prologue(i1, x1, i2, x2, lpi, state);
    let b = pro + rest;
    let h = header() + seq![LEGACY_VERSION];
    let a1 = h + seq![i1] + state_record(x1);
    let a2 = a1 + seq![i2] + state_record(x2);
    let a3 = a2 + seq![lpi];
    let r1 = seq![i2] + state_record(x2) + seq![lpi] + state_record(state) + rest;
    let r2 = seq![lpi] + state_record(state) + rest;
    assert(b.subrange(0, 4) =~= header());
    assert(b[4] == LEGACY_VERSION);
    assert(h.len() == 5);
    assert(a1.len() == 10 + x1.len());
    assert(a2.len() == 15 + x1.len() + x2.len());
    assert(b.len() == a3.len() + 4 + state.len() + rest.len());
    assert(tagged_block_at(b, 5) == Some((i1, x1, a1.len() as int))) by {
        assert(b =~= h + seq![i1] + state_record(x1) + r1);
        lemma_tagged_block(h, i1, x1, r1);
    }
    assert(tagged_block_at(b, a1.len() as int) == Some((i2, x2, a2.len() as int))) by {
        assert(b =~= a1 + seq![i2] + state_record(x2) + r2);
        lemma_tagged_block(a1, i2, x2, r2);
    }
    assert(b[a2.len() as int] == lpi) by {
        assert(b =~= a2 + r2);
    }
    assert(sized_at(b, a3.len() as int) == Some((state, pro.len() as int))) by {
        assert(b =~= a3 + state_record(state) + rest);
        lemma_sized_block(a3, state, rest);
        assert(pro =~= a3 + state_record(state));
    }
}

/// A replay read from the uncompressed format.
pub struct LegacyReplay {
    pub local_player_index: u8,
    pub p1_init: Vec<u8>,
    pub p2_init: Vec<u8>,
    pub state: Vec<u8>,
    pub input_pairs: Vec<Pair<Input>>,
}

impl LegacyReplay {
    pub open spec fn view_of(&self) -> LegacyReplayView {
        LegacyReplayView {
            local_player_index: self.local_player_index,
            p1_init: self.p1_init@,
            p2_init: self.p2_init@,
            state: self.state@,
            input_pairs: pair_views(self.input_pairs@),
        }
    }

    /// Reads a replay in the uncompressed format.
    pub fn decode(b: &[u8]) -> (res: Result<LegacyReplay, ReplayError>)
        requires
            !bad_init_index(b@),
        ensures
            match (res, parse_legacy(b@)) {
                (Ok(r), Ok(v)) => r.view_of() == v,
                (Err(e), Err(f)) => e == f,
                _ => false,
            },
    {
        if b.len() < 4 || b[0] != 0x54 || b[1] != 0x4f || b[2] != 0x4f || b[3] != 0x54 {
            proof {
                if b@.len() >= 4 {
                    assert(b@.subrange(0, 4)[0] == b@[0]);
                    assert(b@.subrange(0, 4)[1] == b@[1]);
                    assert(b@.subrange(0, 4)[2] == b@[2]);
                    assert(b@.subrange(0, 4)[3] == b@[3]);
                }
            }
            return Err(ReplayError::InvalidHeader);
        }
        assert(b@.subrange(0, 4) =~= header());
        if b.len() < 5 {
            return Err(ReplayError::UnexpectedEof);
        }
        if b[4] != LEGACY_VERSION {
            return Err(ReplayError::InvalidVersion);
        }
        let mut p1_init: Vec<u8> = Vec::new();
        let mut p2_init: Vec<u8> = Vec::new();
        let mut pos: usize = 5;
        let mut k: usize = 0;
        while k < 2
            invariant
                k <= 2,
                5 <= pos <= b@.len(),
                legacy_prologue_ok(b@),
                !bad_init_index(b@),
                k == 0 ==> pos == 5 && p1_init@ == Seq::<u8>::empty() && p2_init@ == Seq::<
                    u8,
                >::empty(),
                k == 1 ==> (tagged_block_at(b@, 5) matches Some((i1, x1, q1)) && pos == q1
                    && i1 < 2 && seq![p1_init@, p2_init@] == seq![
                    Seq::<u8>::empty(),
                    Seq::<u8>::empty(),
                ].update(i1 as int, x1)),
                k == 2 ==> (tagged_block_at(b@, 5) matches Some((i1, x1, q1))
                    && tagged_block_at(b@, q1) matches Some((i2, x2, q2)) && pos == q2 && seq![
                    p1_init@,
                    p2_init@,
                ] == seq![Seq::<u8>::empty(), Seq::<u8>::empty()].update(i1 as int, x1).update(
                    i2 as int,
                    x2,
                )),
            decreases 2 - k,
        {
            if b.len() - pos < 5 {
                return Err(ReplayError::UnexpectedEof);
            }
            let index = b[pos];
            let n = get_le32(b, pos + 1) as usize;
            if b.len() - pos - 5 < n {
                return Err(ReplayError::UnexpectedEof);
            }
            let init = copy_range(b, pos + 5, pos + 5 + n);
            let ghost before = seq![p1_init@, p2_init@];
            if index == 0 {
                p1_init = init;
            } else {
                p2_init = init;
            }
            proof {
                assert(index < 2);
                assert(seq![p1_init@, p2_init@] =~= before.update(index as int, b@.subrange(
                    pos + 5,
                    pos + 5 + n,
                )));
            }
            pos = pos + 5 + n;
            k = k + 1;
        }
        if pos >= b.len() {
            return Err(ReplayError::UnexpectedEof);
        }
        let local_player_index = b[pos];
        let start = pos + 1;
        if b.len() - start < 4 {
            return Err(ReplayError::UnexpectedEof);
        }
        let n = get_le32(b, start) as usize;
        if b.len() - start - 4 < n {
            return Err(ReplayError::UnexpectedEof);
        }
        let state = copy_range(b, start + 4, start + 4 + n);
        match decode_records(b, start + 4 + n, local_player_index) {
            None => Err(ReplayError::UnexpectedEof),
            Some(input_pairs) => {
                proof {
                    let inits = seq![p1_init@, p2_init@];
                    assert(inits[0] == p1_init@);
                }
                Ok(LegacyReplay { local_player_index, p1_init, p2_init, state, input_pairs })
            },
        }
    }
}

/// Whether [`LegacyReplay::decode`] can take `b`: reading it does not reach an init block
/// tagged with a player index other than 0 or 1.
pub fn init_indices_valid(b: &[u8]) -> (res: bool)
    ensures
        res == !bad_init_index(b@),
{
    if b.len() < 5 || b[0] != 0x54 || b[1] != 0x4f || b[2] != 0x4f || b[3] != 0x54
        || b[4] != LEGACY_VERSION {
        proof {
            if b@.len() >= 5 && b@.subrange(0, 4) == header() {
                assert(b@.subrange(0, 4)[0] == b@[0]);
                assert(b@.subrange(0, 4)[1] == b@[1]);
                assert(b@.subrange(0, 4)[2] == b@[2]);
                assert(b@.subrange(0, 4)[3] == b@[3]);
            }
        }
        return true;
    }
    assert(b@.subrange(0, 4) =~= header());
    if b.len() - 5 < 5 {
        return true;
    }
    let n1 = get_le32(b, 6) as usize;
    if b.len() - 10 < n1 {
        return true;
    }
    if b[5] >= 2 {
        return false;
    }
    let p1 = 10 + n1;
    if b.len() - p1 < 5 {
        return true;
    }
    let n2 = get_le32(b, p1 + 1) as usize;
    if b.len() - p1 - 5 < n2 {
        return true;
    }
    b[p1] < 2
}

} // verus!
