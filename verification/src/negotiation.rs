use crate::battle::{local_index_for, BattleState};
use crate::protocol::{Hello, Hola, Packet, VERSION};
use crate::rng::{pcg_bool, pcg_from_seed, pcg_gen_bool, pcg_state, pcg_step, seeded_state};
use crate::signor::ConnectionSide;
use rand_pcg::Mcg128Xsl64;
use sha3::digest::ExtendableOutput;
use subtle::ConstantTimeEq;
use vstd::prelude::*;
use vstd::utf8::{encode_utf8, encode_utf8_valid_utf8, is_char_boundary};

verus! {

/// Length in bytes of a nonce and of the random seed made from two nonces.
pub const NONCE_LEN: usize = 16;

/// Length in bytes of a commitment to a nonce.
pub const COMMITMENT_LEN: usize = 32;

/// Number of leading bytes of the game titles that must agree.
pub const TITLE_PREFIX_LEN: usize = 8;

/// The first `len` bytes that SHAKE128 squeezes out after absorbing `message`.
pub uninterp spec fn shake128(message: Seq<u8>, len: nat) -> Seq<u8>;

/// `sha3::Shake128::digest_xof` (`digest::ExtendableOutput`), squeezing 32 bytes: a fresh
/// hasher absorbs `message` and fills the 32-byte output from its reader.
#[verifier::external_body]
fn shake128_32(message: &[u8]) -> (res: Vec<u8>)
    ensures
        res@ == shake128(message@, 32),
        res@.len() == 32,
{
    let mut out = [0u8; 32];
    sha3::Shake128::digest_xof(message, &mut out);
    out.to_vec()
}

/// `subtle::ConstantTimeEq::ct_eq` on byte slices, as a `bool`: true exactly when the
/// slices have the same length and the same bytes.
#[verifier::external_body]
fn ct_eq_bytes(a: &[u8], b: &[u8]) -> (res: bool)
    ensures
        res == (a@ == b@),
{
    bool::from(a.ct_eq(b))
}

/// The domain prefix that a nonce is hashed under.
pub open spec fn commitment_prefix() -> Seq<u8> {
    seq![
        0x73u8, 0x79, 0x6e, 0x63, 0x72, 0x61, 0x6e, 0x64, 0x3a, 0x6e, 0x6f, 0x6e, 0x63, 0x65,
        0x3a,
    ]
}

/// The commitment to `nonce`: 32 bytes of SHAKE128 over `syncrand:nonce:` and the nonce.
pub open spec fn commitment_of(nonce: Seq<u8>) -> Seq<u8> {
    shake128(commitment_prefix() + nonce, 32)
}

/// Commits to `nonce` without revealing it.
pub fn make_rng_commitment(nonce: &[u8]) -> (res: Vec<u8>)
    ensures
        res@ == commitment_of(nonce@),
        res@.len() == COMMITMENT_LEN,
{
    let prefix: [u8; 15] = [
        0x73, 0x79, 0x6e, 0x63, 0x72, 0x61, 0x6e, 0x64, 0x3a, 0x6e, 0x6f, 0x6e, 0x63, 0x65, 0x3a,
    ];
    let mut message: Vec<u8> = Vec::new();
    let mut i: usize = 0;
    while i < 15
        invariant
            i <= 15,
            prefix@ == commitment_prefix(),
            message@ == commitment_prefix().subrange(0, i as int),
        decreases 15 - i,
    {
        message.push(prefix[i]);
        i = i + 1;
    }
    let mut j: usize = 0;
    while j < nonce.len()
        invariant
            j <= nonce@.len(),
            message@ == commitment_prefix() + nonce@.subrange(0, j as int),
        decreases nonce@.len() - j,
    {
        message.push(nonce[j]);
        j = j + 1;
    }
    assert(nonce@.subrange(0, nonce@.len() as int) =~= nonce@);
    shake128_32(message.as_slice())
}

/// Why a negotiation with a peer ended without a match.
pub enum NegotiationError {
    ExpectedHello,
    ExpectedHola,
    IdenticalCommitment,
    ProtocolVersionMismatch,
    MatchTypeMismatch,
    GameMismatch,
    InvalidCommitment,
    Other(String),
}

impl NegotiationError {
    /// How the error is reported; an `Other` error is reported with its message after
    /// this text.
    pub fn description(&self) -> (res: &'static str)
        ensures
            res@ == match *self {
                NegotiationError::ExpectedHello => "expected hello"@,
                NegotiationError::ExpectedHola => "expected hola"@,
                NegotiationError::IdenticalCommitment => "identical commitment"@,
                NegotiationError::ProtocolVersionMismatch => "protocol version mismatch"@,
                NegotiationError::MatchTypeMismatch => "match type mismatch"@,
                NegotiationError::GameMismatch => "game mismatch"@,
                NegotiationError::InvalidCommitment => "invalid commitment"@,
                NegotiationError::Other(_) => "other error"@,
            },
    {
        match self {
            NegotiationError::ExpectedHello => "expected hello",
            NegotiationError::ExpectedHola => "expected hola",
            NegotiationError::IdenticalCommitment => "identical commitment",
            NegotiationError::ProtocolVersionMismatch => "protocol version mismatch",
            NegotiationError::MatchTypeMismatch => "match type mismatch",
            NegotiationError::GameMismatch => "game mismatch",
            NegotiationError::InvalidCommitment => "invalid commitment",
            NegotiationError::Other(_) => "other error",
        }
    }
}

/// What a failed negotiation is reported as.
#[derive(PartialEq, Eq, Structural)]
pub enum NegotiationFailure {
    ProtocolVersionMismatch,
    MatchTypeMismatch,
    GameMismatch,
    Unknown,
}

/// How far a negotiation that is not done has come.
#[derive(Clone, Copy, PartialEq, Eq, Structural)]
pub enum NegotiationProgress {
    NotStarted,
    Signalling,
    Handshaking,
}

/// What the game is told of a negotiation.
#[derive(PartialEq, Eq, Structural)]
pub enum NegotiationStatus {
    Ready,
    NotReady(NegotiationProgress),
    Failed(NegotiationFailure),
}

/// Where a negotiation stands.
pub enum Negotiation {
    NotReady(NegotiationProgress),
    Negotiated { rng: Mcg128Xsl64 },
    Failed(NegotiationError),
}

impl Negotiation {
    /// The match's generator, once the negotiation succeeded: a borrow of the stored
    /// generator itself, through which draws advance the negotiation's generator.
    pub fn rng(&mut self) -> (res: Option<&mut Mcg128Xsl64>)
        ensures
            (res is Some) == (*old(self) is Negotiated),
            match *old(self) {
                Negotiation::Negotiated { rng } => res matches Some(r) && *r == rng
                    && *final(self) == (Negotiation::Negotiated { rng: *final(r) }),
                _ => *final(self) == *old(self),
            },
    {
        match self {
            Negotiation::Negotiated { rng } => Some(rng),
            _ => None,
        }
    }
}

/// The status reported for a negotiation.
pub open spec fn status_of(n: Negotiation) -> NegotiationStatus {
    match n {
        Negotiation::Negotiated { .. } => NegotiationStatus::Ready,
        Negotiation::NotReady(p) => NegotiationStatus::NotReady(p),
        Negotiation::Failed(NegotiationError::GameMismatch) => NegotiationStatus::Failed(
            NegotiationFailure::GameMismatch,
        ),
        Negotiation::Failed(NegotiationError::MatchTypeMismatch) => NegotiationStatus::Failed(
            NegotiationFailure::MatchTypeMismatch,
        ),
        Negotiation::Failed(NegotiationError::ProtocolVersionMismatch) => NegotiationStatus::Failed(
            NegotiationFailure::ProtocolVersionMismatch,
        ),
        Negotiation::Failed(_) => NegotiationStatus::Failed(NegotiationFailure::Unknown),
    }
}

/// Whether the negotiation is ready, still going, or why it failed.
pub fn poll_for_ready(negotiation: &Negotiation) -> (res: NegotiationStatus)
    ensures
        res == status_of(*negotiation),
{
    match negotiation {
        Negotiation::Negotiated { .. } => NegotiationStatus::Ready,
        Negotiation::NotReady(p) => NegotiationStatus::NotReady(*p),
        Negotiation::Failed(NegotiationError::GameMismatch) => NegotiationStatus::Failed(
            NegotiationFailure::GameMismatch,
        ),
        Negotiation::Failed(NegotiationError::MatchTypeMismatch) => NegotiationStatus::Failed(
            NegotiationFailure::MatchTypeMismatch,
        ),
        Negotiation::Failed(NegotiationError::ProtocolVersionMismatch) => NegotiationStatus::Failed(
            NegotiationFailure::ProtocolVersionMismatch,
        ),
        Negotiation::Failed(_) => NegotiationStatus::Failed(NegotiationFailure::Unknown),
    }
}

/// The UTF-8 bytes of a string.
pub open spec fn utf8_of(s: String) -> Seq<u8> {
    encode_utf8(s@)
}

/// Whether the game titles can be compared on their first eight bytes: both are that
/// long, and neither has a character straddling the cut.
pub open spec fn titles_comparable(ours: String, theirs: String) -> bool {
    &&& is_char_boundary(utf8_of(ours), TITLE_PREFIX_LEN as int)
    &&& is_char_boundary(utf8_of(theirs), TITLE_PREFIX_LEN as int)
}

/// Whether two game titles name the same game: their first eight bytes agree.
pub open spec fn same_game(ours: String, theirs: String) -> bool {
    utf8_of(ours).subrange(0, TITLE_PREFIX_LEN as int) == utf8_of(theirs).subrange(
        0,
        TITLE_PREFIX_LEN as int,
    )
}

/// The first check of the peer's hello that fails, in the order they are made; none if
/// the hello is acceptable.
pub open spec fn hello_error(
    commitment: Seq<u8>,
    match_type: u16,
    game_title: String,
    hello: Hello,
) -> Option<NegotiationError> {
    if commitment == hello.rng_commitment@ {
        Some(NegotiationError::IdenticalCommitment)
    } else if hello.protocol_version != VERSION {
        Some(NegotiationError::ProtocolVersionMismatch)
    } else if hello.match_type != match_type {
        Some(NegotiationError::MatchTypeMismatch)
    } else if !same_game(game_title, hello.game_title) {
        Some(NegotiationError::GameMismatch)
    } else {
        None
    }
}

/// Whether the checks of the peer's hello reach the comparison of the game titles.
pub open spec fn reaches_title_check(commitment: Seq<u8>, match_type: u16, hello: Hello) -> bool {
    commitment != hello.rng_commitment@ && hello.protocol_version == VERSION && hello.match_type
        == match_type
}

/// Two titles that can be compared each take at least eight bytes.
pub proof fn lemma_comparable_titles_have_eight_bytes(ours: String, theirs: String)
    requires
        titles_comparable(ours, theirs),
    ensures
        utf8_of(ours).len() >= 8,
        utf8_of(theirs).len() >= 8,
{
    encode_utf8_valid_utf8(ours@);
    encode_utf8_valid_utf8(theirs@);
}

/// Two titles name the same game exactly when each of their first eight bytes agree.
pub proof fn lemma_same_game_compares_first_eight_bytes(ours: String, theirs: String)
    requires
        utf8_of(ours).len() >= 8,
        utf8_of(theirs).len() >= 8,
    ensures
        same_game(ours, theirs) <==> (forall|i: int|
            0 <= i < 8 ==> #[trigger] utf8_of(ours)[i] == utf8_of(theirs)[i]),
{
    let a = utf8_of(ours);
    let b = utf8_of(theirs);
    if same_game(ours, theirs) {
        assert forall|i: int| 0 <= i < 8 implies #[trigger] a[i] == b[i] by {
            assert(a.subrange(0, 8)[i] == b.subrange(0, 8)[i]);
        }
    }
    if forall|i: int| 0 <= i < 8 ==> #[trigger] a[i] == b[i] {
        assert(a.subrange(0, 8) =~= b.subrange(0, 8));
    }
}

/// A hello whose checks reach the game titles is refused for a game mismatch exactly when
/// the titles differ somewhere in their first eight bytes; an accepted hello names a game
/// whose first eight title bytes are ours.
pub proof fn lemma_hello_accepts_only_the_same_game(
    commitment: Seq<u8>,
    match_type: u16,
    game_title: String,
    hello: Hello,
)
    requires
        reaches_title_check(commitment, match_type, hello) ==> titles_comparable(
            game_title,
            hello.game_title,
        ),
    ensures
        hello_error(commitment, match_type, game_title, hello) is None ==> forall|i: int|
            0 <= i < 8 ==> #[trigger] utf8_of(game_title)[i] == utf8_of(hello.game_title)[i],
        reaches_title_check(commitment, match_type, hello) ==> ((exists|i: int|
            0 <= i < 8 && #[trigger] utf8_of(game_title)[i] != utf8_of(hello.game_title)[i])
            <==> hello_error(commitment, match_type, game_title, hello) == Some(
            NegotiationError::GameMismatch,
        )),
{
    if reaches_title_check(commitment, match_type, hello) {
        lemma_comparable_titles_have_eight_bytes(game_title, hello.game_title);
        lemma_same_game_compares_first_eight_bytes(game_title, hello.game_title);
    }
}

proof fn lemma_packet_hello_accepts_only_the_same_game(
    commitment: Seq<u8>,
    match_type: u16,
    game_title: String,
    packet: Option<Packet>,
)
    requires
        packet matches Some(Packet::Hello(h)) ==> (reaches_title_check(commitment, match_type, h)
            ==> titles_comparable(game_title, h.game_title)),
    ensures
        packet matches Some(Packet::Hello(h)) ==> {
            &&& hello_error(commitment, match_type, game_title, h) is None ==> forall|i: int|
                0 <= i < 8 ==> #[trigger] utf8_of(game_title)[i] == utf8_of(h.game_title)[i]
            &&& reaches_title_check(commitment, match_type, h) ==> ((exists|i: int|
                0 <= i < 8 && #[trigger] utf8_of(game_title)[i] != utf8_of(h.game_title)[i])
                <==> hello_error(commitment, match_type, game_title, h) == Some(
                NegotiationError::GameMismatch,
            ))
        },
{
    match packet {
        Some(Packet::Hello(h)) => {
            lemma_hello_accepts_only_the_same_game(commitment, match_type, game_title, h);
        },
        _ => {},
    }
}

/// The seed both peers derive: the bytes of the two nonces XORed pairwise, as far as
/// both reach.
pub open spec fn seed_of(theirs: Seq<u8>, ours: Seq<u8>) -> Seq<u8> {
    let n = if theirs.len() < ours.len() {
        theirs.len()
    } else {
        ours.len()
    };
    Seq::new(n, |i: int| theirs[i] ^ ours[i])
}

/// XOR of the two nonces, pairwise, as far as both reach.
pub fn xor_seed(theirs: &[u8], ours: &[u8]) -> (res: Vec<u8>)
    ensures
        res@ == seed_of(theirs@, ours@),
{
    let n = if theirs.len() < ours.len() {
        theirs.len()
    } else {
        ours.len()
    };
    let mut seed: Vec<u8> = Vec::with_capacity(n);
    let mut i: usize = 0;
    while i < n
        invariant
            i <= n,
            n == (if theirs@.len() < ours@.len() {
                theirs@.len()
            } else {
                ours@.len()
            }),
            seed@ == seed_of(theirs@, ours@).subrange(0, i as int),
        decreases n - i,
    {
        seed.push(theirs[i] ^ ours[i]);
        i = i + 1;
        assert(seed@ =~= seed_of(theirs@, ours@).subrange(0, i as int));
    }
    assert(seed@ =~= seed_of(theirs@, ours@));
    seed
}

/// Both peers derive the same seed: XOR does not care which nonce is whose.
pub proof fn lemma_seed_symmetric(a: Seq<u8>, b: Seq<u8>)
    ensures
        seed_of(a, b) == seed_of(b, a),
{
    assert forall|i: int| 0 <= i < seed_of(a, b).len() implies seed_of(a, b)[i] == seed_of(
        b,
        a,
    )[i] by {
        let x = a[i];
        let y = b[i];
        assert(x ^ y == y ^ x) by (bit_vector);
    }
    assert(seed_of(a, b) =~= seed_of(b, a));
}

/// One side of the commit-and-reveal handshake that peers run before a match: each
/// commits to a random nonce in its hello, then reveals it in its hola, and both seed
/// their generator from the two nonces.
pub struct Handshake {
    nonce: Vec<u8>,
    commitment: Vec<u8>,
    game_title: String,
    game_crc32: u32,
    match_type: u16,
}

impl Handshake {
    pub closed spec fn spec_nonce(&self) -> Seq<u8> {
        self.nonce@
    }

    pub closed spec fn spec_commitment(&self) -> Seq<u8> {
        self.commitment@
    }

    pub closed spec fn spec_game_title(&self) -> String {
        self.game_title
    }

    pub closed spec fn spec_game_crc32(&self) -> u32 {
        self.game_crc32
    }

    pub closed spec fn spec_match_type(&self) -> u16 {
        self.match_type
    }

    /// A handshake that commits to `nonce` for a match of `match_type` in the given game.
    pub fn new(nonce: Vec<u8>, game_title: String, game_crc32: u32, match_type: u16) -> (res:
        Handshake)
        ensures
            res.spec_nonce() == nonce@,
            res.spec_commitment() == commitment_of(nonce@),
            res.spec_game_title() == game_title,
            res.spec_game_crc32() == game_crc32,
            res.spec_match_type() == match_type,
    {
        let commitment = make_rng_commitment(nonce.as_slice());
        Handshake { nonce, commitment, game_title, game_crc32, match_type }
    }

    /// The hello that this side sends first.
    pub fn hello(&self) -> (res: Packet)
        ensures
            res matches Packet::Hello(h) && h.protocol_version == VERSION && h.game_title
                == self.spec_game_title() && h.game_crc32 == self.spec_game_crc32() && h.match_type
                == self.spec_match_type() && h.rng_commitment@ == self.spec_commitment(),
    {
        Packet::Hello(
            Hello {
                protocol_version: VERSION,
                game_title: self.game_title.clone(),
                game_crc32: self.game_crc32,
                match_type: self.match_type,
                rng_commitment: crate::input::copy_bytes(&self.commitment),
            },
        )
    }

    /// Checks what the peer sent first (`None` where nothing arrived or it did not
    /// decode): it must be a hello, with another commitment than ours, the same protocol
    /// version and match type, and a game title that agrees with ours in its first eight
    /// bytes.
    pub fn receive_hello(&self, packet: Option<Packet>) -> (res: Result<Hello, NegotiationError>)
        requires
            packet matches Some(Packet::Hello(h)) ==> (reaches_title_check(
                self.spec_commitment(),
                self.spec_match_type(),
                h,
            ) ==> titles_comparable(self.spec_game_title(), h.game_title)),
        ensures
            match packet {
                Some(Packet::Hello(h)) => match hello_error(
                    self.spec_commitment(),
                    self.spec_match_type(),
                    self.spec_game_title(),
                    h,
                ) {
                    Some(e) => res == Err::<Hello, NegotiationError>(e),
                    None => res == Ok::<Hello, NegotiationError>(h),
                },
                _ => res == Err::<Hello, NegotiationError>(NegotiationError::ExpectedHello),
            },
            packet matches Some(Packet::Hello(h)) ==> (res is Ok ==> forall|i: int|
                0 <= i < 8 ==> #[trigger] utf8_of(self.spec_game_title())[i] == utf8_of(
                    h.game_title,
                )[i]),
            packet matches Some(Packet::Hello(h)) ==> ((reaches_title_check(
                self.spec_commitment(),
                self.spec_match_type(),
                h,
            ) && exists|i: int|
                0 <= i < 8 && #[trigger] utf8_of(self.spec_game_title())[i] != utf8_of(
                    h.game_title,
                )[i]) ==> res == Err::<Hello, NegotiationError>(NegotiationError::GameMismatch)),
    {
        proof {
            lemma_packet_hello_accepts_only_the_same_game(
                self.spec_commitment(),
                self.spec_match_type(),
                self.spec_game_title(),
                packet,
            );
        }
        let hello = match packet {
            Some(Packet::Hello(hello)) => hello,
            _ => {
                return Err(NegotiationError::ExpectedHello);
            },
        };
        if ct_eq_bytes(self.commitment.as_slice(), hello.rng_commitment.as_slice()) {
            return Err(NegotiationError::IdenticalCommitment);
        }
        if hello.protocol_version != VERSION {
            return Err(NegotiationError::ProtocolVersionMismatch);
        }
        if hello.match_type != self.match_type {
            return Err(NegotiationError::MatchTypeMismatch);
        }
        let theirs = hello.game_title.as_str().as_bytes();
        let ours = self.game_title.as_str().as_bytes();
        proof {
            vstd::utf8::encode_utf8_valid_utf8(hello.game_title@);
            vstd::utf8::encode_utf8_valid_utf8(self.game_title@);
        }
        let mut k: usize = 0;
        let mut same = true;
        while k < TITLE_PREFIX_LEN
            invariant
                k <= TITLE_PREFIX_LEN,
                theirs@.len() >= TITLE_PREFIX_LEN,
                ours@.len() >= TITLE_PREFIX_LEN,
                same <==> (ours@.subrange(0, k as int) =~= theirs@.subrange(0, k as int)),
            decreases TITLE_PREFIX_LEN - k,
        {
            if theirs[k] != ours[k] {
                same = false;
            }
            proof {
                let a0 = ours@.subrange(0, k as int);
                let b0 = theirs@.subrange(0, k as int);
                let a1 = ours@.subrange(0, k + 1);
                let b1 = theirs@.subrange(0, k + 1);
                assert(a1.drop_last() =~= a0);
                assert(b1.drop_last() =~= b0);
                assert(a1[k as int] == ours@[k as int]);
                assert(b1[k as int] == theirs@[k as int]);
                if a0 =~= b0 && ours@[k as int] == theirs@[k as int] {
                    assert(a1 =~= b1);
                }
                if a1 =~= b1 {
                    assert(a0 =~= b0);
                }
            }
            k = k + 1;
        }
        if !same {
            return Err(NegotiationError::GameMismatch);
        }
        Ok(hello)
    }

    /// The hola that reveals this side's nonce.
    pub fn hola(&self) -> (res: Packet)
        ensures
            res matches Packet::Hola(h) && h.rng_nonce@ == self.spec_nonce(),
    {
        Packet::Hola(Hola { rng_nonce: crate::input::copy_bytes(&self.nonce) })
    }

    /// Checks what the peer sent second against the commitment in its hello: it must be a
    /// hola whose nonce hashes to that commitment. Gives the seed of the match.
    pub fn receive_hola(&self, their_hello: &Hello, packet: Option<Packet>) -> (res: Result<
        Vec<u8>,
        NegotiationError,
    >)
        ensures
            match packet {
                Some(Packet::Hola(h)) => if commitment_of(h.rng_nonce@)
                    == their_hello.rng_commitment@ {
                    res matches Ok(seed) && seed@ == seed_of(h.rng_nonce@, self.spec_nonce())
                } else {
                    res matches Err(NegotiationError::InvalidCommitment)
                },
                _ => res matches Err(NegotiationError::ExpectedHola),
            },
    {
        let hola = match packet {
            Some(Packet::Hola(hola)) => hola,
            _ => {
                return Err(NegotiationError::ExpectedHola);
            },
        };
        let theirs = make_rng_commitment(hola.rng_nonce.as_slice());
        if !ct_eq_bytes(theirs.as_slice(), their_hello.rng_commitment.as_slice()) {
            return Err(NegotiationError::InvalidCommitment);
        }
        Ok(xor_seed(hola.rng_nonce.as_slice(), self.nonce.as_slice()))
    }
}

impl Handshake {
    /// Ends the handshake on what the peer sent second: on an error the negotiation has
    /// failed and the battle state is as it was; otherwise the match's generator is
    /// seeded from the XOR of the two nonces, and the toss decides who counts as having
    /// won the last battle.
    pub fn conclude(
        &self,
        their_hello: &Hello,
        packet: Option<Packet>,
        side: ConnectionSide,
        battle_state: &mut BattleState,
    ) -> (res: Negotiation)
        requires
            self.spec_nonce().len() == NONCE_LEN,
            packet matches Some(Packet::Hola(h)) ==> (commitment_of(h.rng_nonce@)
                == their_hello.rng_commitment@ ==> h.rng_nonce@.len() >= NONCE_LEN),
        ensures
            concluded(
                *self,
                *their_hello,
                packet,
                match res {
                    Negotiation::Negotiated { rng } => Some(pcg_state(rng)),
                    _ => None,
                },
                match res {
                    Negotiation::Failed(e) => Some(e),
                    _ => None,
                },
            ),
            !(res is NotReady),
            final(battle_state).number == old(battle_state).number,
            final(battle_state).battle == old(battle_state).battle,
            res is Failed ==> final(battle_state).won_last_battle == old(battle_state).won_last_battle,
            packet matches Some(Packet::Hola(h)) ==> (res is Negotiated ==> final(battle_state).won_last_battle == won_toss(
                toss_bit(seed_of(h.rng_nonce@, self.spec_nonce())),
                side,
            )),
    {
        match self.receive_hola(their_hello, packet) {
            Err(e) => Negotiation::Failed(e),
            Ok(seed) => {
                let (rng, won) = seed_match(seed.as_slice(), side);
                battle_state.won_last_battle = won;
                Negotiation::Negotiated { rng }
            },
        }
    }
}

/// Whether the peer's hola reveals a nonce that matches its commitment but is shorter than
/// a nonce, so that no seed can be made from it.
pub open spec fn revealed_nonce_too_short(their_hello: Hello, packet: Option<Packet>) -> bool {
    packet matches Some(Packet::Hola(h)) && h.rng_nonce@.len() < NONCE_LEN && commitment_of(
        h.rng_nonce@,
    ) == their_hello.rng_commitment@
}

impl Handshake {
    /// Ends the handshake as [`Handshake::conclude`] does, after checking the one thing
    /// that it needs: where the peer revealed a matching nonce too short to seed the
    /// generator, gives `None` and leaves the battle state as it was.
    pub fn conclude_checked(
        &self,
        their_hello: &Hello,
        packet: Option<Packet>,
        side: ConnectionSide,
        battle_state: &mut BattleState,
    ) -> (res: Option<Negotiation>)
        requires
            self.spec_nonce().len() == NONCE_LEN,
        ensures
            (res is None) == revealed_nonce_too_short(*their_hello, packet),
            res is None ==> *final(battle_state) == *old(battle_state),
            res matches Some(n) ==> concluded(
                *self,
                *their_hello,
                packet,
                match n {
                    Negotiation::Negotiated { rng } => Some(pcg_state(rng)),
                    _ => None,
                },
                match n {
                    Negotiation::Failed(e) => Some(e),
                    _ => None,
                },
            ),
            res matches Some(n) ==> !(n is NotReady),
            final(battle_state).number == old(battle_state).number,
            final(battle_state).battle == old(battle_state).battle,
            res matches Some(n) ==> (n is Failed ==> final(battle_state).won_last_battle
                == old(battle_state).won_last_battle),
            packet matches Some(Packet::Hola(h)) ==> (res matches Some(n) ==> (n is Negotiated
                ==> final(battle_state).won_last_battle == won_toss(
                toss_bit(seed_of(h.rng_nonce@, self.spec_nonce())),
                side,
            ))),
    {
        let short = match &packet {
            Some(Packet::Hola(h)) => if h.rng_nonce.len() < NONCE_LEN {
                let c = make_rng_commitment(h.rng_nonce.as_slice());
                ct_eq_bytes(c.as_slice(), their_hello.rng_commitment.as_slice())
            } else {
                false
            },
            _ => false,
        };
        if short {
            return None;
        }
        Some(self.conclude(their_hello, packet, side, battle_state))
    }
}

/// Whether [`Handshake::receive_hello`] can take `hello`: its checks either stop before the
/// game titles, or both titles can be cut after their first eight bytes.
pub fn titles_are_comparable(handshake: &Handshake, hello: &Hello) -> (res: bool)
    ensures
        res == (reaches_title_check(handshake.spec_commitment(), handshake.spec_match_type(), *hello)
            ==> titles_comparable(handshake.spec_game_title(), hello.game_title)),
{
    let reaches = !ct_eq_bytes(handshake.commitment.as_slice(), hello.rng_commitment.as_slice())
        && hello.protocol_version == VERSION && hello.match_type == handshake.match_type;
    if !reaches {
        return true;
    }
    handshake.game_title.as_str().is_char_boundary(TITLE_PREFIX_LEN) && hello.game_title.as_str().is_char_boundary(
        TITLE_PREFIX_LEN,
    )
}

/// Whether this side won the coin toss, given the bit drawn first from the shared
/// generator: the polite side wins on a set bit, the impolite side on a clear one, so
/// exactly one of the two wins.
pub open spec fn won_toss(bit: bool, side: ConnectionSide) -> bool {
    bit == (side == ConnectionSide::Polite)
}

/// Whether this side counts as having won the last battle, given the bit drawn first
/// from the shared generator.
pub fn won_last_battle(bit: bool, side: ConnectionSide) -> (res: bool)
    ensures
        res == won_toss(bit, side),
{
    bit == (side == ConnectionSide::Polite)
}

/// The state of a match's generator once it was seeded with `seed` and the toss was
/// drawn from it.
pub open spec fn match_rng_state(seed: Seq<u8>) -> u128 {
    pcg_step(seeded_state(seed))
}

/// The bit that the toss of a match seeded with `seed` draws.
pub open spec fn toss_bit(seed: Seq<u8>) -> bool {
    pcg_bool(match_rng_state(seed))
}

/// Seeds the match's generator and draws who counts as having won the last battle (the
/// one who plays first).
pub fn seed_match(seed: &[u8], side: ConnectionSide) -> (res: (Mcg128Xsl64, bool))
    requires
        seed@.len() == NONCE_LEN,
    ensures
        pcg_state(res.0) == match_rng_state(seed@),
        res.1 == won_toss(toss_bit(seed@), side),
{
    let mut rng = pcg_from_seed(seed);
    let bit = pcg_gen_bool(&mut rng);
    let won = won_last_battle(bit, side);
    (rng, won)
}

/// Two peers that reveal nonces `a` and `b` to each other seed their generators alike:
/// each XORs the other's nonce with its own, which gives the same seed, so both hold
/// generators in the same state, from which the same sequence of draws gives the same
/// values (a draw of a `usize` only between targets of the same pointer width); and
/// exactly one of them, the polite side or the impolite one, wins the toss.
pub proof fn lemma_peers_agree(a: Seq<u8>, b: Seq<u8>)
    ensures
        match_rng_state(seed_of(b, a)) == match_rng_state(seed_of(a, b)),
        won_toss(toss_bit(seed_of(b, a)), ConnectionSide::Polite) != won_toss(
            toss_bit(seed_of(a, b)),
            ConnectionSide::Impolite,
        ),
{
    lemma_seed_symmetric(a, b);
}

/// What concluding a handshake makes of the negotiation: the hola's error, or a match
/// whose generator is seeded from the XOR of the nonces and has drawn the toss.
pub open spec fn concluded(
    h: Handshake,
    their_hello: Hello,
    packet: Option<Packet>,
    rng_state: Option<u128>,
    failed: Option<NegotiationError>,
) -> bool {
    match packet {
        Some(Packet::Hola(hola)) => if commitment_of(hola.rng_nonce@) == their_hello.rng_commitment@ {
            rng_state == Some(match_rng_state(seed_of(hola.rng_nonce@, h.spec_nonce())))
                && failed is None
        } else {
            rng_state is None && failed == Some(NegotiationError::InvalidCommitment)
        },
        _ => rng_state is None && failed == Some(NegotiationError::ExpectedHola),
    }
}

/// The two sides of a match toss the same bit and opposite sides, so exactly one of them
/// counts as having won the last battle.
pub proof fn lemma_toss_has_one_winner(bit: bool)
    ensures
        won_toss(bit, ConnectionSide::Polite) != won_toss(bit, ConnectionSide::Impolite),
{
}

/// The two sides of a match start their first battle as different players: the toss
/// makes exactly one of them the winner of the last battle, and the winner is player 1.
pub proof fn lemma_sides_play_different_players(bit: bool)
    ensures
        local_index_for(won_toss(bit, ConnectionSide::Polite)) != local_index_for(
            won_toss(bit, ConnectionSide::Impolite),
        ),
        local_index_for(won_toss(bit, ConnectionSide::Polite)) + local_index_for(
            won_toss(bit, ConnectionSide::Impolite),
        ) == 1,
{
}

} // verus!
