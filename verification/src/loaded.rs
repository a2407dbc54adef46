use vstd::prelude::*;

verus! {

/// The frame rate the emulator runs at outside of a match.
pub const EXPECTED_FPS: u32 = 60;

/// Whether a match is on: none, one that was aborted, or one in progress.
pub enum MatchState<M> {
    NoMatch,
    Aborted,
    Match(M),
}

/// How the debug overlay names a match state.
pub open spec fn state_label<M>(s: MatchState<M>) -> Seq<char> {
    match s {
        MatchState::NoMatch => "none"@,
        MatchState::Aborted => "aborted"@,
        MatchState::Match(_) => "active"@,
    }
}

impl<M> MatchState<M> {
    /// The name of the state in the debug overlay.
    pub fn label(&self) -> (res: &'static str)
        ensures
            res@ == state_label(*self),
    {
        match self {
            MatchState::NoMatch => "none",
            MatchState::Aborted => "aborted",
            MatchState::Match(_) => "active",
        }
    }

    /// The match in progress, if any.
    pub fn current(&self) -> (res: Option<&M>)
        ensures
            match *self {
                MatchState::Match(m) => res == Some(&m),
                _ => res is None,
            },
    {
        match self {
            MatchState::Match(m) => Some(m),
            _ => None,
        }
    }
}

/// Makes every pixel of an RGBA frame opaque, leaving the colours as they are.
pub fn set_opaque(vbuf: &mut Vec<u8>)
    requires
        old(vbuf)@.len() % 4 == 0,
    ensures
        final(vbuf)@.len() == old(vbuf)@.len(),
        forall|i: int|
            0 <= i < old(vbuf)@.len() ==> #[trigger] final(vbuf)@[i] == if i % 4 == 3 {
                0xffu8
            } else {
                old(vbuf)@[i]
            },
{
    let n = vbuf.len();
    let mut i: usize = 0;
    while i < n
        invariant
            n == vbuf@.len(),
            n == old(vbuf)@.len(),
            i % 4 == 0,
            n % 4 == 0,
            i <= n,
            forall|k: int|
                0 <= k < n ==> #[trigger] vbuf@[k] == if k % 4 == 3 && k < i {
                    0xffu8
                } else {
                    old(vbuf)@[k]
                },
        decreases n - i,
    {
        vbuf.set(i + 3, 0xff);
        i = i + 4;
    }
}

} // verus!
