use vstd::prelude::*;
use vstd::string::StringSliceAdditionalSpecFns;

verus! {

/// The value of an ASCII hexadecimal digit, either case; none for another byte.
pub open spec fn hex_digit_value(c: u8) -> Option<u32> {
    if 0x30 <= c <= 0x39 {
        Some((c - 0x30) as u32)
    } else if 0x61 <= c <= 0x66 {
        Some((c - 0x61 + 10) as u32)
    } else if 0x41 <= c <= 0x46 {
        Some((c - 0x41 + 10) as u32)
    } else {
        None
    }
}

/// Whether every byte of `s` is a hexadecimal digit.
pub open spec fn all_hex_digits(s: Seq<u8>) -> bool {
    forall|i: int| 0 <= i < s.len() ==> (#[trigger] hex_digit_value(s[i])) is Some
}

/// The number that the hexadecimal digits `s` write, most significant first.
pub open spec fn hex_value(s: Seq<u8>) -> int
    decreases s.len(),
{
    if s.len() == 0 {
        0
    } else {
        hex_value(s.drop_last()) * 16 + hex_digit_value(s.last()).unwrap() as int
    }
}

/// The `u32` that a hexadecimal string writes, as `u32::from_str_radix(s, 16)` reads
/// it: an optional `+`, then at least one digit, and a value that fits.
pub open spec fn parse_hex_spec(s: Seq<u8>) -> Option<u32> {
    let digits = if s.len() > 0 && s[0] == 0x2b {
        s.drop_first()
    } else {
        s
    };
    if digits.len() == 0 || !all_hex_digits(digits) || hex_value(digits) > u32::MAX {
        None
    } else {
        Some(hex_value(digits) as u32)
    }
}

proof fn lemma_hex_value_nonneg(s: Seq<u8>)
    requires
        all_hex_digits(s),
    ensures
        hex_value(s) >= 0,
    decreases s.len(),
{
    if s.len() > 0 {
        assert(all_hex_digits(s.drop_last())) by {
            assert forall|i: int| 0 <= i < s.drop_last().len() implies (#[trigger] hex_digit_value(
                s.drop_last()[i],
            )) is Some by {
                assert(s.drop_last()[i] == s[i]);
            }
        }
        lemma_hex_value_nonneg(s.drop_last());
        assert(hex_digit_value(s[s.len() - 1]) is Some);
    }
}

/// Reads a CRC32 written in hexadecimal, as the compatibility list writes them.
pub fn parse_hex(s: &str) -> (res: Option<u32>)
    ensures
        res == parse_hex_spec(s.spec_bytes()),
{
    let b = s.as_bytes();
    let ghost bs = b@;
    let start: usize = if b.len() > 0 && b[0] == 0x2b {
        1
    } else {
        0
    };
    let ghost digits = if bs.len() > 0 && bs[0] == 0x2b {
        bs.drop_first()
    } else {
        bs
    };
    assert(digits =~= bs.subrange(start as int, bs.len() as int));
    if start == b.len() {
        return None;
    }
    let mut acc: u64 = 0;
    let mut i: usize = start;
    while i < b.len()
        invariant
            start <= i <= b@.len(),
            b@ == bs,
            bs == s.spec_bytes(),
            digits == (if bs.len() > 0 && bs[0] == 0x2b {
                bs.drop_first()
            } else {
                bs
            }),
            digits == bs.subrange(start as int, bs.len() as int),
            all_hex_digits(bs.subrange(start as int, i as int)),
            acc == hex_value(bs.subrange(start as int, i as int)),
            acc <= u32::MAX,
        decreases b@.len() - i,
    {
        let c = b[i];
        let d: u64 = if 0x30 <= c && c <= 0x39 {
            (c - 0x30) as u64
        } else if 0x61 <= c && c <= 0x66 {
            (c - 0x61 + 10) as u64
        } else if 0x41 <= c && c <= 0x46 {
            (c - 0x41 + 10) as u64
        } else {
            proof {
                assert(digits[i - start] == c);
                assert(hex_digit_value(digits[i - start]) is None);
                assert(!all_hex_digits(digits));
            }
            return None;
        };
        let ghost before = bs.subrange(start as int, i as int);
        let ghost after = bs.subrange(start as int, i + 1);
        proof {
            assert(after.drop_last() =~= before);
            assert(after.last() == c);
            assert forall|k: int| 0 <= k < after.len() implies (#[trigger] hex_digit_value(
                after[k],
            )) is Some by {
                if k < before.len() {
                    assert(after[k] == before[k]);
                }
            }
        }
        acc = acc * 16 + d;
        if acc > 0xffff_ffff {
            proof {
                assert(digits.subrange(0, i + 1 - start) =~= after);
                assert(acc == hex_value(after));
                lemma_hex_prefix_grows(digits, i + 1 - start);
            }
            return None;
        }
        i = i + 1;
    }
    proof {
        assert(bs.subrange(start as int, i as int) =~= digits);
    }
    Some(acc as u32)
}

/// A prefix of hexadecimal digits writes no more than the whole.
proof fn lemma_hex_prefix_grows(s: Seq<u8>, k: int)
    requires
        0 <= k <= s.len(),
        all_hex_digits(s.subrange(0, k)),
    ensures
        all_hex_digits(s) ==> hex_value(s.subrange(0, k)) <= hex_value(s),
    decreases s.len() - k,
{
    if k < s.len() && all_hex_digits(s) {
        let p = s.subrange(0, k);
        let q = s.subrange(0, k + 1);
        assert(q.drop_last() =~= p);
        assert(all_hex_digits(q)) by {
            assert forall|i: int| 0 <= i < q.len() implies (#[trigger] hex_digit_value(q[i])) is Some by {
                assert(q[i] == s[i]);
            }
        }
        lemma_hex_value_nonneg(p);
        assert(hex_digit_value(s[k]) is Some);
        lemma_hex_prefix_grows(s, k + 1);
    } else if k == s.len() {
        assert(s.subrange(0, k) =~= s);
    }
}

/// The lowercase hexadecimal digit for `d`, below 16.
pub open spec fn hex_digit(d: u32) -> u8 {
    if d < 10 {
        (0x30 + d) as u8
    } else {
        (0x61 + d - 10) as u8
    }
}

/// `v` as eight lowercase hexadecimal digits, most significant first.
pub open spec fn hex8(v: u32) -> Seq<u8> {
    Seq::new(8, |k: int| hex_digit((v >> (4 * (7 - k)) as u32) & 0xf))
}

/// Writes a CRC32 as eight lowercase hexadecimal digits, as the compatibility list
/// writes them.
pub fn to_hex(v: u32) -> (res: Vec<u8>)
    ensures
        res@ == hex8(v),
{
    let mut out: Vec<u8> = Vec::new();
    let mut k: u32 = 0;
    while k < 8
        invariant
            k <= 8,
            out@ == hex8(v).subrange(0, k as int),
        decreases 8 - k,
    {
        let x = v >> (4 * (7 - k));
        let d = x & 0xf;
        assert(x & 0xf <= 0xf) by (bit_vector);
        let c: u8 = if d < 10 {
            (0x30 + d) as u8
        } else {
            (0x61 + d - 10) as u8
        };
        out.push(c);
        k = k + 1;
        assert(out@ =~= hex8(v).subrange(0, k as int));
    }
    assert(out@ =~= hex8(v));
    out
}

/// Each digit of [`hex8`] reads back as the nibble it was written from.
proof fn lemma_hex_digit_roundtrip(d: u32)
    requires
        d < 16,
    ensures
        hex_digit_value(hex_digit(d)) == Some(d),
{
}

/// The first `k` digits of `hex8(v)` write `v` shifted right by the rest.
proof fn lemma_hex8_prefix(v: u32, k: int)
    requires
        0 <= k <= 8,
    ensures
        all_hex_digits(hex8(v).subrange(0, k)),
        hex_value(hex8(v).subrange(0, k)) == (v >> (4 * (8 - k)) as u32) as int,
    decreases k,
{
    let s = hex8(v).subrange(0, k);
    if k == 0 {
        assert(v >> 32u32 == 0) by (bit_vector);
    } else {
        lemma_hex8_prefix(v, k - 1);
        assert(s.drop_last() =~= hex8(v).subrange(0, k - 1));
        let sh = (4 * (8 - k)) as u32;
        let d = (v >> sh) & 0xf;
        assert(d < 16) by (bit_vector)
            requires
                d == (v >> sh) & 0xf,
        ;
        lemma_hex_digit_roundtrip(d);
        assert(s.last() == hex_digit(d));
        assert forall|i: int| 0 <= i < s.len() implies (#[trigger] hex_digit_value(s[i])) is Some by {
            if i < k - 1 {
                assert(s[i] == s.drop_last()[i]);
            }
        }
        assert((v >> (sh + 4) as u32) * 16 + ((v >> sh) & 0xf) == (v >> sh) as int) by (bit_vector)
            requires
                sh <= 28,
        ;
        assert((4 * (8 - (k - 1))) as u32 == (sh + 4) as u32);
    }
}

/// A CRC32 written by [`to_hex`] reads back as itself.
pub proof fn lemma_hex_roundtrip(v: u32)
    ensures
        parse_hex_spec(hex8(v)) == Some(v),
{
    lemma_hex8_prefix(v, 8);
    assert(hex8(v).subrange(0, 8) =~= hex8(v));
    assert(v >> 0u32 == v) by (bit_vector);
    assert(hex_digit_value(hex8(v)[0]) is Some);
    assert(hex8(v)[0] != 0x2b);
}

/// A game that the compatibility list knows.
pub struct Game {
    pub title: String,
    pub crc32: u32,
    pub hooks: String,
}

/// Which games can play against each other: games by id, and sets of ids that are
/// compatible.
pub struct CompatList {
    pub games: Vec<(String, Game)>,
    pub compatibility: Vec<Vec<String>>,
}

impl CompatList {
    /// No two entries share an id, nor a title and CRC32.
    pub open spec fn wf(&self) -> bool {
        &&& forall|i: int, j: int|
            0 <= i < j < self.games@.len() ==> self.games@[i].0@ != self.games@[j].0@
        &&& forall|i: int, j: int|
            0 <= i < j < self.games@.len() ==> !(self.games@[i].1.title@ == self.games@[j].1.title@
                && self.games@[i].1.crc32 == self.games@[j].1.crc32)
    }

    /// The id of the game with this title and CRC32, if the list has it.
    pub fn id_by_title_and_crc32(&self, title: &String, crc32: u32) -> (res: Option<&String>)
        requires
            self.wf(),
        ensures
            match res {
                Some(id) => exists|i: int|
                    0 <= i < self.games@.len() && self.games@[i].1.title@ == title@
                        && self.games@[i].1.crc32 == crc32 && #[trigger] self.games@[i].0 == *id,
                None => forall|i: int|
                    0 <= i < self.games@.len() ==> !(#[trigger] self.games@[i].1.title@ == title@
                        && self.games@[i].1.crc32 == crc32),
            },
    {
        let mut i: usize = 0;
        while i < self.games.len()
            invariant
                i <= self.games@.len(),
                forall|k: int|
                    0 <= k < i ==> !(#[trigger] self.games@[k].1.title@ == title@
                        && self.games@[k].1.crc32 == crc32),
            decreases self.games@.len() - i,
        {
            let entry = &self.games[i];
            if entry.1.title == *title && entry.1.crc32 == crc32 {
                return Some(&entry.0);
            }
            i = i + 1;
        }
        None
    }

    /// The game with this id, if the list has it.
    pub fn game_by_id(&self, id: &String) -> (res: Option<&Game>)
        requires
            self.wf(),
        ensures
            match res {
                Some(g) => exists|i: int|
                    0 <= i < self.games@.len() && #[trigger] self.games@[i].0@ == id@
                        && self.games@[i].1 == *g,
                None => forall|i: int|
                    0 <= i < self.games@.len() ==> #[trigger] self.games@[i].0@ != id@,
            },
    {
        let mut i: usize = 0;
        while i < self.games.len()
            invariant
                i <= self.games@.len(),
                forall|k: int| 0 <= k < i ==> #[trigger] self.games@[k].0@ != id@,
            decreases self.games@.len() - i,
        {
            let entry = &self.games[i];
            if entry.0 == *id {
                return Some(&entry.1);
            }
            i = i + 1;
        }
        None
    }

    /// Whether some set of compatible games holds both ids.
    pub fn is_compatible(&self, id1: &String, id2: &String) -> (res: bool)
        ensures
            res == exists|s: int|
                0 <= s < self.compatibility@.len() && set_contains(
                    #[trigger] self.compatibility@[s]@,
                    id1@,
                ) && set_contains(self.compatibility@[s]@, id2@),
    {
        let mut s: usize = 0;
        while s < self.compatibility.len()
            invariant
                s <= self.compatibility@.len(),
                forall|k: int|
                    0 <= k < s ==> !(set_contains(#[trigger] self.compatibility@[k]@, id1@)
                        && set_contains(self.compatibility@[k]@, id2@)),
            decreases self.compatibility@.len() - s,
        {
            let ids = &self.compatibility[s];
            if contains(ids, id1) && contains(ids, id2) {
                return true;
            }
            s = s + 1;
        }
        false
    }
}

/// Whether `ids` holds a string equal to `id`.
pub open spec fn set_contains(ids: Seq<String>, id: Seq<char>) -> bool {
    exists|i: int| 0 <= i < ids.len() && (#[trigger] ids[i])@ == id
}

/// Whether `ids` holds `id`.
fn contains(ids: &Vec<String>, id: &String) -> (res: bool)
    ensures
        res == set_contains(ids@, id@),
{
    let mut i: usize = 0;
    while i < ids.len()
        invariant
            i <= ids@.len(),
            forall|k: int| 0 <= k < i ==> (#[trigger] ids@[k])@ != id@,
        decreases ids@.len() - i,
    {
        if ids[i] == *id {
            return true;
        }
        i = i + 1;
    }
    false
}

} // verus!
