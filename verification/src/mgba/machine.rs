use super::gba::GBA;
use std::collections::HashMap;
use vstd::prelude::*;

verus! {

broadcast use vstd::std_specs::hash::group_hash_axioms;

/// `a + k` on the 32-bit address bus, wrapping past the top.
pub open spec fn addr_add(a: u32, k: u32) -> u32 {
    if a + k > u32::MAX {
        (a + k - 0x1_0000_0000) as u32
    } else {
        (a + k) as u32
    }
}

/// The byte at `a`: zero where nothing was ever written.
pub open spec fn byte_at(m: Map<u32, u8>, a: u32) -> u8 {
    if m.contains_key(a) {
        m[a]
    } else {
        0
    }
}

/// The little-endian halfword at `a`.
pub open spec fn half_at(m: Map<u32, u8>, a: u32) -> u16 {
    (byte_at(m, a) + 256 * byte_at(m, addr_add(a, 1))) as u16
}

/// The little-endian word at `a`.
pub open spec fn word_at(m: Map<u32, u8>, a: u32) -> u32 {
    (byte_at(m, a) + 256 * byte_at(m, addr_add(a, 1)) + 65536 * byte_at(m, addr_add(a, 2))
        + 16777216 * byte_at(m, addr_add(a, 3))) as u32
}

/// The memory after writing the halfword `v` at `a`, least significant byte first.
pub open spec fn write_half(m: Map<u32, u8>, a: u32, v: u16) -> Map<u32, u8> {
    m.insert(a, (v % 256) as u8).insert(addr_add(a, 1), (v / 256) as u8)
}

/// The memory after writing the word `v` at `a`, least significant byte first.
pub open spec fn write_word(m: Map<u32, u8>, a: u32, v: u32) -> Map<u32, u8> {
    m.insert(a, (v % 256) as u8).insert(addr_add(a, 1), ((v / 256) % 256) as u8).insert(
        addr_add(a, 2),
        ((v / 65536) % 256) as u8,
    ).insert(addr_add(a, 3), (v / 16777216) as u8)
}

/// The memory after writing `bytes` from `a` on.
pub open spec fn write_bytes(m: Map<u32, u8>, a: u32, bytes: Seq<u8>) -> Map<u32, u8>
    decreases bytes.len(),
{
    if bytes.len() == 0 {
        m
    } else {
        write_bytes(m, a, bytes.drop_last()).insert(
            addr_add(a, (bytes.len() - 1) as u32),
            bytes.last(),
        )
    }
}

/// The `n` bytes from `a` on.
pub open spec fn bytes_at(m: Map<u32, u8>, a: u32, n: nat) -> Seq<u8> {
    Seq::new(n, |i: int| byte_at(m, addr_add(a, i as u32)))
}

/// The bytes of a NUL-terminated string stored in `bytes`: everything before the first
/// zero byte, or all of it where there is none.
pub open spec fn before_nul(bytes: Seq<u8>) -> Seq<u8>
    decreases bytes.len(),
{
    if bytes.len() == 0 {
        bytes
    } else if bytes[0] == 0 {
        Seq::empty()
    } else {
        seq![bytes[0]] + before_nul(bytes.drop_first())
    }
}

/// Reads a string such as the ROM title out of a fixed-size, NUL-padded field.
pub fn nul_terminated(bytes: &[u8]) -> (res: Vec<u8>)
    ensures
        res@ == before_nul(bytes@),
{
    let mut out: Vec<u8> = Vec::new();
    let mut i: usize = 0;
    assert(bytes@.skip(0) =~= bytes@);
    assert(out@ + before_nul(bytes@) =~= before_nul(bytes@));
    while i < bytes.len()
        invariant
            i <= bytes@.len(),
            before_nul(bytes@) == out@ + before_nul(bytes@.skip(i as int)),
        decreases bytes@.len() - i,
    {
        proof {
            assert(bytes@.skip(i as int).drop_first() =~= bytes@.skip(i + 1));
        }
        if bytes[i] == 0 {
            assert(before_nul(bytes@.skip(i as int)) =~= Seq::<u8>::empty());
            assert(out@ + Seq::<u8>::empty() =~= out@);
            return out;
        }
        out.push(bytes[i]);
        i = i + 1;
        proof {
            let t = bytes@.skip((i - 1) as int);
            assert(before_nul(t) == seq![t[0]] + before_nul(t.drop_first()));
        }
        assert(before_nul(bytes@) =~= out@ + before_nul(bytes@.skip(i as int)));
    }
    assert(bytes@.skip(i as int) =~= Seq::<u8>::empty());
    assert(out@ + Seq::<u8>::empty() =~= out@);
    out
}

/// Byte-addressed memory of the emulated machine.
pub struct Memory {
    bytes: HashMap<u32, u8>,
}

impl View for Memory {
    type V = Map<u32, u8>;

    closed spec fn view(&self) -> Map<u32, u8> {
        self.bytes@
    }
}

impl Memory {
    /// Memory where nothing has been written.
    pub fn new() -> (res: Memory)
        ensures
            res@ == Map::<u32, u8>::empty(),
    {
        Memory { bytes: HashMap::new() }
    }

    pub fn read_8(&self, a: u32) -> (res: u8)
        ensures
            res == byte_at(self@, a),
    {
        match self.bytes.get(&a) {
            Some(v) => *v,
            None => 0,
        }
    }

    pub fn write_8(&mut self, a: u32, v: u8)
        ensures
            final(self)@ == old(self)@.insert(a, v),
    {
        self.bytes.insert(a, v);
    }

    pub fn read_16(&self, a: u32) -> (res: u16)
        ensures
            res == half_at(self@, a),
    {
        let lo = self.read_8(a);
        let hi = self.read_8(a.wrapping_add(1));
        lo as u16 + 256 * (hi as u16)
    }

    pub fn read_32(&self, a: u32) -> (res: u32)
        ensures
            res == word_at(self@, a),
    {
        let b0 = self.read_8(a);
        let b1 = self.read_8(a.wrapping_add(1));
        let b2 = self.read_8(a.wrapping_add(2));
        let b3 = self.read_8(a.wrapping_add(3));
        b0 as u32 + 256 * (b1 as u32) + 65536 * (b2 as u32) + 16777216 * (b3 as u32)
    }

    pub fn write_16(&mut self, a: u32, v: u16)
        ensures
            final(self)@ == write_half(old(self)@, a, v),
    {
        self.write_8(a, (v % 256) as u8);
        self.write_8(a.wrapping_add(1), (v / 256) as u8);
    }

    pub fn write_32(&mut self, a: u32, v: u32)
        ensures
            final(self)@ == write_word(old(self)@, a, v),
    {
        self.write_8(a, (v % 256) as u8);
        self.write_8(a.wrapping_add(1), ((v / 256) % 256) as u8);
        self.write_8(a.wrapping_add(2), ((v / 65536) % 256) as u8);
        self.write_8(a.wrapping_add(3), (v / 16777216) as u8);
    }
}

/// The emulated machine that the library drives: its memory, its CPU and the keys held.
pub struct Core {
    pub memory: Memory,
    pub gba: GBA,
    pub keys: u32,
}

impl Core {
    /// A machine with untouched memory, all registers zero and no keys held.
    pub fn new_gba() -> (res: Core)
        ensures
            res.memory@ == Map::<u32, u8>::empty(),
            res.gba.spec_cpu().wf(),
            res.gba.spec_cpu()@.gprs == Seq::new(16, |i: int| 0i32),
            res.keys == 0,
    {
        Core { memory: Memory::new(), gba: GBA::new(), keys: 0 }
    }

    pub fn set_keys(&mut self, keys: u32)
        ensures
            final(self).keys == keys,
            final(self).memory == old(self).memory,
            final(self).gba == old(self).gba,
    {
        self.keys = keys;
    }

    pub fn keys(&self) -> (res: u32)
        ensures
            res == self.keys,
    {
        self.keys
    }

    pub fn gba(&self) -> (res: &GBA)
        ensures
            *res == self.gba,
    {
        &self.gba
    }

    pub fn gba_mut(&mut self) -> (res: &mut GBA)
        ensures
            *res == old(self).gba,
            final(self).gba == *final(res),
            final(self).memory == old(self).memory,
            final(self).keys == old(self).keys,
    {
        &mut self.gba
    }

    /// The byte at `address`; the model has one bank, so `segment` has no effect.
    pub fn raw_read_8(&self, address: u32, segment: i32) -> (res: u8)
        ensures
            res == byte_at(self.memory@, address),
    {
        self.memory.read_8(address)
    }

    pub fn raw_read_16(&self, address: u32, segment: i32) -> (res: u16)
        ensures
            res == half_at(self.memory@, address),
    {
        self.memory.read_16(address)
    }

    pub fn raw_read_32(&self, address: u32, segment: i32) -> (res: u32)
        ensures
            res == word_at(self.memory@, address),
    {
        self.memory.read_32(address)
    }

    pub fn raw_write_8(&mut self, address: u32, segment: i32, v: u8)
        ensures
            final(self).memory@ == old(self).memory@.insert(address, v),
            final(self).gba == old(self).gba,
            final(self).keys == old(self).keys,
    {
        self.memory.write_8(address, v);
    }

    pub fn raw_write_16(&mut self, address: u32, segment: i32, v: u16)
        ensures
            final(self).memory@ == write_half(old(self).memory@, address, v),
            final(self).gba == old(self).gba,
            final(self).keys == old(self).keys,
    {
        self.memory.write_16(address, v);
    }

    pub fn raw_write_32(&mut self, address: u32, segment: i32, v: u32)
        ensures
            final(self).memory@ == write_word(old(self).memory@, address, v),
            final(self).gba == old(self).gba,
            final(self).keys == old(self).keys,
    {
        self.memory.write_32(address, v);
    }

    /// The `n` bytes from `address` on.
    pub fn raw_read_range(&self, address: u32, segment: i32, n: usize) -> (res: Vec<u8>)
        requires
            address + n <= u32::MAX + 1,
        ensures
            res@ == bytes_at(self.memory@, address, n as nat),
    {
        let mut buf: Vec<u8> = Vec::with_capacity(n);
        let mut i: usize = 0;
        while i < n
            invariant
                i <= n,
                address + n <= u32::MAX + 1,
                buf@ =~= bytes_at(self.memory@, address, i as nat),
            decreases n - i,
        {
            let v = self.raw_read_8(address + i as u32, segment);
            buf.push(v);
            i = i + 1;
            proof {
                assert(addr_add(address, (i - 1) as u32) == address + (i - 1));
                assert(buf@ =~= bytes_at(self.memory@, address, i as nat));
            }
        }
        buf
    }

    /// Writes each byte of `buf` from `address` on.
    pub fn raw_write_range(&mut self, address: u32, segment: i32, buf: &[u8])
        requires
            address + buf@.len() <= u32::MAX + 1,
        ensures
            final(self).memory@ == write_bytes(old(self).memory@, address, buf@),
            final(self).gba == old(self).gba,
            final(self).keys == old(self).keys,
    {
        let mut i: usize = 0;
        while i < buf.len()
            invariant
                i <= buf@.len(),
                address + buf@.len() <= u32::MAX + 1,
                self.memory@ == write_bytes(old(self).memory@, address, buf@.subrange(0, i as int)),
                self.gba == old(self).gba,
                self.keys == old(self).keys,
            decreases buf@.len() - i,
        {
            self.raw_write_8(address + i as u32, segment, buf[i]);
            proof {
                let s = buf@.subrange(0, i + 1);
                assert(s.drop_last() =~= buf@.subrange(0, i as int));
                assert(addr_add(address, i as u32) == address + i);
            }
            i = i + 1;
        }
        proof {
            assert(buf@.subrange(0, buf@.len() as int) =~= buf@);
        }
    }
}

/// A halfword written to memory reads back as itself.
pub proof fn lemma_write_half_read_back(m: Map<u32, u8>, a: u32, v: u16)
    requires
        a < u32::MAX,
    ensures
        half_at(write_half(m, a, v), a) == v,
{
}

/// A word written to memory reads back as itself.
pub proof fn lemma_write_word_read_back(m: Map<u32, u8>, a: u32, v: u32)
    requires
        a < u32::MAX - 2,
    ensures
        word_at(write_word(m, a, v), a) == v,
{
}

/// Bytes written from `a` on read back as themselves, where they do not run past the
/// top of the address space.
pub proof fn lemma_write_bytes_read_back(m: Map<u32, u8>, a: u32, bytes: Seq<u8>)
    requires
        a + bytes.len() <= u32::MAX + 1,
    ensures
        bytes_at(write_bytes(m, a, bytes), a, bytes.len()) == bytes,
    decreases bytes.len(),
{
    if bytes.len() > 0 {
        let init = bytes.drop_last();
        lemma_write_bytes_read_back(m, a, init);
        let w = write_bytes(m, a, bytes);
        assert forall|i: int| 0 <= i < bytes.len() implies #[trigger] bytes_at(w, a, bytes.len())[i] == bytes[i] by {
            assert(addr_add(a, i as u32) == a + i);
            assert(addr_add(a, (bytes.len() - 1) as u32) == a + bytes.len() - 1);
            if i < bytes.len() - 1 {
                assert(bytes_at(write_bytes(m, a, init), a, init.len())[i] == init[i]);
            }
        }
        assert(bytes_at(w, a, bytes.len()) =~= bytes);
    }
}

/// Writing bytes leaves every address outside the written range as it was.
pub proof fn lemma_write_bytes_elsewhere(m: Map<u32, u8>, a: u32, bytes: Seq<u8>, x: u32)
    requires
        a + bytes.len() <= u32::MAX + 1,
        x < a || x >= a + bytes.len(),
    ensures
        byte_at(write_bytes(m, a, bytes), x) == byte_at(m, x),
    decreases bytes.len(),
{
    if bytes.len() > 0 {
        lemma_write_bytes_elsewhere(m, a, bytes.drop_last(), x);
        assert(addr_add(a, (bytes.len() - 1) as u32) == a + bytes.len() - 1);
    }
}

} // verus!
