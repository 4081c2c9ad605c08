//! Bounded, byte-addressable memory.
//!
//! Addresses are 16-bit offsets into a linear store of bytes. Every access
//! is bounds-checked: an address at or beyond the store's capacity never
//! succeeds, and never wraps. Multi-byte accesses are little-endian and are
//! built from the byte primitives, so they inherit their bounds behaviour;
//! they are not atomic, and a partial failure leaves the bytes already
//! written in place (a documented property, see `spec_write2` and
//! `spec_copy`).

use vstd::prelude::*;

verus! {

/// The highest address of the 16-bit address space. A byte one past an
/// address at this limit does not exist, whatever the store's capacity.
pub const ADDR_MAX: u16 = 0xffff;

/// What `read` returns: the byte at `addr`, or nothing when `addr` is
/// at or beyond the end of the store.
pub open spec fn spec_read(mem: Seq<u8>, addr: u16) -> Option<u8> {
    if (addr as int) < mem.len() {
        Some(mem[addr as int])
    } else {
        None
    }
}

/// Whether a single-byte write at `addr` succeeds.
pub open spec fn spec_write_ok(mem: Seq<u8>, addr: u16) -> bool {
    (addr as int) < mem.len()
}

/// What the store holds after `write`: the byte replaced in bounds, and
/// the store untouched out of bounds.
pub open spec fn spec_write(mem: Seq<u8>, addr: u16, value: u8) -> Seq<u8> {
    if (addr as int) < mem.len() {
        mem.update(addr as int, value)
    } else {
        mem
    }
}

/// Little-endian composition: the byte at the lower address is the low
/// byte of the 16-bit word.
pub open spec fn word_of(lo: u8, hi: u8) -> u16 {
    (lo as u16) | ((hi as u16) << 8)
}

/// Splitting a composed word gives back its two bytes: the low byte is
/// the word's low eight bits, the high byte the next eight.
pub proof fn lemma_word_of_parts(lo: u8, hi: u8)
    ensures
        (word_of(lo, hi) & 0xff) as u8 == lo,
        ((word_of(lo, hi) >> 8) & 0xff) as u8 == hi,
{
    assert(((((lo as u16) | ((hi as u16) << 8)) & 0xff) as u8) == lo) by (bit_vector);
    assert((((((lo as u16) | ((hi as u16) << 8)) >> 8) & 0xff) as u8) == hi) by (bit_vector);
}

/// Whether a two-byte access at `addr` stays inside both the store and
/// the 16-bit address space.
pub open spec fn spec_access2_ok(mem: Seq<u8>, addr: u16) -> bool {
    addr < ADDR_MAX && addr as int + 1 < mem.len()
}

/// What `read2` returns: the little-endian word at `addr`, or nothing
/// when either byte is unreachable.
pub open spec fn spec_read2(mem: Seq<u8>, addr: u16) -> Option<u16> {
    if spec_access2_ok(mem, addr) {
        Some(word_of(mem[addr as int], mem[addr as int + 1]))
    } else {
        None
    }
}

/// What the store holds after `write2`. The low byte goes first: when only
/// the low byte's address is in bounds, the low byte remains written even
/// though the call fails. This partial write is a documented property of
/// the two-byte operation, not an accident.
pub open spec fn spec_write2(mem: Seq<u8>, addr: u16, value: u16) -> Seq<u8> {
    let lo = (value & 0xff) as u8;
    let hi = ((value >> 8) & 0xff) as u8;
    if spec_access2_ok(mem, addr) {
        mem.update(addr as int, lo).update(addr as int + 1, hi)
    } else if (addr as int) < mem.len() {
        mem.update(addr as int, lo)
    } else {
        mem
    }
}

/// Whether the copy of byte `i` of a block transfer succeeds: both the
/// source and the destination offset must stay inside the store and
/// inside the 16-bit address space.
pub open spec fn copy_idx_ok(len: int, from: u16, to: u16, i: int) -> bool {
    &&& from + i <= ADDR_MAX
    &&& from + i < len
    &&& to + i <= ADDR_MAX
    &&& to + i < len
}

/// The result of a block copy of `n` bytes from `from` to `to`: whether it
/// succeeded, and the bytes it leaves behind. Bytes move one at a time in
/// ascending offset order, with no temporary buffer, so an overlapping
/// destination above the source observes bytes already overwritten by
/// earlier iterations. The first unreachable byte aborts the copy; the
/// bytes already copied stay written (non-atomic by design).
pub open spec fn spec_copy(mem: Seq<u8>, from: u16, to: u16, n: nat) -> (bool, Seq<u8>)
    decreases n,
{
    if n == 0 {
        (true, mem)
    } else {
        let prev = spec_copy(mem, from, to, (n - 1) as nat);
        if !prev.0 {
            prev
        } else {
            let i = n - 1;
            if copy_idx_ok(mem.len() as int, from, to, i) {
                (true, prev.1.update(to + i, prev.1[from + i]))
            } else {
                (false, prev.1)
            }
        }
    }
}

/// A block copy never changes the store's length.
pub proof fn lemma_copy_len(mem: Seq<u8>, from: u16, to: u16, n: nat)
    ensures
        spec_copy(mem, from, to, n).1.len() == mem.len(),
    decreases n,
{
    if n > 0 {
        lemma_copy_len(mem, from, to, (n - 1) as nat);
    }
}

/// Once a block copy has failed, copying further bytes changes nothing:
/// the result of the longer copy is the result at the point of failure.
pub proof fn lemma_copy_fail_stable(mem: Seq<u8>, from: u16, to: u16, k: nat, n: nat)
    requires
        k <= n,
        !spec_copy(mem, from, to, k).0,
    ensures
        spec_copy(mem, from, to, n) == spec_copy(mem, from, to, k),
    decreases n,
{
    if n > k {
        lemma_copy_fail_stable(mem, from, to, k, (n - 1) as nat);
    }
}

/// A block copy whose first `k` bytes are all reachable succeeds up to `k`.
pub proof fn lemma_copy_ok_prefix(mem: Seq<u8>, from: u16, to: u16, k: nat)
    requires
        forall|j: int| 0 <= j < k ==> copy_idx_ok(mem.len() as int, from, to, j),
    ensures
        spec_copy(mem, from, to, k).0,
    decreases k,
{
    if k > 0 {
        lemma_copy_ok_prefix(mem, from, to, (k - 1) as nat);
    }
}

/// Law: a successful write followed by a read at the same address yields
/// the byte just written.
pub proof fn lemma_write_then_read(mem: Seq<u8>, addr: u16, value: u8)
    requires
        (addr as int) < mem.len(),
    ensures
        spec_write_ok(mem, addr),
        spec_read(spec_write(mem, addr, value), addr) == Some(value),
{
}

/// Law: an access at or beyond the capacity returns no value, reports
/// failure, and alters no byte of the store.
pub proof fn lemma_out_of_bounds_access(mem: Seq<u8>, addr: u16, value: u8)
    requires
        (addr as int) >= mem.len(),
    ensures
        spec_read(mem, addr) is None,
        !spec_write_ok(mem, addr),
        spec_write(mem, addr, value) == mem,
{
}

/// Law: a two-byte write followed by a two-byte read at the same address
/// yields the word just written; the low byte sits at the lower address
/// and the high byte at the one above it (little-endian).
pub proof fn lemma_write2_then_read2(mem: Seq<u8>, addr: u16, value: u16)
    requires
        spec_access2_ok(mem, addr),
    ensures
        spec_read2(spec_write2(mem, addr, value), addr) == Some(value),
        spec_write2(mem, addr, value)[addr as int] == (value & 0xff) as u8,
        spec_write2(mem, addr, value)[addr as int + 1] == ((value >> 8) & 0xff) as u8,
{
    let lo = (value & 0xff) as u8;
    let hi = ((value >> 8) & 0xff) as u8;
    assert(((value & 0xff) as u8 as u16) | ((((value >> 8) & 0xff) as u8 as u16) << 8) == value)
        by (bit_vector);
    assert(word_of(lo, hi) == value);
}

/// Law: a block copy between in-bounds, non-overlapping ranges succeeds,
/// reproduces the source bytes exactly at the destination, and leaves
/// every byte outside the destination range — the source included —
/// unchanged.
pub proof fn lemma_copy_disjoint(mem: Seq<u8>, from: u16, to: u16, n: nat)
    requires
        from + n <= mem.len(),
        to + n <= mem.len(),
        from + n <= ADDR_MAX + 1,
        to + n <= ADDR_MAX + 1,
        to + n <= from || from + n <= to,
    ensures
        spec_copy(mem, from, to, n).0,
        forall|j: int|
            to <= j < to + n ==> #[trigger] spec_copy(mem, from, to, n).1[j] == mem[from + j - to],
        forall|j: int|
            0 <= j < mem.len() && !(to <= j < to + n) ==> #[trigger] spec_copy(
                mem,
                from,
                to,
                n,
            ).1[j] == mem[j],
    decreases n,
{
    if n > 0 {
        lemma_copy_disjoint(mem, from, to, (n - 1) as nat);
        lemma_copy_len(mem, from, to, (n - 1) as nat);
        let prev = spec_copy(mem, from, to, (n - 1) as nat);
        let i = n - 1;
        assert(prev.1[from + i] == mem[from + i]);
        assert(spec_copy(mem, from, to, n).1 == prev.1.update(to + i, prev.1[from + i]));
    }
}

/// Law: a block copy with an unreachable byte at offset `k` — the first
/// such offset — fails, and leaves exactly the bytes copied before the
/// failing offset written.
pub proof fn lemma_copy_fault(mem: Seq<u8>, from: u16, to: u16, n: nat, k: nat)
    requires
        k < n,
        !copy_idx_ok(mem.len() as int, from, to, k as int),
        forall|j: int| 0 <= j < k ==> copy_idx_ok(mem.len() as int, from, to, j),
    ensures
        spec_copy(mem, from, to, k).0,
        !spec_copy(mem, from, to, n).0,
        spec_copy(mem, from, to, n).1 == spec_copy(mem, from, to, k).1,
{
    lemma_copy_ok_prefix(mem, from, to, k);
    assert(!spec_copy(mem, from, to, (k + 1) as nat).0);
    lemma_copy_fail_stable(mem, from, to, (k + 1) as nat, n);
}

/// A store readable and writable one byte at a time over a bounded
/// 16-bit address space, with derived two-byte and block-copy helpers.
pub trait Addressable: Sized {
    /// The bytes of the store, one per address from zero up; its length
    /// is the store's capacity.
    spec fn mem(&self) -> Seq<u8>;

    /// Return the byte at `addr`, or nothing when `addr` is out of
    /// bounds. No side effects.
    fn read(&self, addr: u16) -> (r: Option<u8>)
        ensures
            r == spec_read(self.mem(), addr),
    ;

    /// Store `value` at `addr`. Out of bounds: no mutation, `false`.
    fn write(&mut self, addr: u16, value: u8) -> (r: bool)
        ensures
            r == spec_write_ok(old(self).mem(), addr),
            final(self).mem() == spec_write(old(self).mem(), addr, value),
    ;

    /// Read the little-endian 16-bit word whose low byte sits at `addr`
    /// and whose high byte sits at `addr + 1`. Fails when either byte is
    /// out of bounds, or when `addr + 1` leaves the 16-bit address space.
    fn read2(&self, addr: u16) -> (r: Option<u16>)
        ensures
            r == spec_read2(self.mem(), addr),
    {
        if addr == ADDR_MAX {
            None
        } else {
            match self.read(addr) {
                Some(lo) => match self.read(addr + 1) {
                    Some(hi) => Some((lo as u16) | ((hi as u16) << 8)),
                    None => None,
                },
                None => None,
            }
        }
    }

    /// Write `value` as two bytes, low byte at `addr` first. Succeeds only
    /// when both writes do; when the low byte lands and the high byte
    /// cannot, the low byte stays written (non-atomic by design).
    fn write2(&mut self, addr: u16, value: u16) -> (r: bool)
        ensures
            r == spec_access2_ok(old(self).mem(), addr),
            final(self).mem() == spec_write2(old(self).mem(), addr, value),
    {
        let lo = (value & 0xff) as u8;
        let hi = ((value >> 8) & 0xff) as u8;
        if !self.write(addr, lo) {
            return false;
        }
        if addr == ADDR_MAX {
            return false;
        }
        self.write(addr + 1, hi)
    }

    /// Copy `n` bytes from `from` to `to`, one byte at a time in ascending
    /// offset order with no temporary buffer (see `spec_copy` for the
    /// overlap and partial-failure behaviour). Returns `false` on the
    /// first byte that cannot be read or written, leaving the bytes
    /// already copied in place.
    fn copy(&mut self, from: u16, to: u16, n: usize) -> (r: bool)
        ensures
            (r, final(self).mem()) == spec_copy(old(self).mem(), from, to, n as nat),
    {
        let mut i: usize = 0;
        while i < n
            invariant
                i <= n,
                spec_copy(old(self).mem(), from, to, i as nat) == (true, self.mem()),
            decreases n - i,
        {
            proof {
                lemma_copy_len(old(self).mem(), from, to, i as nat);
            }
            let src_fail = i > (ADDR_MAX as usize) - (from as usize);
            if src_fail {
                proof {
                    lemma_copy_fail_stable(old(self).mem(), from, to, (i + 1) as nat, n as nat);
                }
                return false;
            }
            let src = from + (i as u16);
            let value = match self.read(src) {
                Some(v) => v,
                None => {
                    proof {
                        lemma_copy_fail_stable(
                            old(self).mem(),
                            from,
                            to,
                            (i + 1) as nat,
                            n as nat,
                        );
                    }
                    return false;
                },
            };
            let dst_fail = i > (ADDR_MAX as usize) - (to as usize);
            if dst_fail {
                proof {
                    lemma_copy_fail_stable(old(self).mem(), from, to, (i + 1) as nat, n as nat);
                }
                return false;
            }
            let dst = to + (i as u16);
            if !self.write(dst, value) {
                proof {
                    lemma_copy_fail_stable(old(self).mem(), from, to, (i + 1) as nat, n as nat);
                }
                return false;
            }
            i = i + 1;
        }
        true
    }
}

/// A fixed-capacity, zero-initialized byte store. The capacity is set at
/// construction and never changes.
pub struct LinearMemory {
    bytes: Vec<u8>,
    size: usize,
}

impl LinearMemory {
    /// The buffer always holds exactly `size` bytes.
    #[verifier::type_invariant]
    spec fn wf(self) -> bool {
        self.bytes@.len() == self.size
    }

    /// Create a store of `n` bytes, all zero.
    pub fn new(n: usize) -> (m: LinearMemory)
        ensures
            m.mem().len() == n,
            forall|i: int| 0 <= i < n ==> m.mem()[i] == 0u8,
    {
        let mut bytes: Vec<u8> = Vec::new();
        let mut i: usize = 0;
        while i < n
            invariant
                i <= n,
                bytes@.len() == i,
                forall|j: int| 0 <= j < i ==> bytes@[j] == 0u8,
            decreases n - i,
        {
            bytes.push(0u8);
            i = i + 1;
        }
        LinearMemory { bytes, size: n }
    }
}

impl Addressable for LinearMemory {
    closed spec fn mem(&self) -> Seq<u8> {
        self.bytes@
    }

    fn read(&self, addr: u16) -> (r: Option<u8>)
        ensures
            r == spec_read(self.mem(), addr),
    {
        proof {
            use_type_invariant(self);
        }
        if (addr as usize) < self.size {
            Some(self.bytes[addr as usize])
        } else {
            None
        }
    }

    fn write(&mut self, addr: u16, value: u8) -> (r: bool)
        ensures
            r == spec_write_ok(old(self).mem(), addr),
            final(self).mem() == spec_write(old(self).mem(), addr, value),
    {
        proof {
            use_type_invariant(&*self);
        }
        if (addr as usize) < self.size {
            self.bytes[addr as usize] = value;
            true
        } else {
            false
        }
    }
}

} // verus!
