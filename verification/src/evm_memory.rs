//! EVM memory and the instructions that read, write and size it.

use vstd::prelude::*;
use crate::error::ActorError;
use crate::evm_u256::{be_nat, U256, EVM_WORD_SIZE};

verus! {

/// Exit code for an out-of-range memory access.
pub const EVM_CONTRACT_ILLEGAL_MEMORY_ACCESS: u32 = 38;

/// 2^32, the bound on offsets and sizes of memory accesses.
pub open spec fn u32_bound() -> nat {
    0x1_0000_0000
}

/// `n` rounded up to a whole number of EVM words.
pub open spec fn round_up_to_word(n: int) -> int {
    (n + 31) / 32 * 32
}

/// Memory after growing to hold at least `size` bytes: unchanged when already large
/// enough, otherwise zero-extended to the next whole word.
pub open spec fn grown(m: Seq<u8>, size: int) -> Seq<u8> {
    if size <= m.len() {
        m
    } else {
        m + Seq::new((round_up_to_word(size) - m.len()) as nat, |i: int| 0u8)
    }
}

/// `m` with `data` written from `offset` on.
pub open spec fn write_at(m: Seq<u8>, offset: int, data: Seq<u8>) -> Seq<u8> {
    Seq::new(m.len(), |i: int| if offset <= i < offset + data.len() { data[i - offset] } else { m[i] })
}

/// A value that can index memory: a word or a native integer.
pub trait MemoryIndex {
    spec fn index_value(&self) -> nat;

    fn to_u32(&self) -> (res: Option<u32>)
        ensures
            res is Some <==> self.index_value() < u32_bound(),
            res matches Some(v) ==> v == self.index_value();
}

impl MemoryIndex for U256 {
    open spec fn index_value(&self) -> nat {
        self.value()
    }

    fn to_u32(&self) -> (res: Option<u32>) {
        U256::to_u32(self)
    }
}

impl MemoryIndex for usize {
    open spec fn index_value(&self) -> nat {
        *self as nat
    }

    fn to_u32(&self) -> (res: Option<u32>) {
        if *self <= 0xffff_ffff { Some(*self as u32) } else { None }
    }
}

/// The byte memory of an EVM execution.
#[derive(Debug)]
pub struct Memory {
    bytes: Vec<u8>,
}

impl View for Memory {
    type V = Seq<u8>;

    closed spec fn view(&self) -> Seq<u8> {
        self.bytes@
    }
}

impl Memory {
    /// Empty memory.
    pub fn new() -> (res: Memory)
        ensures
            res@ == Seq::<u8>::empty(),
    {
        Memory { bytes: Vec::new() }
    }

    /// Memory holding `bytes`.
    pub fn from_bytes(bytes: Vec<u8>) -> (res: Memory)
        ensures
            res@ == bytes@,
    {
        Memory { bytes }
    }

    /// Number of bytes of memory.
    pub fn len(&self) -> (res: usize)
        ensures
            res == self@.len(),
    {
        self.bytes.len()
    }

    /// The byte at `i`.
    pub fn get(&self, i: usize) -> (res: u8)
        requires
            i < self@.len(),
        ensures
            res == self@[i as int],
    {
        self.bytes[i]
    }

    /// Grows memory to hold at least `size` bytes, zero-filling whole words.
    pub fn grow(&mut self, size: usize)
        requires
            size + 31 <= usize::MAX,
        ensures
            final(self)@ == grown(old(self)@, size as int),
    {
        if size <= self.bytes.len() {
            return;
        }
        let target: usize = (size + 31) / 32 * 32;
        let ghost start = self.bytes@;
        while self.bytes.len() < target
            invariant
                start.len() <= self.bytes@.len() <= target,
                target == round_up_to_word(size as int),
                self.bytes@.subrange(0, start.len() as int) == start,
                forall|j: int| start.len() <= j < self.bytes@.len() ==> self.bytes@[j] == 0,
            decreases target - self.bytes.len(),
        {
            self.bytes.push(0);
        }
        assert(self.bytes@ =~= grown(start, size as int)) by {
            assert(self.bytes@.len() == target);
        }
    }

    /// Writes `data` from `offset` on.
    fn write(&mut self, offset: usize, data: &[u8])
        requires
            offset + data@.len() <= old(self)@.len(),
        ensures
            final(self)@ == write_at(old(self)@, offset as int, data@),
    {
        let _len = self.bytes.len();
        let mut i: usize = 0;
        while i < data.len()
            invariant
                i <= data@.len(),
                old(self)@.len() <= usize::MAX,
                offset + data@.len() <= old(self)@.len(),
                self@.len() == old(self)@.len(),
                forall|j: int| 0 <= j < self@.len() ==> #[trigger] self@[j] == if offset <= j < offset + i {
                    data@[j - offset]
                } else {
                    old(self)@[j]
                },
            decreases data@.len() - i,
        {
            self.bytes.set(offset + i, data[i]);
            i = i + 1;
        }
        assert(self@ =~= write_at(old(self)@, offset as int, data@));
    }

    /// Sets bytes `from..to` to zero.
    fn fill_zero(&mut self, from: usize, to: usize)
        requires
            from <= to <= old(self)@.len(),
        ensures
            final(self)@ == write_at(old(self)@, from as int, Seq::new((to - from) as nat, |i: int| 0u8)),
    {
        let mut i: usize = from;
        while i < to
            invariant
                from <= i <= to,
                to <= old(self)@.len(),
                self@.len() == old(self)@.len(),
                forall|j: int| 0 <= j < self@.len() ==> #[trigger] self@[j] == if from <= j < i {
                    0u8
                } else {
                    old(self)@[j]
                },
            decreases to - i,
        {
            self.bytes.set(i, 0);
            i = i + 1;
        }
        assert(self@ =~= write_at(old(self)@, from as int, Seq::new((to - from) as nat, |i: int| 0u8)));
    }

    /// The 32 bytes from `offset` as a word.
    fn read_word(&self, offset: usize) -> (res: U256)
        requires
            offset + 32 <= self@.len(),
        ensures
            res.bytes@ == self@.subrange(offset as int, offset + 32),
    {
        let mut out = [0u8; 32];
        let _len = self.bytes.len();
        let mut i: usize = 0;
        while i < 32
            invariant
                i <= 32,
                offset + 32 <= self@.len(),
                self@.len() <= usize::MAX,
                out@.len() == 32,
                forall|j: int| 0 <= j < i ==> out@[j] == self@[offset + j],
            decreases 32 - i,
        {
            out[i] = self.bytes[offset + i];
            i = i + 1;
        }
        assert(out@ =~= self@.subrange(offset as int, offset + 32));
        U256 { bytes: out }
    }
}

/// A non-empty range of memory: `offset .. offset + size`, with `size > 0`.
#[derive(Debug)]
pub struct MemoryRegion {
    pub offset: usize,
    pub size: usize,
}

/// The machine state an instruction acts on.
#[derive(Debug)]
pub struct ExecutionState {
    pub memory: Memory,
}

/// Whether `get_memory_region` succeeds on these values.
/// (The last condition, that the rounded-up size is addressable, only fails where `usize`
/// is narrower than 33 bits.)
pub open spec fn region_ok(offset: nat, size: nat) -> bool {
    size < u32_bound() && (size == 0 || (offset < u32_bound() && offset + size < u32_bound()
        && offset + size + 31 <= usize::MAX))
}

fn illegal_memory_access() -> (res: ActorError)
    ensures
        res.exit_code == EVM_CONTRACT_ILLEGAL_MEMORY_ACCESS,
{
    ActorError { exit_code: EVM_CONTRACT_ILLEGAL_MEMORY_ACCESS }
}

/// Checks an access of `size` bytes at `offset` (both below 2^32, and their sum too) and
/// grows memory to cover it. Returns `None` for an empty access, which needs no memory.
pub fn get_memory_region<O: MemoryIndex, S: MemoryIndex>(mem: &mut Memory, offset: &O, size: &S) -> (res: Result<Option<MemoryRegion>, ActorError>)
    ensures
        res is Ok <==> region_ok(offset.index_value(), size.index_value()),
        res matches Err(e) ==> e.exit_code == EVM_CONTRACT_ILLEGAL_MEMORY_ACCESS,
        res matches Ok(None) ==> size.index_value() == 0,
        res matches Ok(Some(r)) ==> size.index_value() > 0 && r.offset == offset.index_value()
            && r.size == size.index_value(),
        res matches Ok(Some(_)) ==> final(mem)@ == grown(old(mem)@, offset.index_value() + size.index_value() as int),
        !(res matches Ok(Some(_))) ==> final(mem)@ == old(mem)@,
{
    let size: u32 = match size.to_u32() {
        Some(s) => s,
        None => return Err(illegal_memory_access()),
    };
    if size == 0 {
        return Ok(None);
    }
    let offset: u32 = match offset.to_u32() {
        Some(o) => o,
        None => return Err(illegal_memory_access()),
    };
    let new_size: u32 = match offset.checked_add(size) {
        Some(n) => n,
        None => return Err(illegal_memory_access()),
    };
    if new_size as u64 + 31 > usize::MAX as u64 {
        return Err(illegal_memory_access());
    }
    mem.grow(new_size as usize);
    Ok(Some(MemoryRegion { offset: offset as usize, size: size as usize }))
}

/// `a` if it is below `b`, else `b`.
fn min_index(a: &U256, b: usize) -> (res: usize)
    ensures
        res == if a.value() < b { a.value() } else { b as nat },
{
    if a.lt_u64(b as u64) {
        a.low_u64() as usize
    } else {
        b
    }
}

/// Memory after `copy_to_memory` into a region of `size` bytes at `offset`: the
/// available data from `data_offset` on (at most `size` bytes) at the start of the
/// region, and zeros after it when `zero_fill`.
pub open spec fn copied(m: Seq<u8>, offset: int, size: int, data_offset: int, data: Seq<u8>, zero_fill: bool) -> Seq<u8> {
    let start = if data_offset < data.len() { data_offset } else { data.len() as int };
    let avail = data.len() - start;
    let copy_size = if size < avail { size } else { avail };
    let with_data = write_at(m, offset, data.subrange(start, start + copy_size));
    if zero_fill && size > copy_size {
        write_at(with_data, offset + copy_size, Seq::new((size - copy_size) as nat, |i: int| 0u8))
    } else {
        with_data
    }
}

/// Copies `data` from `data_offset` into the memory region `dest_offset .. dest_offset +
/// dest_size`, zero-filling what the data does not cover when `zero_fill`.
pub fn copy_to_memory(memory: &mut Memory, dest_offset: &U256, dest_size: &U256, data_offset: &U256, data: &[u8], zero_fill: bool) -> (res: Result<(), ActorError>)
    ensures
        res is Ok <==> region_ok(dest_offset.value(), dest_size.value()),
        res matches Err(e) ==> e.exit_code == EVM_CONTRACT_ILLEGAL_MEMORY_ACCESS && final(memory)@ == old(memory)@,
        res is Ok && dest_size.value() == 0 ==> final(memory)@ == old(memory)@,
        res is Ok && dest_size.value() > 0 ==> final(memory)@ == copied(
            grown(old(memory)@, dest_offset.value() + dest_size.value() as int),
            dest_offset.value() as int, dest_size.value() as int, data_offset.value() as int, data@, zero_fill),
{
    let region = get_memory_region(memory, dest_offset, dest_size)?;
    if let Some(region) = region {
        let ghost g = memory@;
        assert(g.len() >= region.offset + region.size) by {
            assert((region.offset + region.size + 31) / 32 * 32 >= region.offset + region.size) by (nonlinear_arith);
        }
        let data_len = data.len();
        let d_off = min_index(data_offset, data_len);
        let copy_size = min_index(dest_size, data_len - d_off);
        if copy_size > 0 {
            let src = slice_range(data, d_off, d_off + copy_size);
            memory.write(region.offset, src.as_slice());
        }
        let ghost with_data = memory@;
        assert(copy_size == 0 ==> with_data =~= write_at(g, region.offset as int, data@.subrange(d_off as int, d_off + copy_size)));
        if zero_fill && region.size > copy_size {
            memory.fill_zero(region.offset + copy_size, region.offset + region.size);
        }
    }
    Ok(())
}

/// The bytes `from..to` of a slice, copied.
fn slice_range(data: &[u8], from: usize, to: usize) -> (res: Vec<u8>)
    requires
        from <= to <= data@.len(),
    ensures
        res@ == data@.subrange(from as int, to as int),
{
    let mut out = Vec::new();
    let mut i = from;
    while i < to
        invariant
            from <= i <= to,
            to <= data@.len(),
            out@ == data@.subrange(from as int, i as int),
        decreases to - i,
    {
        out.push(data[i]);
        assert(data@.subrange(from as int, (i + 1) as int) =~= data@.subrange(from as int, i as int).push(data@[i as int]));
        i = i + 1;
    }
    out
}

/// MLOAD: the word at `index`, after growing memory to cover it.
pub fn mload(state: &mut ExecutionState, index: &U256) -> (res: Result<U256, ActorError>)
    ensures
        res is Ok <==> region_ok(index.value(), 32),
        res matches Err(e) ==> e.exit_code == EVM_CONTRACT_ILLEGAL_MEMORY_ACCESS
            && final(state).memory@ == old(state).memory@,
        res matches Ok(v) ==> final(state).memory@ == grown(old(state).memory@, index.value() + 32int)
            && v.bytes@ == final(state).memory@.subrange(index.value() as int, index.value() + 32int)
            && v.value() == be_nat(final(state).memory@.subrange(index.value() as int, index.value() + 32int)),
{
    let region = get_memory_region(&mut state.memory, index, &EVM_WORD_SIZE)?;
    let region = region.unwrap();
    assert(state.memory@.len() >= region.offset + 32) by {
        assert((region.offset + 32 + 31) / 32 * 32 >= region.offset + 32) by (nonlinear_arith);
    }
    let value = state.memory.read_word(region.offset);
    Ok(value)
}

/// MSTORE: writes the word's 32 big-endian bytes at `index`.
pub fn mstore(state: &mut ExecutionState, index: &U256, value: &U256) -> (res: Result<(), ActorError>)
    ensures
        res is Ok <==> region_ok(index.value(), 32),
        res matches Err(e) ==> e.exit_code == EVM_CONTRACT_ILLEGAL_MEMORY_ACCESS
            && final(state).memory@ == old(state).memory@,
        res is Ok ==> final(state).memory@ == write_at(grown(old(state).memory@, index.value() + 32int),
            index.value() as int, value.bytes@),
{
    let region = get_memory_region(&mut state.memory, index, &EVM_WORD_SIZE)?;
    let region = region.unwrap();
    assert(state.memory@.len() >= region.offset + 32) by {
        assert((region.offset + 32 + 31) / 32 * 32 >= region.offset + 32) by (nonlinear_arith);
    }
    let bytes = value.to_big_endian();
    state.memory.write(region.offset, bytes.as_slice());
    Ok(())
}

/// MSTORE8: writes the low byte of the word at `index`.
pub fn mstore8(state: &mut ExecutionState, index: &U256, value: &U256) -> (res: Result<(), ActorError>)
    ensures
        res is Ok <==> region_ok(index.value(), 1),
        res matches Err(e) ==> e.exit_code == EVM_CONTRACT_ILLEGAL_MEMORY_ACCESS
            && final(state).memory@ == old(state).memory@,
        res is Ok ==> final(state).memory@ == grown(old(state).memory@, index.value() + 1int).update(
            index.value() as int, (value.value() % 256) as u8),
{
    let one: usize = 1;
    let region = get_memory_region(&mut state.memory, index, &one)?;
    let region = region.unwrap();
    assert(state.memory@.len() >= region.offset + 1) by {
        assert((region.offset + 1 + 31) / 32 * 32 >= region.offset + 1) by (nonlinear_arith);
    }
    let low = value.low_u32();
    let byte = (low & 0xff) as u8;
    assert(low & 0xff == low % 256) by (bit_vector);
    assert(byte == value.value() % 256) by {
        vstd::arithmetic::div_mod::lemma_mod_mod(value.value() as int, 256, 0x100_0000);
    }
    state.memory.bytes.set(region.offset, byte);
    Ok(())
}

/// MSIZE: the memory size in bytes.
pub fn msize(state: &ExecutionState) -> (res: U256)
    ensures
        res.value() == state.memory@.len(),
{
    U256::from_u64(state.memory.len() as u64)
}

/// Reading a word back where it was just stored gives the stored word.
pub proof fn lemma_mload_after_mstore(m: Seq<u8>, index: int, value: U256)
    requires
        0 <= index,
        index + 32 < u32_bound(),
    ensures
        ({
            let stored = write_at(grown(m, index + 32), index, value.bytes@);
            &&& grown(stored, index + 32) == stored
            &&& stored.subrange(index, index + 32) == value.bytes@
            &&& be_nat(stored.subrange(index, index + 32)) == value.value()
        }),
{
    let g = grown(m, index + 32);
    assert(g.len() >= index + 32) by {
        assert((index + 32 + 31) / 32 * 32 >= index + 32) by (nonlinear_arith);
    }
    let stored = write_at(g, index as int, value.bytes@);
    assert(stored.subrange(index, index + 32) =~= value.bytes@);
}

/// Storing a word leaves every byte outside its 32 bytes as it was after growing.
pub proof fn lemma_mstore_frame(m: Seq<u8>, index: int, value: U256, j: int)
    requires
        0 <= index,
        index + 32 < u32_bound(),
        0 <= j < grown(m, index + 32).len(),
        j < index || j >= index + 32,
    ensures
        write_at(grown(m, index + 32), index, value.bytes@)[j] == grown(m, index + 32)[j],
{
}

} // verus!
