use vstd::prelude::*;

verus! {

/// An address in the target process. Targets are 32-bit, so a pointer
/// stored in their memory is four bytes wide.
pub type Address = u32;

/// Reduces a mathematical integer to the 32-bit address space.
pub open spec fn wrap(x: int) -> u32 {
    (x % 0x1_0000_0000) as u32
}

/// Address-space addition: `value + offset`, wrapping at the top of the
/// 32-bit space.
pub fn displace(value: u32, offset: u32) -> (r: u32)
    ensures
        r == wrap(value + offset),
{
    let wide: u64 = value as u64 + offset as u64;
    (wide % 0x1_0000_0000) as u32
}

/// A base address and the offsets that lead from it to a value that the
/// target allocates dynamically.
#[derive(Debug)]
pub struct PointerChain {
    pub base_address: u32,
    pub offsets: Vec<u32>,
}

/// A pointer chain as a mathematical value.
pub struct ChainModel {
    pub base_address: u32,
    pub offsets: Seq<u32>,
}

impl View for PointerChain {
    type V = ChainModel;

    open spec fn view(&self) -> ChainModel {
        ChainModel { base_address: self.base_address, offsets: self.offsets@ }
    }
}

impl PointerChain {
    /// A chain from its base address and its offsets, in the order in which
    /// they are applied.
    pub fn new(base_address: u32, offsets: Vec<u32>) -> (chain: PointerChain)
        ensures
            chain == (PointerChain { base_address, offsets }),
    {
        PointerChain { base_address, offsets }
    }

    /// The number of offsets, which is also the number of reads that a
    /// successful resolution costs.
    pub fn depth(&self) -> (k: usize)
        ensures
            k == self.offsets@.len(),
    {
        self.offsets.len()
    }

    /// A copy with the same base and the same offsets.
    pub fn duplicate(&self) -> (copy: PointerChain)
        ensures
            copy@ == self@,
    {
        let mut offsets: Vec<u32> = Vec::new();
        let mut i: usize = 0;
        while i < self.offsets.len()
            invariant
                i <= self.offsets@.len(),
                offsets@ == self.offsets@.take(i as int),
            decreases self.offsets@.len() - i,
        {
            offsets.push(self.offsets[i]);
            assert(self.offsets@.take(i as int).push(self.offsets@[i as int])
                =~= self.offsets@.take(i as int + 1));
            i += 1;
        }
        assert(self.offsets@.take(i as int) =~= self.offsets@);
        PointerChain { base_address: self.base_address, offsets }
    }
}

/// The address of slot `index` in a table that starts `base_offset` bytes
/// after `base` and whose slots lie `stride` bytes apart.
pub open spec fn slot_address_at(base: u32, base_offset: u32, stride: u32, index: int) -> u32 {
    wrap(base + base_offset + index * stride)
}

/// Where the slots of a table lie, relative to a resolved base.
#[derive(Clone, Copy, Debug, PartialEq, Eq, Structural)]
pub struct SlotLayout {
    pub slot_count: u32,
    pub slot_stride: u32,
    pub slot_base_offset: u32,
}

impl SlotLayout {
    /// The address of one slot. Defined for every index; a table only
    /// uses those below `slot_count`.
    pub fn slot_address(&self, base: u32, index: u32) -> (r: u32)
        ensures
            r == slot_address_at(base, self.slot_base_offset, self.slot_stride, index as int),
    {
        assert(index * self.slot_stride <= 0xffff_ffff * 0xffff_ffff) by (nonlinear_arith)
            requires
                0 <= index <= 0xffff_ffff,
                0 <= self.slot_stride <= 0xffff_ffff,
        ;
        let span: u64 = (index as u64) * (self.slot_stride as u64);
        let wide: u64 = span + base as u64 + self.slot_base_offset as u64;
        (wide % 0x1_0000_0000) as u32
    }

    /// The addresses of all slots, in index order.
    pub fn addresses(&self, base: u32) -> (list: Vec<u32>)
        ensures
            list@.len() == self.slot_count,
            forall|i: int|
                0 <= i < self.slot_count ==> list@[i] == slot_address_at(
                    base,
                    self.slot_base_offset,
                    self.slot_stride,
                    i,
                ),
    {
        let mut list: Vec<u32> = Vec::new();
        let mut i: u32 = 0;
        while i < self.slot_count
            invariant
                i <= self.slot_count,
                list@.len() == i,
                forall|j: int|
                    0 <= j < i ==> list@[j] == slot_address_at(
                        base,
                        self.slot_base_offset,
                        self.slot_stride,
                        j,
                    ),
            decreases self.slot_count - i,
        {
            list.push(self.slot_address(base, i));
            i += 1;
        }
        list
    }
}

/// A table of equally spaced slots behind one pointer chain.
#[derive(Debug)]
pub struct SlotTable {
    pub chain: PointerChain,
    pub slot_count: u32,
    pub slot_stride: u32,
    pub slot_base_offset: u32,
}

impl SlotTable {
    /// A table of `slot_count` slots, `slot_stride` bytes apart, the first
    /// of them `slot_base_offset` bytes after the address that `chain` names.
    pub fn new(chain: PointerChain, slot_count: u32, slot_stride: u32, slot_base_offset: u32) -> (table:
        SlotTable)
        ensures
            table.chain == chain,
            table.slot_count == slot_count,
            table.slot_stride == slot_stride,
            table.slot_base_offset == slot_base_offset,
    {
        SlotTable { chain, slot_count, slot_stride, slot_base_offset }
    }

    /// The table's geometry without its chain.
    pub open spec fn layout_spec(&self) -> SlotLayout {
        SlotLayout {
            slot_count: self.slot_count,
            slot_stride: self.slot_stride,
            slot_base_offset: self.slot_base_offset,
        }
    }

    /// The table's geometry without its chain.
    pub fn layout(&self) -> (layout: SlotLayout)
        ensures
            layout == self.layout_spec(),
    {
        SlotLayout {
            slot_count: self.slot_count,
            slot_stride: self.slot_stride,
            slot_base_offset: self.slot_base_offset,
        }
    }

    /// The address of slot `index` once the chain has resolved to `base`.
    pub fn slot_address(&self, base: u32, index: u32) -> (r: u32)
        ensures
            r == slot_address_at(base, self.slot_base_offset, self.slot_stride, index as int),
    {
        self.layout().slot_address(base, index)
    }

    /// The addresses of all slots for one resolved base, in index order.
    /// Nothing is kept between calls: each cycle computes them afresh.
    pub fn slot_addresses(&self, base: u32) -> (list: Vec<u32>)
        ensures
            list@.len() == self.slot_count,
            forall|i: int|
                0 <= i < self.slot_count ==> list@[i] == slot_address_at(
                    base,
                    self.slot_base_offset,
                    self.slot_stride,
                    i,
                ),
    {
        self.layout().addresses(base)
    }

    /// A copy with the same chain and geometry.
    pub fn duplicate(&self) -> (copy: SlotTable)
        ensures
            copy.chain@ == self.chain@,
            copy.layout_spec() == self.layout_spec(),
    {
        SlotTable {
            chain: self.chain.duplicate(),
            slot_count: self.slot_count,
            slot_stride: self.slot_stride,
            slot_base_offset: self.slot_base_offset,
        }
    }
}

} // verus!
