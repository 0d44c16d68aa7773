//! The loaded image's memory and the zero-initialised data region (BSS) that
//! the linker marks in it.

use vstd::prelude::*;

verus! {

/// The linker's symbols for the BSS region: it spans the addresses
/// `sbss..ebss`.
#[derive(Clone, Copy, Debug, PartialEq, Eq, Structural)]
pub struct Layout {
    pub sbss: usize,
    pub ebss: usize,
}

/// Memory as plain values: the address of the first byte, and the bytes.
pub ghost struct MemoryView {
    pub base: int,
    pub bytes: Seq<u8>,
}

impl MemoryView {
    /// Whether `a` is an address of this memory.
    pub open spec fn holds(self, a: int) -> bool {
        self.base <= a < self.base + self.bytes.len()
    }

    /// The byte at address `a`.
    pub open spec fn byte_at(self, a: int) -> u8 {
        self.bytes[a - self.base]
    }

    /// Whether the BSS region of `layout` lies inside this memory, with its
    /// start no later than its end.
    pub open spec fn contains_layout(self, layout: Layout) -> bool {
        self.base <= layout.sbss <= layout.ebss <= self.base + self.bytes.len()
    }
}

/// `bytes` with the positions `lo..hi` set to zero.
pub open spec fn zeroed(bytes: Seq<u8>, lo: int, hi: int) -> Seq<u8> {
    Seq::new(bytes.len(), |i: int| if lo <= i < hi { 0u8 } else { bytes[i] })
}

/// A contiguous run of bytes at a fixed address.
pub struct MemoryImage {
    base: usize,
    bytes: Vec<u8>,
}

impl View for MemoryImage {
    type V = MemoryView;

    closed spec fn view(&self) -> MemoryView {
        MemoryView { base: self.base as int, bytes: self.bytes@ }
    }
}

impl MemoryImage {
    /// The addresses fit the machine's word.
    pub open spec fn wf(&self) -> bool {
        self@.base + self@.bytes.len() <= usize::MAX
    }

    /// Memory that holds `bytes` from address `base` on.
    pub fn new(base: usize, bytes: Vec<u8>) -> (r: MemoryImage)
        requires
            base + bytes@.len() <= usize::MAX,
        ensures
            r@.base == base,
            r@.bytes == bytes@,
            r.wf(),
    {
        MemoryImage { base, bytes }
    }

    /// The address of the first byte.
    pub fn base(&self) -> (r: usize)
        ensures
            r == self@.base,
    {
        self.base
    }

    /// The number of bytes.
    pub fn len(&self) -> (r: usize)
        ensures
            r == self@.bytes.len(),
    {
        self.bytes.len()
    }

    /// Reads the byte at address `addr`.
    pub fn read(&self, addr: usize) -> (r: u8)
        requires
            self@.holds(addr as int),
        ensures
            r == self@.byte_at(addr as int),
    {
        self.bytes[addr - self.base]
    }

    /// Stores `value` at address `addr`.
    pub fn write(&mut self, addr: usize, value: u8)
        requires
            old(self)@.holds(addr as int),
        ensures
            final(self)@.base == old(self)@.base,
            final(self)@.bytes == old(self)@.bytes.update(addr - old(self)@.base, value),
    {
        let i: usize = addr - self.base;
        self.bytes.set(i, value);
    }
}

/// Zeroes the BSS region, one byte store per address, in increasing order.
/// An empty region (`sbss == ebss`) is left as it is. Every other byte keeps
/// its value.
pub fn clear_bss(mem: &mut MemoryImage, layout: &Layout)
    requires
        old(mem)@.contains_layout(*layout),
    ensures
        final(mem)@.base == old(mem)@.base,
        final(mem)@.bytes == zeroed(old(mem)@.bytes, layout.sbss - old(mem)@.base, layout.ebss - old(mem)@.base),
        forall|a: int| layout.sbss <= a < layout.ebss ==> #[trigger] final(mem)@.byte_at(a) == 0,
        forall|a: int| final(mem)@.holds(a) && !(layout.sbss <= a < layout.ebss)
            ==> #[trigger] final(mem)@.byte_at(a) == old(mem)@.byte_at(a),
{
    let ghost start: MemoryView = mem@;
    let ghost lo: int = layout.sbss - start.base;
    let ghost hi: int = layout.ebss - start.base;
    let mut a: usize = layout.sbss;
    proof {
        assert(mem@.bytes =~= zeroed(start.bytes, lo, lo));
    }
    while a < layout.ebss
        invariant
            layout.sbss <= a <= layout.ebss,
            start.contains_layout(*layout),
            lo == layout.sbss - start.base,
            hi == layout.ebss - start.base,
            mem@.base == start.base,
            mem@.bytes == zeroed(start.bytes, lo, a - start.base),
        decreases layout.ebss - a,
    {
        mem.write(a, 0u8);
        proof {
            assert(mem@.bytes =~= zeroed(start.bytes, lo, a + 1 - start.base));
        }
        a = a + 1;
    }
}

} // verus!
