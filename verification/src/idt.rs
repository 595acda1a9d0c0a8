use vstd::prelude::*;

verus! {

/// Number of interrupt vectors the table covers.
pub const IDT_ENTRIES: usize = 256;

/// Width of one descriptor in bytes: two offset halves, a selector, a
/// reserved byte and the flags.
pub const IDT_ENTRY_BYTES: usize = 8;

/// One interrupt descriptor: the handler address split in two 16-bit
/// halves around the code-segment selector and the flags byte.
#[derive(Clone, Copy, Debug, PartialEq, Eq, Structural)]
pub struct IdtEntry {
    pub offset_low: u16,
    pub segment_selector: u16,
    pub reserved: u8,
    pub flags: u8,
    pub offset_high: u16,
}

/// The low 16 bits of a handler address.
pub open spec fn spec_offset_low(offset: u32) -> u16 {
    (offset & 0xffff) as u16
}

/// The high 16 bits of a handler address.
pub open spec fn spec_offset_high(offset: u32) -> u16 {
    (offset >> 16) as u16
}

/// `e` with its offset halves pointing at `offset`, all else kept.
pub open spec fn spec_with_offset(e: IdtEntry, offset: u32) -> IdtEntry {
    IdtEntry {
        offset_low: spec_offset_low(offset),
        offset_high: spec_offset_high(offset),
        ..e
    }
}

/// The descriptor every vector starts from: no handler yet, the kernel
/// code segment (selector 8: ring 0, global table, entry 1), and flags
/// 0x8e (present, ring 0, 32-bit interrupt type).
pub open spec fn spec_default_gate() -> IdtEntry {
    IdtEntry { offset_low: 0, segment_selector: 8, reserved: 0, flags: 0x8e, offset_high: 0 }
}

impl IdtEntry {
    /// Points this descriptor's offset halves at `offset`, keeping the
    /// selector and flags.
    pub fn set(&mut self, offset: u32)
        ensures
            *final(self) == spec_with_offset(*old(self), offset),
    {
        proof {
            assert((offset << 16) >> 16 == offset & 0xffff) by (bit_vector);
            assert(offset & 0xffff <= 0xffff) by (bit_vector);
            assert(offset >> 16 <= 0xffff) by (bit_vector);
        }
        self.offset_low = ((offset << 16) >> 16) as u16;
        self.offset_high = (offset >> 16) as u16;
    }

    /// The descriptor every vector starts from.
    pub fn default_gate() -> (e: IdtEntry)
        ensures
            e == spec_default_gate(),
    {
        IdtEntry { offset_low: 0, segment_selector: 8, reserved: 0, flags: 0x8e, offset_high: 0 }
    }
}

/// The interrupt descriptor table: one descriptor per vector.
pub struct InterruptDescriptorTable {
    pub entries: Vec<IdtEntry>,
}

/// What the `lidt` instruction takes: the table's byte size less one, and
/// its base address.
#[derive(Clone, Copy, Debug, PartialEq, Eq, Structural)]
pub struct IdtDescriptor {
    pub size: u16,
    pub offset: u64,
}

impl InterruptDescriptorTable {
    /// The table holds exactly one descriptor per vector.
    pub open spec fn wf(self) -> bool {
        self.entries@.len() == IDT_ENTRIES
    }

    /// A table of default descriptors.
    pub fn new() -> (t: InterruptDescriptorTable)
        ensures
            t.wf(),
            forall|i: int| 0 <= i < IDT_ENTRIES ==> t.entries@[i] == spec_default_gate(),
    {
        let mut entries: Vec<IdtEntry> = Vec::new();
        let mut i: usize = 0;
        while i < IDT_ENTRIES
            invariant
                i <= IDT_ENTRIES,
                entries@.len() == i as int,
                forall|j: int| 0 <= j < i ==> entries@[j] == spec_default_gate(),
            decreases IDT_ENTRIES - i,
        {
            entries.push(IdtEntry::default_gate());
            i = i + 1;
        }
        InterruptDescriptorTable { entries }
    }

    /// Points the descriptor of the given vector at `handler`.
    pub fn add(&mut self, vector: usize, handler: u32)
        requires
            old(self).wf(),
            vector < IDT_ENTRIES,
        ensures
            final(self).wf(),
            final(self).entries@ == old(self).entries@.update(
                vector as int,
                spec_with_offset(old(self).entries@[vector as int], handler),
            ),
    {
        let mut e = self.entries[vector];
        e.set(handler);
        self.entries.set(vector, e);
    }

    /// Points every vector at the same handler, as the kernel does before
    /// installing specific ones.
    pub fn init(&mut self, handler: u32)
        requires
            old(self).wf(),
        ensures
            final(self).wf(),
            forall|i: int|
                0 <= i < IDT_ENTRIES ==> final(self).entries@[i] == spec_with_offset(
                    old(self).entries@[i],
                    handler,
                ),
    {
        let mut i: usize = 0;
        while i < IDT_ENTRIES
            invariant
                i <= IDT_ENTRIES,
                self.wf(),
                forall|j: int|
                    0 <= j < i ==> self.entries@[j] == spec_with_offset(
                        old(self).entries@[j],
                        handler,
                    ),
                forall|j: int| i <= j < IDT_ENTRIES ==> self.entries@[j] == old(self).entries@[j],
            decreases IDT_ENTRIES - i,
        {
            self.add(i, handler);
            i = i + 1;
        }
    }

    /// Installs the cpu-exception handlers: `handlers` holds one address
    /// per exception in vector order, and they land on vectors 0 through
    /// 21, skipping the reserved vector 15. Every other vector is untouched.
    pub fn add_exceptions(&mut self, handlers: &Vec<u32>)
        requires
            old(self).wf(),
            handlers@.len() == 21,
        ensures
            final(self).wf(),
            forall|v: int|
                0 <= v < 15 ==> final(self).entries@[v] == spec_with_offset(
                    old(self).entries@[v],
                    handlers@[v],
                ),
            final(self).entries@[15] == old(self).entries@[15],
            forall|v: int|
                16 <= v < 22 ==> final(self).entries@[v] == spec_with_offset(
                    old(self).entries@[v],
                    handlers@[v - 1],
                ),
            forall|v: int|
                22 <= v < IDT_ENTRIES ==> final(self).entries@[v] == old(self).entries@[v],
    {
        self.add(0x00, handlers[0]);
        self.add(0x01, handlers[1]);
        self.add(0x02, handlers[2]);
        self.add(0x03, handlers[3]);
        self.add(0x04, handlers[4]);
        self.add(0x05, handlers[5]);
        self.add(0x06, handlers[6]);
        self.add(0x07, handlers[7]);
        self.add(0x08, handlers[8]);
        self.add(0x09, handlers[9]);
        self.add(0x0A, handlers[10]);
        self.add(0x0B, handlers[11]);
        self.add(0x0C, handlers[12]);
        self.add(0x0D, handlers[13]);
        self.add(0x0E, handlers[14]);
        self.add(0x10, handlers[15]);
        self.add(0x11, handlers[16]);
        self.add(0x12, handlers[17]);
        self.add(0x13, handlers[18]);
        self.add(0x14, handlers[19]);
        self.add(0x15, handlers[20]);
    }

    /// The operand the kernel hands to `lidt`: size in bytes less one, and
    /// the table's base address.
    pub fn descriptor(&self, base: u64) -> (d: IdtDescriptor)
        ensures
            d.size == IDT_ENTRIES * IDT_ENTRY_BYTES - 1,
            d.offset == base,
    {
        IdtDescriptor { size: (IDT_ENTRIES * IDT_ENTRY_BYTES - 1) as u16, offset: base }
    }
}

} // verus!
