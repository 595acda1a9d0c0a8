use vstd::prelude::*;

verus! {

/// The flat memory model needs three segment descriptors: the mandatory
/// zero entry, one code segment and one data segment.
pub const GDT_ENTRIES: usize = 3;

/// One packed 64-bit segment descriptor.
#[derive(Clone, Copy, Debug, PartialEq, Eq, Structural)]
pub struct GdtEntry {
    pub entry: u64,
}

/// The global descriptor table for the flat memory model.
pub struct GlobalDescriptorTable {
    pub entries: Vec<GdtEntry>,
}

/// What the `lgdt` instruction takes: the table's byte size less one, and
/// its base address.
#[derive(Clone, Copy, Debug, PartialEq, Eq, Structural)]
pub struct GdtDescriptor {
    pub size: u16,
    pub offset: u64,
}

/// The flat code segment: limit 0xfffff over all memory (bits 0..16 and
/// 48..52), base 0, present (47), descriptor type (44), readable (41),
/// page granularity (55), 32-bit (54), and executable (43).
pub open spec fn spec_code_segment() -> u64 {
    0xffffu64 | (0xfu64 << 48) | (1u64 << 47) | (1u64 << 44) | (1u64 << 41) | (1u64 << 55) | (
    1u64 << 54) | (1u64 << 43)
}

/// The flat data segment: as the code segment, without the executable bit.
pub open spec fn spec_data_segment() -> u64 {
    0xffffu64 | (0xfu64 << 48) | (1u64 << 47) | (1u64 << 44) | (1u64 << 41) | (1u64 << 55) | (
    1u64 << 54)
}

impl GlobalDescriptorTable {
    /// The table holds exactly the three flat-model descriptors.
    pub open spec fn wf(self) -> bool {
        self.entries@.len() == GDT_ENTRIES
    }

    /// Builds the flat-model table: the zero entry, then the code segment,
    /// then the data segment.
    pub fn flat() -> (t: GlobalDescriptorTable)
        ensures
            t.wf(),
            t.entries@[0].entry == 0,
            t.entries@[1].entry == spec_code_segment(),
            t.entries@[2].entry == spec_data_segment(),
    {
        let zero = GdtEntry { entry: 0 };
        let code = GdtEntry {
            entry: 0xffffu64 | (0xfu64 << 48) | (1u64 << 47) | (1u64 << 44) | (1u64 << 41) | (
            1u64 << 55) | (1u64 << 54) | (1u64 << 43),
        };
        let data = GdtEntry {
            entry: 0xffffu64 | (0xfu64 << 48) | (1u64 << 47) | (1u64 << 44) | (1u64 << 41) | (
            1u64 << 55) | (1u64 << 54),
        };
        let mut entries: Vec<GdtEntry> = Vec::new();
        entries.push(zero);
        entries.push(code);
        entries.push(data);
        GlobalDescriptorTable { entries }
    }

    /// The operand the bootloader hands to `lgdt`: size in bytes less one,
    /// and the table's base address.
    pub fn descriptor(&self, base: u64) -> (d: GdtDescriptor)
        ensures
            d.size == GDT_ENTRIES * 8 - 1,
            d.offset == base,
    {
        GdtDescriptor { size: (GDT_ENTRIES * 8 - 1) as u16, offset: base }
    }
}

} // verus!
