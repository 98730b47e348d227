//! The Fixed ACPI Description Table ("FACP"): the ACPI 1.0 fixed layout,
//! the optional ACPI 2.0+ extension block appended after it, and the
//! typed wrapper that enforces tag and minimum size.

use crate::sdt::Sdt;
use crate::sdt::SdtHeader;
use crate::sdt::header_from_bytes;
use crate::sdt::spec_header_matches;
use crate::sdt::spec_tag;
use crate::sdt::wf_table;
use vstd::bytes::spec_u16_from_le_bytes;
use vstd::bytes::spec_u32_from_le_bytes;
use vstd::bytes::spec_u64_from_le_bytes;
use vstd::bytes::u16_from_le_bytes;
use vstd::bytes::u32_from_le_bytes;
use vstd::bytes::u64_from_le_bytes;
use vstd::prelude::*;
use vstd::slice::slice_subrange;

verus! {

/// Size in bytes of the ACPI 1.0 fixed FADT layout, header included.
pub const FADT_V1_LEN: usize = 116;

/// Size in bytes of the ACPI 2.0+ extension block that may follow it.
pub const FADT_ACPI2_EXT_LEN: usize = 128;

/// The 4-byte tag of the FADT.
pub open spec fn spec_facp_tag() -> Seq<u8> {
    seq![70u8, 65u8, 67u8, 80u8]
}

/// The FADT tag, "FACP", as bytes.
pub fn facp_tag() -> (t: [u8; 4])
    ensures
        t@ == spec_facp_tag(),
{
    let t: [u8; 4] = [70, 65, 67, 80];
    proof {
        assert(t@ =~= spec_facp_tag());
    }
    t
}

/// One generic address structure: an address space tag, a register
/// window inside it, and a 64-bit address.
#[derive(Clone, Copy, Debug, Default)]
pub struct GenericAddressStructure {
    pub address_space: u8,
    pub bit_width: u8,
    pub bit_offset: u8,
    pub access_size: u8,
    pub address: u64,
}

/// Whether `g` holds the 12 bytes laid out at offset `at` of `b`.
pub open spec fn spec_gas_matches(g: GenericAddressStructure, b: Seq<u8>, at: int) -> bool
    recommends
        at + 12 <= b.len(),
{
    &&& g.address_space == b[at]
    &&& g.bit_width == b[at + 1]
    &&& g.bit_offset == b[at + 2]
    &&& g.access_size == b[at + 3]
    &&& g.address == spec_u64_from_le_bytes(b.subrange(at + 4, at + 12))
}

/// Reads one generic address structure at offset `at` of `b`.
fn gas_from_bytes(b: &[u8], at: usize) -> (g: GenericAddressStructure)
    requires
        at + 12 <= b@.len(),
    ensures
        spec_gas_matches(g, b@, at as int),
{
    GenericAddressStructure {
        address_space: b[at],
        bit_width: b[at + 1],
        bit_offset: b[at + 2],
        access_size: b[at + 3],
        address: u64_from_le_bytes(slice_subrange(b, at + 4, at + 12)),
    }
}

/// The ACPI 1.0 fixed FADT layout, through its flags field.
#[derive(Clone, Copy, Debug)]
pub struct FadtStruct {
    pub header: SdtHeader,
    pub firmware_ctrl: u32,
    pub dsdt: u32,
    pub reserved: u8,
    pub preferred_power_managament: u8,
    pub sci_interrupt: u16,
    pub smi_command_port: u32,
    pub acpi_enable: u8,
    pub acpi_disable: u8,
    pub s4_bios_req: u8,
    pub pstate_control: u8,
    pub pm1a_event_block: u32,
    pub pm1b_event_block: u32,
    pub pm1a_control_block: u32,
    pub pm1b_control_block: u32,
    pub pm2_control_block: u32,
    pub pm_timer_block: u32,
    pub gpe0_block: u32,
    pub gpe1_block: u32,
    pub pm1_event_length: u8,
    pub pm1_control_length: u8,
    pub pm2_control_length: u8,
    pub pm_timer_length: u8,
    pub gpe0_ength: u8,
    pub gpe1_length: u8,
    pub gpe1_base: u8,
    pub c_state_control: u8,
    pub worst_c2_latency: u16,
    pub worst_c3_latency: u16,
    pub flush_size: u16,
    pub flush_stride: u16,
    pub duty_offset: u8,
    pub duty_width: u8,
    pub day_alarm: u8,
    pub month_alarm: u8,
    pub century: u8,
    pub boot_architecture_flags: u16,
    pub reserved2: u8,
    pub flags: u32,
}

/// Whether `f` holds exactly what the first 116 bytes of `b` lay out.
pub open spec fn spec_fadt_matches(f: FadtStruct, b: Seq<u8>) -> bool
    recommends
        b.len() >= FADT_V1_LEN,
{
    &&& spec_header_matches(f.header, b)
    &&& f.firmware_ctrl == spec_u32_from_le_bytes(b.subrange(36, 40))
    &&& f.dsdt == spec_u32_from_le_bytes(b.subrange(40, 44))
    &&& f.reserved == b[44]
    &&& f.preferred_power_managament == b[45]
    &&& f.sci_interrupt == spec_u16_from_le_bytes(b.subrange(46, 48))
    &&& f.smi_command_port == spec_u32_from_le_bytes(b.subrange(48, 52))
    &&& f.acpi_enable == b[52]
    &&& f.acpi_disable == b[53]
    &&& f.s4_bios_req == b[54]
    &&& f.pstate_control == b[55]
    &&& f.pm1a_event_block == spec_u32_from_le_bytes(b.subrange(56, 60))
    &&& f.pm1b_event_block == spec_u32_from_le_bytes(b.subrange(60, 64))
    &&& f.pm1a_control_block == spec_u32_from_le_bytes(b.subrange(64, 68))
    &&& f.pm1b_control_block == spec_u32_from_le_bytes(b.subrange(68, 72))
    &&& f.pm2_control_block == spec_u32_from_le_bytes(b.subrange(72, 76))
    &&& f.pm_timer_block == spec_u32_from_le_bytes(b.subrange(76, 80))
    &&& f.gpe0_block == spec_u32_from_le_bytes(b.subrange(80, 84))
    &&& f.gpe1_block == spec_u32_from_le_bytes(b.subrange(84, 88))
    &&& f.pm1_event_length == b[88]
    &&& f.pm1_control_length == b[89]
    &&& f.pm2_control_length == b[90]
    &&& f.pm_timer_length == b[91]
    &&& f.gpe0_ength == b[92]
    &&& f.gpe1_length == b[93]
    &&& f.gpe1_base == b[94]
    &&& f.c_state_control == b[95]
    &&& f.worst_c2_latency == spec_u16_from_le_bytes(b.subrange(96, 98))
    &&& f.worst_c3_latency == spec_u16_from_le_bytes(b.subrange(98, 100))
    &&& f.flush_size == spec_u16_from_le_bytes(b.subrange(100, 102))
    &&& f.flush_stride == spec_u16_from_le_bytes(b.subrange(102, 104))
    &&& f.duty_offset == b[104]
    &&& f.duty_width == b[105]
    &&& f.day_alarm == b[106]
    &&& f.month_alarm == b[107]
    &&& f.century == b[108]
    &&& f.boot_architecture_flags == spec_u16_from_le_bytes(b.subrange(109, 111))
    &&& f.reserved2 == b[111]
    &&& f.flags == spec_u32_from_le_bytes(b.subrange(112, 116))
}

/// The ACPI 2.0+ extension block: reset register, 64-bit firmware and
/// DSDT pointers, and the extended register blocks.
#[derive(Clone, Copy, Debug)]
pub struct FadtAcpi2Struct {
    pub reset_reg: GenericAddressStructure,
    pub reset_value: u8,
    pub reserved3: [u8; 3],
    pub x_firmware_control: u64,
    pub x_dsdt: u64,
    pub x_pm1a_event_block: GenericAddressStructure,
    pub x_pm1b_event_block: GenericAddressStructure,
    pub x_pm1a_control_block: GenericAddressStructure,
    pub x_pm1b_control_block: GenericAddressStructure,
    pub x_pm2_control_block: GenericAddressStructure,
    pub x_pm_timer_block: GenericAddressStructure,
    pub x_gpe0_block: GenericAddressStructure,
    pub x_gpe1_block: GenericAddressStructure,
}

/// Whether `f` holds exactly the 128 extension bytes that follow the
/// 1.0 layout in `b`.
pub open spec fn spec_fadt2_matches(f: FadtAcpi2Struct, b: Seq<u8>) -> bool
    recommends
        b.len() >= FADT_V1_LEN + FADT_ACPI2_EXT_LEN,
{
    &&& spec_gas_matches(f.reset_reg, b, 116)
    &&& f.reset_value == b[128]
    &&& f.reserved3@ == b.subrange(129, 132)
    &&& f.x_firmware_control == spec_u64_from_le_bytes(b.subrange(132, 140))
    &&& f.x_dsdt == spec_u64_from_le_bytes(b.subrange(140, 148))
    &&& spec_gas_matches(f.x_pm1a_event_block, b, 148)
    &&& spec_gas_matches(f.x_pm1b_event_block, b, 160)
    &&& spec_gas_matches(f.x_pm1a_control_block, b, 172)
    &&& spec_gas_matches(f.x_pm1b_control_block, b, 184)
    &&& spec_gas_matches(f.x_pm2_control_block, b, 196)
    &&& spec_gas_matches(f.x_pm_timer_block, b, 208)
    &&& spec_gas_matches(f.x_gpe0_block, b, 220)
    &&& spec_gas_matches(f.x_gpe1_block, b, 232)
}

/// A validated table known to be the FADT: tagged "FACP" and at least as
/// long as the ACPI 1.0 fixed layout.
#[derive(Debug)]
pub struct Fadt {
    table: Sdt,
}

impl View for Fadt {
    type V = Seq<u8>;

    closed spec fn view(&self) -> Seq<u8> {
        self.table@
    }
}

/// What every FADT satisfies: a well-formed table tagged "FACP", long
/// enough for the 1.0 fixed layout.
pub open spec fn spec_fadt_wf(b: Seq<u8>) -> bool {
    &&& wf_table(b)
    &&& spec_tag(b) == spec_facp_tag()
    &&& b.len() >= FADT_V1_LEN
}

impl Fadt {
    #[verifier::type_invariant]
    pub open spec fn wf(&self) -> bool {
        spec_fadt_wf(self@)
    }

    /// Accepts a table as the FADT exactly when it carries the "FACP"
    /// tag and is at least as long as the 1.0 fixed layout.
    pub fn new(sdt: Sdt) -> (r: Option<Fadt>)
        ensures
            r is Some <==> (spec_tag(sdt@) == spec_facp_tag() && sdt@.len() >= FADT_V1_LEN),
            r matches Some(f) ==> f@ == sdt@,
    {
        let bytes = sdt.as_slice();
        let tag = facp_tag();
        if !crate::sdt::bytes_eq(slice_subrange(bytes, 0, 4), tag.as_slice()) {
            return None;
        }
        if bytes.len() < FADT_V1_LEN {
            return None;
        }
        Some(Fadt { table: sdt })
    }

    /// The whole table, header included.
    pub fn as_slice(&self) -> (r: &[u8])
        ensures
            r@ == self@,
            spec_fadt_wf(self@),
    {
        proof {
            use_type_invariant(self);
        }
        self.table.as_slice()
    }

    /// The ACPI 1.0 fixed layout, read out of the first 116 bytes.
    pub fn fadt_struct(&self) -> (f: FadtStruct)
        ensures
            spec_fadt_wf(self@),
            spec_fadt_matches(f, self@),
    {
        proof {
            use_type_invariant(self);
        }
        let b = self.table.as_slice();
        FadtStruct {
            header: header_from_bytes(b),
            firmware_ctrl: u32_from_le_bytes(slice_subrange(b, 36, 40)),
            dsdt: u32_from_le_bytes(slice_subrange(b, 40, 44)),
            reserved: b[44],
            preferred_power_managament: b[45],
            sci_interrupt: u16_from_le_bytes(slice_subrange(b, 46, 48)),
            smi_command_port: u32_from_le_bytes(slice_subrange(b, 48, 52)),
            acpi_enable: b[52],
            acpi_disable: b[53],
            s4_bios_req: b[54],
            pstate_control: b[55],
            pm1a_event_block: u32_from_le_bytes(slice_subrange(b, 56, 60)),
            pm1b_event_block: u32_from_le_bytes(slice_subrange(b, 60, 64)),
            pm1a_control_block: u32_from_le_bytes(slice_subrange(b, 64, 68)),
            pm1b_control_block: u32_from_le_bytes(slice_subrange(b, 68, 72)),
            pm2_control_block: u32_from_le_bytes(slice_subrange(b, 72, 76)),
            pm_timer_block: u32_from_le_bytes(slice_subrange(b, 76, 80)),
            gpe0_block: u32_from_le_bytes(slice_subrange(b, 80, 84)),
            gpe1_block: u32_from_le_bytes(slice_subrange(b, 84, 88)),
            pm1_event_length: b[88],
            pm1_control_length: b[89],
            pm2_control_length: b[90],
            pm_timer_length: b[91],
            gpe0_ength: b[92],
            gpe1_length: b[93],
            gpe1_base: b[94],
            c_state_control: b[95],
            worst_c2_latency: u16_from_le_bytes(slice_subrange(b, 96, 98)),
            worst_c3_latency: u16_from_le_bytes(slice_subrange(b, 98, 100)),
            flush_size: u16_from_le_bytes(slice_subrange(b, 100, 102)),
            flush_stride: u16_from_le_bytes(slice_subrange(b, 102, 104)),
            duty_offset: b[104],
            duty_width: b[105],
            day_alarm: b[106],
            month_alarm: b[107],
            century: b[108],
            boot_architecture_flags: u16_from_le_bytes(slice_subrange(b, 109, 111)),
            reserved2: b[111],
            flags: u32_from_le_bytes(slice_subrange(b, 112, 116)),
        }
    }

    /// The ACPI 2.0+ extension block, if the table is long enough to
    /// hold it. A shorter table is not an error: ACPI 1.0 firmware
    /// legitimately lacks the block.
    pub fn acpi_2_struct(&self) -> (r: Option<FadtAcpi2Struct>)
        ensures
            spec_fadt_wf(self@),
            r is Some <==> self@.len() >= FADT_V1_LEN + FADT_ACPI2_EXT_LEN,
            r matches Some(f) ==> spec_fadt2_matches(f, self@),
    {
        proof {
            use_type_invariant(self);
        }
        let b = self.table.as_slice();
        if b.len() < FADT_V1_LEN + FADT_ACPI2_EXT_LEN {
            return None;
        }
        let reserved3: [u8; 3] = [b[129], b[130], b[131]];
        proof {
            assert(reserved3@ =~= b@.subrange(129, 132));
        }
        Some(
            FadtAcpi2Struct {
                reset_reg: gas_from_bytes(b, 116),
                reset_value: b[128],
                reserved3,
                x_firmware_control: u64_from_le_bytes(slice_subrange(b, 132, 140)),
                x_dsdt: u64_from_le_bytes(slice_subrange(b, 140, 148)),
                x_pm1a_event_block: gas_from_bytes(b, 148),
                x_pm1b_event_block: gas_from_bytes(b, 160),
                x_pm1a_control_block: gas_from_bytes(b, 172),
                x_pm1b_control_block: gas_from_bytes(b, 184),
                x_pm2_control_block: gas_from_bytes(b, 196),
                x_pm_timer_block: gas_from_bytes(b, 208),
                x_gpe0_block: gas_from_bytes(b, 220),
                x_gpe1_block: gas_from_bytes(b, 232),
            },
        )
    }
}

/// The physical address of the DSDT that a FADT points at: the 64-bit
/// pointer of the extension block when the block is present and the
/// value fits the native pointer width, the legacy 32-bit pointer
/// otherwise.
pub open spec fn spec_dsdt_physaddr(b: Seq<u8>) -> int
    recommends
        b.len() >= FADT_V1_LEN,
{
    if b.len() >= FADT_V1_LEN + FADT_ACPI2_EXT_LEN && spec_u64_from_le_bytes(
        b.subrange(140, 148),
    ) <= usize::MAX {
        spec_u64_from_le_bytes(b.subrange(140, 148)) as int
    } else {
        spec_u32_from_le_bytes(b.subrange(40, 44)) as int
    }
}

impl Fadt {
    /// Resolves the DSDT physical pointer, preferring the 64-bit pointer
    /// of the extension block when it is present and representable.
    pub fn dsdt_physaddr(&self) -> (r: usize)
        ensures
            spec_fadt_wf(self@),
            r as int == spec_dsdt_physaddr(self@),
    {
        proof {
            use_type_invariant(self);
        }
        match self.acpi_2_struct() {
            Some(f2) => {
                if f2.x_dsdt <= usize::MAX as u64 {
                    f2.x_dsdt as usize
                } else {
                    let b = self.table.as_slice();
                    u32_from_le_bytes(slice_subrange(b, 40, 44)) as usize
                }
            },
            None => {
                let b = self.table.as_slice();
                u32_from_le_bytes(slice_subrange(b, 40, 44)) as usize
            },
        }
    }
}

impl Clone for Fadt {
    /// A clone holds the same bytes.
    fn clone(&self) -> (r: Self)
        ensures
            r@ == self@,
    {
        proof {
            use_type_invariant(self);
        }
        Fadt { table: self.table.clone() }
    }
}

} // verus!
