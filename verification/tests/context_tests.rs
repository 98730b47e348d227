use acpid::aml::AmlContainingTable;
use acpid::context::AcpiContext;
use acpid::phys::{MemoryImage, TablePhysLoadError, PAGE_SIZE};
use acpid::sdt::{Sdt, SdtSignature};

/// Builds a table with the given identity and body, checksum fixed.
fn table_with(tag: &[u8; 4], len: usize, oem_id: &[u8; 6], oem_table_id: &[u8; 8], fill: u8) -> Vec<u8> {
    let mut b = vec![fill; len];
    b[0..4].copy_from_slice(tag);
    b[4..8].copy_from_slice(&(len as u32).to_le_bytes());
    b[9] = 0;
    b[10..16].copy_from_slice(oem_id);
    b[16..24].copy_from_slice(oem_table_id);
    let sum = b.iter().fold(0u8, |acc, x| acc.wrapping_add(*x));
    b[9] = 0u8.wrapping_sub(sum);
    b
}

/// Builds a FACP of `len` bytes whose legacy DSDT pointer is `dsdt32`,
/// and, when the table is long enough for the extension block, whose
/// 64-bit pointer is `x_dsdt`.
fn facp_with(len: usize, dsdt32: u32, x_dsdt: u64) -> Vec<u8> {
    let mut b = table_with(b"FACP", len, b"OEMIDX", b"OEMTBLID", 0);
    b[40..44].copy_from_slice(&dsdt32.to_le_bytes());
    if len >= 244 {
        b[140..148].copy_from_slice(&x_dsdt.to_le_bytes());
    }
    b[9] = 0;
    let sum = b.iter().fold(0u8, |acc, x| acc.wrapping_add(*x));
    b[9] = 0u8.wrapping_sub(sum);
    b
}

/// Lays the given tables out one per page and returns the image together
/// with their physical addresses.
fn layout(tables: &[Vec<u8>]) -> (MemoryImage, Vec<u64>) {
    let mut mem = vec![0u8; (tables.len() + 1) * PAGE_SIZE];
    let mut addrs = Vec::new();
    for (i, t) in tables.iter().enumerate() {
        let at = i * PAGE_SIZE;
        assert!(t.len() <= PAGE_SIZE);
        mem[at..at + t.len()].copy_from_slice(t);
        addrs.push(at as u64);
    }
    (MemoryImage::new(mem), addrs)
}

fn signature_of(bytes: &[u8]) -> SdtSignature {
    Sdt::new(bytes.to_vec()).unwrap().header().signature()
}

#[test]
fn find_multiple_sdts_keeps_order_and_filters() {
    let ssdt_a = table_with(b"SSDT", 40, b"OEMAAA", b"TABLE--A", 1);
    let facp = facp_with(116, 0, 0);
    let ssdt_b = table_with(b"SSDT", 44, b"OEMBBB", b"TABLE--B", 2);
    let apic = table_with(b"APIC", 40, b"OEMCCC", b"TABLE--C", 3);
    let (mem, addrs) = layout(&[ssdt_a.clone(), facp, ssdt_b.clone(), apic]);
    // the FACP points nowhere useful, so the bootstrap aborts and the
    // store keeps exactly the four root tables
    let ctx = AcpiContext::init(&mem, &addrs).unwrap();

    let found = ctx.find_multiple_sdts(*b"SSDT");
    assert_eq!(found.len(), 2);
    assert_eq!(found[0].as_slice(), ssdt_a.as_slice());
    assert_eq!(found[1].as_slice(), ssdt_b.as_slice());

    let ssdts = ctx.ssdts();
    assert_eq!(ssdts.len(), 2);
    assert_eq!(ssdts[0].aml(), &ssdt_a[36..]);
    assert_eq!(ssdts[1].aml(), &ssdt_b[36..]);
    assert_eq!(&ssdts[0].header().oem_id, b"OEMAAA");
}

#[test]
fn later_index_registration_shadows_earlier() {
    let ssdt = table_with(b"SSDT", 40, b"OEMAAA", b"TABLE--A", 1);
    let apic = table_with(b"APIC", 40, b"OEMCCC", b"TABLE--C", 3);
    let (mem, addrs) = layout(&[ssdt.clone(), apic]);
    let mut ctx = AcpiContext::init(&mem, &addrs).unwrap();

    let sig = signature_of(&ssdt);
    assert_eq!(ctx.get_index_from_signature(&sig), Some(0));

    // a second registration of the same key at a later position wins
    ctx.new_index(&sig);
    assert_eq!(ctx.get_index_from_signature(&sig), Some(2));
    assert_eq!(ctx.get_signature_from_index(2), Some(sig));

    let absent = SdtSignature { signature: *b"XXXX", oem_id: *b"NOOEM-", oem_table_id: *b"NOTHERE-" };
    assert_eq!(ctx.get_index_from_signature(&absent), None);
    assert_eq!(ctx.get_signature_from_index(9), None);
}

#[test]
fn signature_index_positions_follow_arrival() {
    let ssdt = table_with(b"SSDT", 40, b"OEMAAA", b"TABLE--A", 1);
    let apic = table_with(b"APIC", 40, b"OEMCCC", b"TABLE--C", 3);
    let (mem, addrs) = layout(&[ssdt.clone(), apic.clone()]);
    let ctx = AcpiContext::init(&mem, &addrs).unwrap();
    assert_eq!(ctx.get_signature_from_index(0), Some(signature_of(&ssdt)));
    assert_eq!(ctx.get_signature_from_index(1), Some(signature_of(&apic)));
}

#[test]
fn bootstrap_uses_legacy_pointer_without_extension() {
    let dsdt = table_with(b"DSDT", 60, b"OEMIDX", b"DSDTTBL-", 0x42);
    let dsdt_at = 3 * PAGE_SIZE;
    let facp = facp_with(116, dsdt_at as u32, 0);
    let mut raw = vec![0u8; 4 * PAGE_SIZE];
    raw[0..facp.len()].copy_from_slice(&facp);
    raw[dsdt_at..dsdt_at + dsdt.len()].copy_from_slice(&dsdt);
    let mem = MemoryImage::new(raw);
    let ctx = AcpiContext::init(&mem, &[0u64]).unwrap();

    let loaded = ctx.dsdt().expect("bootstrap must resolve the 32-bit pointer");
    assert_eq!(loaded.aml(), &dsdt[36..]);
    assert!(ctx.fadt().is_some());
}

#[test]
fn bootstrap_prefers_64bit_pointer() {
    // a decoy DSDT sits where the 32-bit pointer aims; the real one where
    // the 64-bit pointer aims
    let decoy = table_with(b"DSDT", 60, b"OEMIDX", b"DECOY---", 0x11);
    let real = table_with(b"DSDT", 60, b"OEMIDX", b"REALDSDT", 0x22);
    let decoy_at = 2 * PAGE_SIZE;
    let real_at = 3 * PAGE_SIZE;
    let facp = facp_with(244, decoy_at as u32, real_at as u64);
    let mut raw = vec![0u8; 5 * PAGE_SIZE];
    raw[0..facp.len()].copy_from_slice(&facp);
    raw[decoy_at..decoy_at + decoy.len()].copy_from_slice(&decoy);
    raw[real_at..real_at + real.len()].copy_from_slice(&real);
    let mem = MemoryImage::new(raw);
    let ctx = AcpiContext::init(&mem, &[0u64]).unwrap();

    let loaded = ctx.dsdt().expect("bootstrap must resolve the 64-bit pointer");
    assert_eq!(loaded.header().oem_table_id, *b"REALDSDT");
    assert_eq!(loaded.aml(), &real[36..]);
}

#[test]
fn context_from_two_fabricated_tables() {
    // end to end: a FACP pointing at a DSDT with known AML bytes
    let aml_payload: Vec<u8> = (0..24).map(|i| 0xA0 + i as u8).collect();
    let mut dsdt = table_with(b"DSDT", 36 + aml_payload.len(), b"OEMIDX", b"DSDTTBL-", 0);
    dsdt[36..].copy_from_slice(&aml_payload);
    dsdt[9] = 0;
    let sum = dsdt.iter().fold(0u8, |acc, x| acc.wrapping_add(*x));
    dsdt[9] = 0u8.wrapping_sub(sum);

    let dsdt_at = 2 * PAGE_SIZE;
    let facp = facp_with(116, dsdt_at as u32, 0);
    let ssdt = table_with(b"SSDT", 40, b"OEMAAA", b"TABLE--A", 1);

    let mut raw = vec![0u8; 4 * PAGE_SIZE];
    raw[0..facp.len()].copy_from_slice(&facp);
    raw[PAGE_SIZE..PAGE_SIZE + ssdt.len()].copy_from_slice(&ssdt);
    raw[dsdt_at..dsdt_at + dsdt.len()].copy_from_slice(&dsdt);
    let mem = MemoryImage::new(raw);

    let ctx = AcpiContext::init(&mem, &[0u64, PAGE_SIZE as u64]).unwrap();

    let loaded = ctx.dsdt().expect("the DSDT must be present after init");
    assert_eq!(loaded.aml(), aml_payload.as_slice());
    assert!(ctx.fadt().is_some());
    assert_eq!(ctx.fadt().unwrap().as_slice(), facp.as_slice());

    // the loaded DSDT joins the table store, but gets no index entry
    assert_eq!(ctx.tables().len(), 3);
    assert_eq!(ctx.tables()[2].as_slice(), dsdt.as_slice());
    assert_eq!(ctx.get_signature_from_index(2), None);

    // generic enumeration sees it
    let sig = signature_of(&dsdt);
    assert_eq!(ctx.sdt_from_signature(&sig).unwrap().as_slice(), dsdt.as_slice());
    assert_eq!(ctx.table_length(&sig), Some(dsdt.len()));
}

#[test]
fn bootstrap_without_facp_degrades_quietly() {
    let ssdt = table_with(b"SSDT", 40, b"OEMAAA", b"TABLE--A", 1);
    let (mem, addrs) = layout(&[ssdt]);
    let ctx = AcpiContext::init(&mem, &addrs).unwrap();
    assert!(ctx.fadt().is_none());
    assert!(ctx.dsdt().is_none());
    assert_eq!(ctx.tables().len(), 1);
}

#[test]
fn bootstrap_with_unloadable_dsdt_degrades_quietly() {
    // the FACP points outside the image, so the DSDT load fails
    let facp = facp_with(116, (7 * PAGE_SIZE) as u32, 0);
    let (mem, addrs) = layout(&[facp]);
    let ctx = AcpiContext::init(&mem, &addrs).unwrap();
    assert!(ctx.fadt().is_none());
    assert!(ctx.dsdt().is_none());
    assert_eq!(ctx.tables().len(), 1);
}

#[test]
fn too_short_facp_rejected_by_wrapper() {
    let short = table_with(b"FACP", 100, b"OEMIDX", b"OEMTBLID", 0);
    let sdt = Sdt::new(short).unwrap();
    assert!(acpid::fadt::Fadt::new(sdt).is_none());

    let other = table_with(b"APIC", 116, b"OEMIDX", b"OEMTBLID", 0);
    let sdt = Sdt::new(other).unwrap();
    assert!(acpid::fadt::Fadt::new(sdt).is_none());
}

#[test]
fn fadt_struct_fields_and_extension() {
    let mut facp = facp_with(116, 0x1234_5678, 0);
    facp[46..48].copy_from_slice(&9u16.to_le_bytes()); // sci interrupt
    facp[112..116].copy_from_slice(&0xDEAD_BEEFu32.to_le_bytes()); // flags
    facp[9] = 0;
    let sum = facp.iter().fold(0u8, |acc, x| acc.wrapping_add(*x));
    facp[9] = 0u8.wrapping_sub(sum);

    let fadt = acpid::fadt::Fadt::new(Sdt::new(facp).unwrap()).unwrap();
    let fs = fadt.fadt_struct();
    assert_eq!(fs.dsdt, 0x1234_5678);
    assert_eq!(fs.sci_interrupt, 9);
    assert_eq!(fs.flags, 0xDEAD_BEEF);
    assert_eq!(&fs.header.signature, b"FACP");
    assert!(fadt.acpi_2_struct().is_none());
    assert_eq!(fadt.dsdt_physaddr(), 0x1234_5678);

    let facp2 = facp_with(244, 0x1000, 0x2000);
    let fadt2 = acpid::fadt::Fadt::new(Sdt::new(facp2).unwrap()).unwrap();
    let ext = fadt2.acpi_2_struct().expect("a 244-byte FACP holds the extension block");
    assert_eq!(ext.x_dsdt, 0x2000);
    assert_eq!(fadt2.dsdt_physaddr(), 0x2000);
    let copy = fadt2.clone();
    assert_eq!(copy.as_slice(), fadt2.as_slice());
}

#[test]
fn sdt_from_signature_matches_all_key_fields() {
    let a = table_with(b"SSDT", 40, b"OEMAAA", b"TABLE--A", 1);
    let b = table_with(b"SSDT", 40, b"OEMBBB", b"TABLE--B", 1);
    let (mem, addrs) = layout(&[a.clone(), b.clone()]);
    let ctx = AcpiContext::init(&mem, &addrs).unwrap();

    let sig_b = signature_of(&b);
    assert_eq!(ctx.sdt_from_signature(&sig_b).unwrap().as_slice(), b.as_slice());

    let mut wrong = sig_b;
    wrong.oem_id = *b"OEMZZZ";
    assert!(ctx.sdt_from_signature(&wrong).is_none());
}

#[test]
fn take_single_sdt_takes_first_of_tag() {
    let a = table_with(b"SSDT", 40, b"OEMAAA", b"TABLE--A", 1);
    let b = table_with(b"SSDT", 40, b"OEMBBB", b"TABLE--B", 1);
    let (mem, addrs) = layout(&[a.clone(), b]);
    let ctx = AcpiContext::init(&mem, &addrs).unwrap();
    let first = ctx.take_single_sdt(*b"SSDT").unwrap();
    assert_eq!(first.as_slice(), a.as_slice());
    assert!(ctx.take_single_sdt(*b"XXXX").is_none());
}

#[test]
fn init_fails_on_unloadable_root_table() {
    let mem = MemoryImage::new(vec![0u8; PAGE_SIZE]);
    assert!(matches!(
        AcpiContext::init(&mem, &[8 * PAGE_SIZE as u64]),
        Err(TablePhysLoadError::Io)
    ));
}
