use acpid::aml::{AmlContainingTable, PossibleAmlTables};
use acpid::sdt::{InvalidSdtError, Sdt, SdtSignature, SDT_HEADER_LEN};

/// Builds a table buffer of `len` bytes with the given identity fields and
/// body fill, then fixes the checksum byte so the bytes sum to 0 mod 256.
fn make_table(tag: &[u8; 4], len: usize, oem_id: &[u8; 6], oem_table_id: &[u8; 8], fill: u8) -> Vec<u8> {
    assert!(len >= SDT_HEADER_LEN);
    let mut b = vec![fill; len];
    b[0..4].copy_from_slice(tag);
    b[4..8].copy_from_slice(&(len as u32).to_le_bytes());
    b[8] = 1; // revision
    b[9] = 0; // checksum, fixed below
    b[10..16].copy_from_slice(oem_id);
    b[16..24].copy_from_slice(oem_table_id);
    b[24..28].copy_from_slice(&2u32.to_le_bytes()); // oem revision
    b[28..32].copy_from_slice(&3u32.to_le_bytes()); // creator id
    b[32..36].copy_from_slice(&4u32.to_le_bytes()); // creator revision
    let sum = b.iter().fold(0u8, |acc, x| acc.wrapping_add(*x));
    b[9] = 0u8.wrapping_sub(sum);
    b
}

#[test]
fn valid_buffer_accepted_verbatim() {
    let bytes = make_table(b"SSDT", 48, b"OEMIDX", b"OEMTBLID", 0xAB);
    let sdt = Sdt::new(bytes.clone()).expect("a well-formed table must validate");
    assert_eq!(sdt.as_slice(), bytes.as_slice());
}

#[test]
fn header_only_table_accepted() {
    let bytes = make_table(b"APIC", SDT_HEADER_LEN, b"ABCDEF", b"12345678", 0);
    let sdt = Sdt::new(bytes.clone()).expect("a bare header with a good checksum is a table");
    assert_eq!(sdt.as_slice(), bytes.as_slice());
    assert!(sdt.data().is_empty());
}

#[test]
fn declared_length_mismatch_rejected() {
    let mut bytes = make_table(b"SSDT", 48, b"OEMIDX", b"OEMTBLID", 7);
    // declare one byte more than the buffer holds
    bytes[4..8].copy_from_slice(&49u32.to_le_bytes());
    match Sdt::new(bytes) {
        Err(InvalidSdtError::InvalidSize) => {}
        other => panic!("expected InvalidSize, got {:?}", other.map(|s| s.as_slice().to_vec())),
    }
}

#[test]
fn short_buffer_rejected() {
    let bytes = vec![0u8; 20];
    assert!(matches!(Sdt::new(bytes), Err(InvalidSdtError::InvalidSize)));
}

#[test]
fn bad_checksum_rejected() {
    let mut bytes = make_table(b"SSDT", 40, b"OEMIDX", b"OEMTBLID", 9);
    bytes[39] = bytes[39].wrapping_add(1);
    assert!(matches!(Sdt::new(bytes), Err(InvalidSdtError::BadChecksum)));
}

#[test]
fn header_fields_read_back() {
    let bytes = make_table(b"FACP", 64, b"OEMIDX", b"OEMTBLID", 0x11);
    let sdt = Sdt::new(bytes.clone()).unwrap();
    let header = sdt.header();
    assert_eq!(&header.signature, b"FACP");
    assert_eq!(header.length, 64);
    assert_eq!(header.length(), 64usize);
    assert_eq!(header.revision, 1);
    assert_eq!(header.checksum, bytes[9]);
    assert_eq!(&header.oem_id, b"OEMIDX");
    assert_eq!(&header.oem_table_id, b"OEMTBLID");
    assert_eq!(header.oem_revision, 2);
    assert_eq!(header.creator_id, 3);
    assert_eq!(header.creator_revision, 4);

    let sig = header.signature();
    assert_eq!(&sig.signature, b"FACP");
    assert_eq!(&sig.oem_id, b"OEMIDX");
    assert_eq!(&sig.oem_table_id, b"OEMTBLID");
}

#[test]
fn data_is_body_after_header() {
    let bytes = make_table(b"SSDT", 44, b"OEMIDX", b"OEMTBLID", 0xCD);
    let sdt = Sdt::new(bytes.clone()).unwrap();
    assert_eq!(sdt.data(), &bytes[SDT_HEADER_LEN..]);
}

#[test]
fn aml_tables_classified_by_tag() {
    let dsdt = make_table(b"DSDT", 48, b"OEMIDX", b"OEMTBLID", 0x31);
    match PossibleAmlTables::try_new(Sdt::new(dsdt.clone()).unwrap()) {
        Some(t @ PossibleAmlTables::Dsdt(_)) => {
            assert_eq!(t.aml(), &dsdt[36..]);
            assert_eq!(&t.header().signature, b"DSDT");
        }
        other => panic!("expected a DSDT, got {:?}", other),
    }

    let ssdt = make_table(b"SSDT", 48, b"OEMIDX", b"OEMTBLID", 0x32);
    match PossibleAmlTables::try_new(Sdt::new(ssdt.clone()).unwrap()) {
        Some(t @ PossibleAmlTables::Ssdt(_)) => {
            assert_eq!(t.aml(), &ssdt[36..]);
        }
        other => panic!("expected an SSDT, got {:?}", other),
    }

    let apic = make_table(b"APIC", 48, b"OEMIDX", b"OEMTBLID", 0x33);
    assert!(PossibleAmlTables::try_new(Sdt::new(apic).unwrap()).is_none());
}

#[test]
fn signature_keys_compare_by_all_fields() {
    let a = SdtSignature { signature: *b"SSDT", oem_id: *b"OEMIDX", oem_table_id: *b"OEMTBLID" };
    let mut b = a;
    assert!(a.same_key(&b));
    b.oem_table_id = *b"OTHERTBL";
    assert!(!a.same_key(&b));
    let mut c = a;
    c.signature = *b"SSDX";
    assert!(!a.same_key(&c));
}

#[test]
fn clone_keeps_bytes() {
    let bytes = make_table(b"SSDT", 52, b"OEMIDX", b"OEMTBLID", 0x5A);
    let sdt = Sdt::new(bytes).unwrap();
    let copy = sdt.clone();
    assert_eq!(copy.as_slice(), sdt.as_slice());
}
