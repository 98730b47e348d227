use acpid::phys::{physmap, MemoryImage, PhysBorrowed, PhysicalMemory, TablePhysLoadError, PAGE_SIZE};
use acpid::sdt::{InvalidSdtError, Sdt};

/// Builds a table of `len` bytes with a distinctive body and a correct
/// checksum.
fn patterned_table(tag: &[u8; 4], len: usize) -> Vec<u8> {
    let mut b: Vec<u8> = (0..len).map(|i| (i * 7 + 13) as u8).collect();
    b[0..4].copy_from_slice(tag);
    b[4..8].copy_from_slice(&(len as u32).to_le_bytes());
    b[9] = 0;
    let sum = b.iter().fold(0u8, |acc, x| acc.wrapping_add(*x));
    b[9] = 0u8.wrapping_sub(sum);
    b
}

/// An image of `pages` zeroed pages with `table` written at `physaddr`.
fn image_with(table: &[u8], physaddr: usize, pages: usize) -> MemoryImage {
    let mut mem = vec![0u8; pages * PAGE_SIZE];
    mem[physaddr..physaddr + table.len()].copy_from_slice(table);
    MemoryImage::new(mem)
}

/// Loads a table of `len` bytes placed at `physaddr` and checks the copy
/// is byte-identical to the reference.
fn check_load(len: usize, physaddr: usize) {
    let table = patterned_table(b"SSDT", len);
    let pages = (physaddr + len) / PAGE_SIZE + 2;
    let mem = image_with(&table, physaddr, pages);
    let sdt = Sdt::load_from_physical(&mem, physaddr)
        .unwrap_or_else(|e| panic!("load at {} of {} bytes failed: {:?}", physaddr, len, e));
    assert_eq!(sdt.as_slice(), table.as_slice());
}

#[test]
fn load_one_page_offsets() {
    // table inside a single page, for several in-page offsets
    check_load(200, 0);
    check_load(200, 1000);
    check_load(200, 4095); // header straddles the page boundary
}

#[test]
fn load_two_pages_offsets() {
    let len = PAGE_SIZE + 500;
    check_load(len, 0);
    check_load(len, 1000);
    check_load(len, 4095);
}

#[test]
fn load_five_pages_offsets() {
    let len = 5 * PAGE_SIZE;
    check_load(len, 0);
    check_load(len, 1000);
    check_load(len, 4095);
}

#[test]
fn load_needs_several_fetch_rounds() {
    // more than one window of four pages has to be mapped after the header
    check_load(9 * PAGE_SIZE + 123, 4095);
}

#[test]
fn load_shorter_than_mapped_window() {
    // the whole table already sits in the header window; no extra fetches
    check_load(36, 0);
    check_load(40, 4000); // header straddles; table ends inside the second page
}

#[test]
fn load_out_of_range_is_io_error() {
    let mem = MemoryImage::new(vec![0u8; PAGE_SIZE]);
    assert!(matches!(
        Sdt::load_from_physical(&mem, 3 * PAGE_SIZE),
        Err(TablePhysLoadError::Io)
    ));
}

#[test]
fn load_bad_checksum_is_validity_error() {
    let mut table = patterned_table(b"SSDT", 100);
    table[50] = table[50].wrapping_add(1);
    let mem = image_with(&table, 0, 2);
    assert!(matches!(
        Sdt::load_from_physical(&mem, 0),
        Err(TablePhysLoadError::Validity(InvalidSdtError::BadChecksum))
    ));
}

#[test]
fn load_tiny_declared_length_is_size_error() {
    // the header declares fewer bytes than a header holds
    let mut table = patterned_table(b"SSDT", 100);
    table[4..8].copy_from_slice(&20u32.to_le_bytes());
    let mem = image_with(&table, 0, 2);
    assert!(matches!(
        Sdt::load_from_physical(&mem, 0),
        Err(TablePhysLoadError::Validity(InvalidSdtError::InvalidSize))
    ));
}

#[test]
fn physmap_rounds_up_to_whole_pages() {
    let mut bytes = vec![0u8; 3 * PAGE_SIZE];
    for (i, b) in bytes.iter_mut().enumerate() {
        *b = (i % 251) as u8;
    }
    let mem = MemoryImage::new(bytes.clone());
    let w = physmap(&mem, PAGE_SIZE, 100).expect("window inside the image");
    assert_eq!(w.len(), PAGE_SIZE);
    assert_eq!(w.as_slice(), &bytes[PAGE_SIZE..2 * PAGE_SIZE]);
    assert!(physmap(&mem, 2 * PAGE_SIZE, PAGE_SIZE + 1).is_err());
}

#[test]
fn phys_borrowed_window() {
    let mut bytes = vec![0u8; 2 * PAGE_SIZE];
    for (i, b) in bytes.iter_mut().enumerate() {
        *b = (i % 239) as u8;
    }
    let mem = MemoryImage::new(bytes.clone());
    let w = PhysBorrowed::map(&mem, 0, PAGE_SIZE + 7).expect("window inside the image");
    assert_eq!(w.mapped_len(), 2 * PAGE_SIZE);
    assert_eq!(w.as_bytes(), bytes.as_slice());
    assert!(PhysBorrowed::map(&mem, PAGE_SIZE, 2 * PAGE_SIZE).is_err());
}

#[test]
fn memory_image_window_bounds() {
    let mem = MemoryImage::new(vec![1u8; 2 * PAGE_SIZE]);
    assert!(mem.map_window(0, 2).is_ok());
    assert!(mem.map_window(PAGE_SIZE, 2).is_err());
}
