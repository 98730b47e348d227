//! The base System Description Table: raw header layout, composite
//! signature keys, and the validation gate that turns a byte buffer into a
//! trusted table.

use vstd::arithmetic::div_mod::lemma_add_mod_noop;
use vstd::bytes::spec_u32_from_le_bytes;
use vstd::bytes::u32_from_le_bytes;
use vstd::prelude::*;
use vstd::slice::slice_subrange;

verus! {

/// Size in bytes of the fixed SDT header that every table starts with.
pub const SDT_HEADER_LEN: usize = 36;

/// Sum of all bytes of a sequence, as an unbounded integer.
pub open spec fn sum_bytes(b: Seq<u8>) -> int
    decreases b.len(),
{
    if b.len() == 0 {
        0
    } else {
        sum_bytes(b.drop_last()) + b.last()
    }
}

/// The ACPI checksum invariant: all bytes of the table sum to 0 modulo 256.
pub open spec fn checksum_ok(b: Seq<u8>) -> bool {
    sum_bytes(b) % 256 == 0
}

/// The table length declared by the header: a little-endian `u32` at byte 4.
pub open spec fn spec_table_len(b: Seq<u8>) -> u32
    recommends
        b.len() >= 8,
{
    spec_u32_from_le_bytes(b.subrange(4, 8))
}

/// The 4-byte signature tag at the start of a table.
pub open spec fn spec_tag(b: Seq<u8>) -> Seq<u8> {
    b.subrange(0, 4)
}

/// A byte buffer is a well-formed table when it holds at least a full
/// header, its declared length equals its real length, and the checksum
/// invariant holds.
pub open spec fn wf_table(b: Seq<u8>) -> bool {
    &&& b.len() >= SDT_HEADER_LEN
    &&& spec_table_len(b) as int == b.len() as int
    &&& checksum_ok(b)
}

/// The raw SDT header, as laid out at the start of every table.
#[derive(Copy, Clone, Debug)]
pub struct SdtHeader {
    pub signature: [u8; 4],
    pub length: u32,
    pub revision: u8,
    pub checksum: u8,
    pub oem_id: [u8; 6],
    pub oem_table_id: [u8; 8],
    pub oem_revision: u32,
    pub creator_id: u32,
    pub creator_revision: u32,
}

/// Whether `h` holds exactly the fields that the first 36 bytes of `b` lay out.
pub open spec fn spec_header_matches(h: SdtHeader, b: Seq<u8>) -> bool
    recommends
        b.len() >= SDT_HEADER_LEN,
{
    &&& h.signature@ == b.subrange(0, 4)
    &&& h.length == spec_table_len(b)
    &&& h.revision == b[8]
    &&& h.checksum == b[9]
    &&& h.oem_id@ == b.subrange(10, 16)
    &&& h.oem_table_id@ == b.subrange(16, 24)
    &&& h.oem_revision == spec_u32_from_le_bytes(b.subrange(24, 28))
    &&& h.creator_id == spec_u32_from_le_bytes(b.subrange(28, 32))
    &&& h.creator_revision == spec_u32_from_le_bytes(b.subrange(32, 36))
}

/// Reads the header fields out of the first 36 bytes of a buffer.
pub fn header_from_bytes(b: &[u8]) -> (h: SdtHeader)
    requires
        b@.len() >= SDT_HEADER_LEN,
    ensures
        spec_header_matches(h, b@),
{
    let signature: [u8; 4] = [b[0], b[1], b[2], b[3]];
    let oem_id: [u8; 6] = [b[10], b[11], b[12], b[13], b[14], b[15]];
    let oem_table_id: [u8; 8] = [b[16], b[17], b[18], b[19], b[20], b[21], b[22], b[23]];
    proof {
        assert(signature@ =~= b@.subrange(0, 4));
        assert(oem_id@ =~= b@.subrange(10, 16));
        assert(oem_table_id@ =~= b@.subrange(16, 24));
    }
    SdtHeader {
        signature,
        length: u32_from_le_bytes(slice_subrange(b, 4, 8)),
        revision: b[8],
        checksum: b[9],
        oem_id,
        oem_table_id,
        oem_revision: u32_from_le_bytes(slice_subrange(b, 24, 28)),
        creator_id: u32_from_le_bytes(slice_subrange(b, 28, 32)),
        creator_revision: u32_from_le_bytes(slice_subrange(b, 32, 36)),
    }
}

impl SdtHeader {
    /// The composite signature key of this header.
    pub fn signature(&self) -> (r: SdtSignature)
        ensures
            r.signature@ == self.signature@,
            r.oem_id@ == self.oem_id@,
            r.oem_table_id@ == self.oem_table_id@,
    {
        SdtSignature { signature: self.signature, oem_id: self.oem_id, oem_table_id: self.oem_table_id }
    }

    /// The declared total table length, widened to `usize`.
    pub fn length(&self) -> (r: usize)
        ensures
            r == self.length as usize,
            r as int == self.length as int,
    {
        self.length as usize
    }
}

/// The composite key that identifies a table: signature tag, OEM id and
/// OEM table id. Several tables may share a tag; the composite key tells
/// them apart.
#[derive(Clone, Copy, Debug, Eq, Hash, Ord, PartialEq, PartialOrd)]
pub struct SdtSignature {
    pub signature: [u8; 4],
    pub oem_id: [u8; 6],
    pub oem_table_id: [u8; 8],
}

/// Equality of two byte slices, decided byte by byte.
pub fn bytes_eq(a: &[u8], b: &[u8]) -> (r: bool)
    ensures
        r == (a@ == b@),
{
    if a.len() != b.len() {
        return false;
    }
    let n = a.len();
    for i in 0..n
        invariant
            n == a@.len() == b@.len(),
            forall|j: int| 0 <= j < i ==> a@[j] == b@[j],
    {
        if a[i] != b[i] {
            return false;
        }
    }
    proof {
        assert(a@ =~= b@);
    }
    true
}

impl SdtSignature {
    /// Whether two keys agree on all three components.
    pub fn same_key(&self, other: &SdtSignature) -> (r: bool)
        ensures
            r == (*self == *other),
    {
        let r = bytes_eq(self.signature.as_slice(), other.signature.as_slice())
            && bytes_eq(self.oem_id.as_slice(), other.oem_id.as_slice())
            && bytes_eq(self.oem_table_id.as_slice(), other.oem_table_id.as_slice());
        proof {
            if r {
                assert(self.signature =~= other.signature);
                assert(self.oem_id =~= other.oem_id);
                assert(self.oem_table_id =~= other.oem_table_id);
            }
        }
        r
    }
}

/// Why a byte buffer was rejected by the validation gate.
#[derive(Clone, Copy, Debug, PartialEq, Eq, Structural)]
pub enum InvalidSdtError {
    /// The buffer is shorter than a header, or the declared length
    /// disagrees with the buffer length.
    InvalidSize,
    /// The bytes do not sum to 0 modulo 256.
    BadChecksum,
}

proof fn lemma_sum_bytes_prefix(b: Seq<u8>, i: int)
    requires
        0 <= i < b.len(),
    ensures
        sum_bytes(b.subrange(0, i + 1)) == sum_bytes(b.subrange(0, i)) + b[i],
{
    assert(b.subrange(0, i + 1).drop_last() =~= b.subrange(0, i));
    assert(b.subrange(0, i + 1).last() == b[i]);
}

/// The wrapping byte-sum over a whole buffer, which equals the full sum
/// modulo 256.
pub fn checksum_of(bytes: &Vec<u8>) -> (sum: u8)
    ensures
        sum as int == sum_bytes(bytes@) % 256,
{
    let mut acc: u8 = 0;
    let n = bytes.len();
    for i in 0..n
        invariant
            n == bytes@.len(),
            acc as int == sum_bytes(bytes@.subrange(0, i as int)) % 256,
    {
        proof {
            lemma_sum_bytes_prefix(bytes@, i as int);
            lemma_add_mod_noop(sum_bytes(bytes@.subrange(0, i as int)), bytes@[i as int] as int, 256);
        }
        acc = acc.wrapping_add(bytes[i]);
    }
    proof {
        assert(bytes@.subrange(0, n as int) =~= bytes@);
    }
    acc
}

/// A validated System Description Table: an owned byte buffer whose
/// declared length equals its real length and whose bytes sum to 0 modulo
/// 256. No value of this type exists unless both hold.
#[derive(Debug)]
pub struct Sdt {
    bytes: Vec<u8>,
}

impl View for Sdt {
    type V = Seq<u8>;

    closed spec fn view(&self) -> Seq<u8> {
        self.bytes@
    }
}

impl Sdt {
    /// Both table invariants, established once at construction.
    #[verifier::type_invariant]
    pub open spec fn wf(&self) -> bool {
        wf_table(self@)
    }

    /// The validation gate: the only way a byte buffer becomes a table.
    pub fn new(bytes: Vec<u8>) -> (r: Result<Sdt, InvalidSdtError>)
        ensures
            r is Ok <==> wf_table(bytes@),
            r matches Ok(s) ==> s@ == bytes@,
            r == Err::<Sdt, InvalidSdtError>(InvalidSdtError::InvalidSize) <==> (bytes@.len()
                < SDT_HEADER_LEN || spec_table_len(bytes@) as int != bytes@.len() as int),
            r == Err::<Sdt, InvalidSdtError>(InvalidSdtError::BadChecksum) <==> (bytes@.len()
                >= SDT_HEADER_LEN && spec_table_len(bytes@) as int == bytes@.len() as int
                && !checksum_ok(bytes@)),
    {
        if bytes.len() < SDT_HEADER_LEN {
            return Err(InvalidSdtError::InvalidSize);
        }
        let declared = u32_from_le_bytes(slice_subrange(bytes.as_slice(), 4, 8));
        if declared as u64 != bytes.len() as u64 {
            return Err(InvalidSdtError::InvalidSize);
        }
        let sum = checksum_of(&bytes);
        if sum != 0 {
            return Err(InvalidSdtError::BadChecksum);
        }
        Ok(Sdt { bytes })
    }

    /// The whole table, header included.
    pub fn as_slice(&self) -> (r: &[u8])
        ensures
            r@ == self@,
            wf_table(self@),
    {
        proof {
            use_type_invariant(self);
        }
        self.bytes.as_slice()
    }

    /// The table body: everything after the 36-byte header.
    pub fn data(&self) -> (r: &[u8])
        ensures
            wf_table(self@),
            r@ == self@.subrange(SDT_HEADER_LEN as int, self@.len() as int),
    {
        proof {
            use_type_invariant(self);
        }
        slice_subrange(self.bytes.as_slice(), SDT_HEADER_LEN, self.bytes.len())
    }

    /// The header fields, read out of the first 36 bytes.
    pub fn header(&self) -> (h: SdtHeader)
        ensures
            wf_table(self@),
            spec_header_matches(h, self@),
    {
        proof {
            use_type_invariant(self);
        }
        header_from_bytes(self.bytes.as_slice())
    }
}

impl Clone for Sdt {
    /// A clone holds the same bytes.
    fn clone(&self) -> (r: Self)
        ensures
            r@ == self@,
    {
        proof {
            use_type_invariant(self);
        }
        let bytes = self.bytes.clone();
        proof {
            assert(bytes@ =~= self.bytes@);
        }
        Sdt { bytes }
    }
}

} // verus!
