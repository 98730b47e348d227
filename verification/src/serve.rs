//! The serving boundary of the table store: parsing the textual table
//! paths that clients open, and the length / read / list operations that
//! the polling loop answers from the context.

use crate::context::AcpiContext;
use crate::context::sig_matches_bytes;
use crate::sdt::SdtSignature;
use crate::sdt::bytes_eq;
use vstd::prelude::*;
use vstd::slice::slice_subrange;
use vstd::slice::slice_to_vec;

verus! {

/// Whether `c` is an ASCII hexadecimal digit, either case.
pub open spec fn is_hex_digit(c: u8) -> bool {
    (48 <= c <= 57) || (97 <= c <= 102) || (65 <= c <= 70)
}

/// The numeric value of an ASCII hexadecimal digit.
pub open spec fn hex_digit_val(c: u8) -> u8
    recommends
        is_hex_digit(c),
{
    if 48 <= c <= 57 {
        (c - 48) as u8
    } else if 97 <= c <= 102 {
        (c - 87) as u8
    } else {
        (c - 55) as u8
    }
}

/// The byte encoded by two hexadecimal digits, or none when either
/// character is no digit.
pub open spec fn spec_hex_pair(hi: u8, lo: u8) -> Option<u8> {
    if is_hex_digit(hi) && is_hex_digit(lo) {
        Some((16 * hex_digit_val(hi) + hex_digit_val(lo)) as u8)
    } else {
        None
    }
}

/// Parses one hexadecimal digit, accepting both cases.
pub fn parse_hex_digit(hex: u8) -> (r: Option<u8>)
    ensures
        r == if is_hex_digit(hex) {
            Some(hex_digit_val(hex))
        } else {
            None::<u8>
        },
{
    let lower = if hex >= 65 && hex <= 90 {
        hex + 32
    } else {
        hex
    };
    if lower >= 97 && lower <= 102 {
        Some(lower - 97 + 10)
    } else if lower >= 48 && lower <= 57 {
        Some(lower - 48)
    } else {
        None
    }
}

/// Parses the byte encoded by the first two characters of `hex`.
pub fn parse_hex_2digit(hex: &[u8]) -> (r: Option<u8>)
    requires
        hex@.len() >= 2,
    ensures
        r == spec_hex_pair(hex@[0], hex@[1]),
{
    match (parse_hex_digit(hex[0]), parse_hex_digit(hex[1])) {
        (Some(hi), Some(lo)) => Some(hi * 16 + lo),
        _ => None,
    }
}

/// Parses the 6-byte OEM id encoded as 12 hexadecimal characters.
pub fn parse_oem_id(hex: [u8; 12]) -> (r: Option<[u8; 6]>)
    ensures
        r is Some <==> (forall|k: int| 0 <= k < 12 ==> is_hex_digit(#[trigger] hex@[k])),
        r matches Some(a) ==> forall|k: int| 0 <= k < 6 ==> Some(#[trigger] a@[k]) == spec_hex_pair(
            hex@[2 * k],
            hex@[2 * k + 1],
        ),
{
    let s = hex.as_slice();
    let r = match (
        parse_hex_2digit(slice_subrange(s, 0, 2)),
        parse_hex_2digit(slice_subrange(s, 2, 4)),
        parse_hex_2digit(slice_subrange(s, 4, 6)),
        parse_hex_2digit(slice_subrange(s, 6, 8)),
        parse_hex_2digit(slice_subrange(s, 8, 10)),
        parse_hex_2digit(slice_subrange(s, 10, 12)),
    ) {
        (Some(b0), Some(b1), Some(b2), Some(b3), Some(b4), Some(b5)) => {
            let a: [u8; 6] = [b0, b1, b2, b3, b4, b5];
            Some(a)
        },
        _ => None,
    };
    proof {
        if r is None {
            assert(!(forall|k: int| 0 <= k < 12 ==> is_hex_digit(#[trigger] hex@[k]))) by {
                assert(exists|k: int| 0 <= k < 12 && !is_hex_digit(#[trigger] hex@[k]));
            }
        }
    }
    r
}

/// Parses the 8-byte OEM table id encoded as 16 hexadecimal characters.
pub fn parse_oem_table_id(hex: [u8; 16]) -> (r: Option<[u8; 8]>)
    ensures
        r is Some <==> (forall|k: int| 0 <= k < 16 ==> is_hex_digit(#[trigger] hex@[k])),
        r matches Some(a) ==> forall|k: int| 0 <= k < 8 ==> Some(#[trigger] a@[k]) == spec_hex_pair(
            hex@[2 * k],
            hex@[2 * k + 1],
        ),
{
    let s = hex.as_slice();
    let r = match (
        parse_hex_2digit(slice_subrange(s, 0, 2)),
        parse_hex_2digit(slice_subrange(s, 2, 4)),
        parse_hex_2digit(slice_subrange(s, 4, 6)),
        parse_hex_2digit(slice_subrange(s, 6, 8)),
        parse_hex_2digit(slice_subrange(s, 8, 10)),
        parse_hex_2digit(slice_subrange(s, 10, 12)),
        parse_hex_2digit(slice_subrange(s, 12, 14)),
        parse_hex_2digit(slice_subrange(s, 14, 16)),
    ) {
        (Some(b0), Some(b1), Some(b2), Some(b3), Some(b4), Some(b5), Some(b6), Some(b7)) => {
            let a: [u8; 8] = [b0, b1, b2, b3, b4, b5, b6, b7];
            Some(a)
        },
        _ => None,
    };
    proof {
        if r is None {
            assert(!(forall|k: int| 0 <= k < 16 ==> is_hex_digit(#[trigger] hex@[k]))) by {
                assert(exists|k: int| 0 <= k < 16 && !is_hex_digit(#[trigger] hex@[k]));
            }
        }
    }
    r
}

/// Whether `t` is a well-formed textual table name:
/// `TAG-<12 hex characters>-<16 hex characters>`, 34 bytes in all.
pub open spec fn spec_parse_table_ok(t: Seq<u8>) -> bool {
    &&& t.len() == 34
    &&& t[4] == 45
    &&& t[17] == 45
    &&& forall|k: int| 5 <= k < 17 ==> is_hex_digit(#[trigger] t[k])
    &&& forall|k: int| 18 <= k < 34 ==> is_hex_digit(#[trigger] t[k])
}

/// Parses a textual table name into the composite key it encodes.
pub fn parse_table(table: &[u8]) -> (r: Option<SdtSignature>)
    ensures
        r is Some <==> spec_parse_table_ok(table@),
        r matches Some(sig) ==> ({
            &&& sig.signature@ == table@.subrange(0, 4)
            &&& forall|k: int| 0 <= k < 6 ==> Some(#[trigger] sig.oem_id@[k]) == spec_hex_pair(
                table@[5 + 2 * k],
                table@[6 + 2 * k],
            )
            &&& forall|k: int| 0 <= k < 8 ==> Some(#[trigger] sig.oem_table_id@[k])
                == spec_hex_pair(table@[18 + 2 * k], table@[19 + 2 * k])
        }),
{
    if table.len() != 34 {
        return None;
    }
    if table[4] != 45 || table[17] != 45 {
        return None;
    }
    let oem_hex: [u8; 12] = [
        table[5],
        table[6],
        table[7],
        table[8],
        table[9],
        table[10],
        table[11],
        table[12],
        table[13],
        table[14],
        table[15],
        table[16],
    ];
    let oem_table_hex: [u8; 16] = [
        table[18],
        table[19],
        table[20],
        table[21],
        table[22],
        table[23],
        table[24],
        table[25],
        table[26],
        table[27],
        table[28],
        table[29],
        table[30],
        table[31],
        table[32],
        table[33],
    ];
    let oem_id = match parse_oem_id(oem_hex) {
        Some(a) => a,
        None => {
            proof {
                assert(exists|k: int| 0 <= k < 12 && !is_hex_digit(#[trigger] oem_hex@[k]));
                let k = choose|k: int| 0 <= k < 12 && !is_hex_digit(#[trigger] oem_hex@[k]);
                assert(!is_hex_digit(table@[5 + k]));
            }
            return None;
        },
    };
    let oem_table_id = match parse_oem_table_id(oem_table_hex) {
        Some(a) => a,
        None => {
            proof {
                assert(exists|k: int| 0 <= k < 16 && !is_hex_digit(#[trigger] oem_table_hex@[k]));
                let k = choose|k: int| 0 <= k < 16 && !is_hex_digit(#[trigger] oem_table_hex@[k]);
                assert(!is_hex_digit(table@[18 + k]));
            }
            return None;
        },
    };
    let signature: [u8; 4] = [table[0], table[1], table[2], table[3]];
    proof {
        assert(signature@ =~= table@.subrange(0, 4));
        assert(forall|k: int| 5 <= k < 17 ==> is_hex_digit(#[trigger] table@[k])) by {
            assert(forall|k: int| 5 <= k < 17 ==> table@[k] == oem_hex@[k - 5]);
        }
        assert(forall|k: int| 18 <= k < 34 ==> is_hex_digit(#[trigger] table@[k])) by {
            assert(forall|k: int| 18 <= k < 34 ==> table@[k] == oem_table_hex@[k - 18]);
        }
    }
    Some(SdtSignature { signature, oem_id, oem_table_id })
}

/// One handle into the store, as the serving loop keeps it between an
/// open and the operation that uses it.
#[derive(Clone, Copy, Debug, PartialEq, Eq)]
pub enum AcpiHandle {
    /// Nothing is open.
    NoHandle,
    /// The root directory.
    TopLevel,
    /// The directory of all tables.
    Tables,
    /// One table, by its composite key.
    Table(SdtSignature),
}

/// The name of the root directory of tables, "tables", as bytes.
pub open spec fn spec_tables_path() -> Seq<u8> {
    seq![116u8, 97u8, 98u8, 108u8, 101u8, 115u8]
}

fn tables_path() -> (t: [u8; 6])
    ensures
        t@ == spec_tables_path(),
{
    let t: [u8; 6] = [116, 97, 98, 108, 101, 115];
    proof {
        assert(t@ =~= spec_tables_path());
    }
    t
}

/// What opening `p` resolves to: the root for an empty path, the table
/// directory for "tables", one table for "tables:<name>" with a
/// well-formed name, and no new handle for anything else.
pub open spec fn spec_path_is_table(p: Seq<u8>) -> bool {
    &&& p.len() >= 7
    &&& p.subrange(0, 6) == spec_tables_path()
    &&& p[6] == 58
    &&& spec_parse_table_ok(p.skip(7))
}

/// Resolves a path to the handle it opens, or none when the path opens
/// nothing and the current handle stays as it is.
pub fn open_path(path: &[u8]) -> (r: Option<AcpiHandle>)
    ensures
        r is Some <==> (path@.len() == 0 || path@ == spec_tables_path() || spec_path_is_table(
            path@,
        )),
        path@.len() == 0 ==> r == Some(AcpiHandle::TopLevel),
        path@ == spec_tables_path() ==> r == Some(AcpiHandle::Tables),
        r matches Some(AcpiHandle::Table(sig)) ==> ({
            &&& spec_path_is_table(path@)
            &&& sig.signature@ == path@.subrange(7, 11)
            &&& forall|k: int| 0 <= k < 6 ==> Some(#[trigger] sig.oem_id@[k]) == spec_hex_pair(
                path@[12 + 2 * k],
                path@[13 + 2 * k],
            )
            &&& forall|k: int| 0 <= k < 8 ==> Some(#[trigger] sig.oem_table_id@[k])
                == spec_hex_pair(path@[25 + 2 * k], path@[26 + 2 * k])
        }),
        spec_path_is_table(path@) ==> (r matches Some(AcpiHandle::Table(sig))),
{
    if path.len() == 0 {
        return Some(AcpiHandle::TopLevel);
    }
    let tables = tables_path();
    if bytes_eq(path, tables.as_slice()) {
        return Some(AcpiHandle::Tables);
    }
    if path.len() < 7 {
        return None;
    }
    if !bytes_eq(slice_subrange(path, 0, 6), tables.as_slice()) || path[6] != 58 {
        return None;
    }
    let rest = slice_subrange(path, 7, path.len());
    proof {
        assert(rest@ =~= path@.skip(7));
    }
    match parse_table(rest) {
        Some(sig) => Some(AcpiHandle::Table(sig)),
        None => None,
    }
}

/// The hexadecimal character, upper case, of a value below 16.
pub open spec fn spec_hex_upper(v: u8) -> u8
    recommends
        v < 16,
{
    if v < 10 {
        (48 + v) as u8
    } else {
        (55 + v) as u8
    }
}

/// Each byte of `s` spelled as two upper-case hexadecimal characters,
/// in order.
pub open spec fn spec_hex_bytes(s: Seq<u8>) -> Seq<u8>
    decreases s.len(),
{
    if s.len() == 0 {
        Seq::empty()
    } else {
        spec_hex_bytes(s.drop_last()) + seq![
            spec_hex_upper((s.last() / 16) as u8),
            spec_hex_upper((s.last() % 16) as u8),
        ]
    }
}

/// The textual name a table is listed under:
/// the 4 raw tag bytes, the OEM id and the OEM table id in upper-case
/// hexadecimal, separated by hyphens.
pub open spec fn spec_table_name(b: Seq<u8>) -> Seq<u8>
    recommends
        b.len() >= 24,
{
    b.subrange(0, 4) + seq![45u8] + spec_hex_bytes(b.subrange(10, 16)) + seq![45u8]
        + spec_hex_bytes(b.subrange(16, 24))
}

proof fn lemma_hex_bytes_len(s: Seq<u8>)
    ensures
        spec_hex_bytes(s).len() == 2 * s.len(),
    decreases s.len(),
{
    if s.len() > 0 {
        lemma_hex_bytes_len(s.drop_last());
    }
}

proof fn lemma_hex_bytes_index(s: Seq<u8>, k: int)
    requires
        0 <= k < s.len(),
    ensures
        spec_hex_bytes(s).len() == 2 * s.len(),
        spec_hex_bytes(s)[2 * k] == spec_hex_upper((s[k] / 16) as u8),
        spec_hex_bytes(s)[2 * k + 1] == spec_hex_upper((s[k] % 16) as u8),
    decreases s.len(),
{
    lemma_hex_bytes_len(s);
    if k < s.len() - 1 {
        lemma_hex_bytes_index(s.drop_last(), k);
        assert(s.drop_last()[k] == s[k]);
    } else {
        lemma_hex_bytes_len(s.drop_last());
    }
}

/// A name the listing spells for a table parses back to exactly that
/// table's composite key: listing a table and opening the listed name
/// agree. Together with the contract of `parse_table`, the key parsed
/// out of `spec_table_name(b)` matches the key fields of `b`.
pub proof fn lemma_table_name_parses_back(b: Seq<u8>)
    requires
        b.len() >= 24,
    ensures
        spec_parse_table_ok(spec_table_name(b)),
        spec_table_name(b).subrange(0, 4) == b.subrange(0, 4),
        forall|k: int| 0 <= k < 6 ==> spec_hex_pair(
            #[trigger] spec_table_name(b)[5 + 2 * k],
            spec_table_name(b)[6 + 2 * k],
        ) == Some(b[10 + k]),
        forall|k: int| 0 <= k < 8 ==> spec_hex_pair(
            #[trigger] spec_table_name(b)[18 + 2 * k],
            spec_table_name(b)[19 + 2 * k],
        ) == Some(b[16 + k]),
{
    let name = spec_table_name(b);
    let oem = b.subrange(10, 16);
    let oemt = b.subrange(16, 24);
    lemma_hex_bytes_len(oem);
    lemma_hex_bytes_len(oemt);
    assert(name.subrange(0, 4) =~= b.subrange(0, 4));
    assert forall|k: int| 5 <= k < 17 implies is_hex_digit(#[trigger] name[k]) by {
        let j = k - 5;
        vstd::arithmetic::div_mod::lemma_fundamental_div_mod(j, 2);
        lemma_hex_bytes_index(oem, j / 2);
        assert(name[k] == spec_hex_bytes(oem)[j]);
    }
    assert forall|k: int| 18 <= k < 34 implies is_hex_digit(#[trigger] name[k]) by {
        let j = k - 18;
        vstd::arithmetic::div_mod::lemma_fundamental_div_mod(j, 2);
        lemma_hex_bytes_index(oemt, j / 2);
        assert(name[k] == spec_hex_bytes(oemt)[j]);
    }
    assert forall|k: int| 0 <= k < 6 implies spec_hex_pair(
        #[trigger] name[5 + 2 * k],
        name[6 + 2 * k],
    ) == Some(b[10 + k]) by {
        lemma_hex_bytes_index(oem, k);
        assert(name[5 + 2 * k] == spec_hex_upper((oem[k] / 16) as u8));
        assert(name[6 + 2 * k] == spec_hex_upper((oem[k] % 16) as u8));
        vstd::arithmetic::div_mod::lemma_fundamental_div_mod(oem[k] as int, 16);
        assert(oem[k] == b[10 + k]);
    }
    assert forall|k: int| 0 <= k < 8 implies spec_hex_pair(
        #[trigger] name[18 + 2 * k],
        name[19 + 2 * k],
    ) == Some(b[16 + k]) by {
        lemma_hex_bytes_index(oemt, k);
        assert(name[18 + 2 * k] == spec_hex_upper((oemt[k] / 16) as u8));
        assert(name[19 + 2 * k] == spec_hex_upper((oemt[k] % 16) as u8));
        vstd::arithmetic::div_mod::lemma_fundamental_div_mod(oemt[k] as int, 16);
        assert(oemt[k] == b[16 + k]);
    }
}

fn push_hex_bytes(out: &mut Vec<u8>, s: &[u8])
    ensures
        final(out)@ == old(out)@ + spec_hex_bytes(s@),
{
    let n = s.len();
    for k in 0..n
        invariant
            n == s@.len(),
            out@ == old(out)@ + spec_hex_bytes(s@.take(k as int)),
    {
        let hi = s[k] / 16;
        let lo = s[k] % 16;
        let hi_c = if hi < 10 {
            48 + hi
        } else {
            55 + hi
        };
        let lo_c = if lo < 10 {
            48 + lo
        } else {
            55 + lo
        };
        out.push(hi_c);
        out.push(lo_c);
        proof {
            assert(s@.take(k as int + 1).drop_last() =~= s@.take(k as int));
            assert(out@ =~= old(out)@ + spec_hex_bytes(s@.take(k as int + 1)));
        }
    }
    proof {
        assert(s@.take(n as int) =~= s@);
    }
}

impl AcpiContext {
    /// The size in bytes of the table with the given key, if the store
    /// holds one.
    pub fn table_length(&self, signature: &SdtSignature) -> (r: Option<usize>)
        ensures
            r is None <==> (forall|i: int| 0 <= i < self.spec_tables().len()
                ==> !sig_matches_bytes(*signature, #[trigger] self.spec_tables()[i]@)),
            r matches Some(l) ==> exists|i: int|
                {
                    &&& 0 <= i < self.spec_tables().len()
                    &&& sig_matches_bytes(*signature, #[trigger] self.spec_tables()[i]@)
                    &&& forall|j: int| 0 <= j < i ==> !sig_matches_bytes(
                        *signature,
                        #[trigger] self.spec_tables()[j]@,
                    )
                    &&& l == self.spec_tables()[i]@.len()
                },
    {
        match self.sdt_from_signature(signature) {
            Some(sdt) => Some(sdt.as_slice().len()),
            None => None,
        }
    }

    /// Up to `count` raw bytes of the table with the given key, starting
    /// at `offset` and clamped at the table end; header included.
    pub fn read_table(&self, signature: &SdtSignature, offset: usize, count: usize) -> (r: Option<
        Vec<u8>,
    >)
        ensures
            r is None <==> (forall|i: int| 0 <= i < self.spec_tables().len()
                ==> !sig_matches_bytes(*signature, #[trigger] self.spec_tables()[i]@)),
            r matches Some(v) ==> exists|i: int|
                {
                    let b = (#[trigger] self.spec_tables()[i])@;
                    let off = if offset < b.len() {
                        offset as int
                    } else {
                        b.len() as int
                    };
                    let n = if count < b.len() - off {
                        count as int
                    } else {
                        b.len() - off
                    };
                    &&& 0 <= i < self.spec_tables().len()
                    &&& sig_matches_bytes(*signature, b)
                    &&& forall|j: int| 0 <= j < i ==> !sig_matches_bytes(
                        *signature,
                        #[trigger] self.spec_tables()[j]@,
                    )
                    &&& v@ == b.subrange(off, off + n)
                },
    {
        let sdt = match self.sdt_from_signature(signature) {
            Some(sdt) => sdt,
            None => { return None; },
        };
        let b = sdt.as_slice();
        let off = if offset < b.len() {
            offset
        } else {
            b.len()
        };
        let rest = b.len() - off;
        let n = if count < rest {
            count
        } else {
            rest
        };
        Some(slice_to_vec(slice_subrange(b, off, off + n)))
    }

    /// The listing of the table directory: one name per table, in store
    /// order.
    pub fn list_table_names(&self) -> (r: Vec<Vec<u8>>)
        ensures
            r@.len() == self.spec_tables().len(),
            forall|i: int| 0 <= i < r@.len() ==> (#[trigger] r@[i])@ == spec_table_name(
                self.spec_tables()[i]@,
            ),
    {
        let tables = self.tables();
        let n = tables.len();
        let mut out: Vec<Vec<u8>> = Vec::new();
        for k in 0..n
            invariant
                n == self.spec_tables().len(),
                tables@ == self.spec_tables(),
                out@.len() == k,
                forall|i: int| 0 <= i < k ==> (#[trigger] out@[i])@ == spec_table_name(
                    self.spec_tables()[i]@,
                ),
        {
            let b = tables[k].as_slice();
            let mut name: Vec<u8> = slice_to_vec(slice_subrange(b, 0, 4));
            name.push(45);
            push_hex_bytes(&mut name, slice_subrange(b, 10, 16));
            name.push(45);
            push_hex_bytes(&mut name, slice_subrange(b, 16, 24));
            proof {
                assert(name@ =~= spec_table_name(self.spec_tables()[k as int]@));
            }
            out.push(name);
        }
        out
    }
}

} // verus!
