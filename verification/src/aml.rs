//! Typed wrappers over tables that carry AML bytecode: the DSDT, the
//! SSDTs, and the closed union of the two.

use crate::sdt::SDT_HEADER_LEN;
use crate::sdt::Sdt;
use crate::sdt::SdtHeader;
use crate::sdt::bytes_eq;
use crate::sdt::spec_header_matches;
use crate::sdt::spec_tag;
use crate::sdt::wf_table;
use vstd::prelude::*;
use vstd::slice::slice_subrange;

verus! {

/// The 4-byte tag of the DSDT.
pub open spec fn spec_dsdt_tag() -> Seq<u8> {
    seq![68u8, 83u8, 68u8, 84u8]
}

/// The 4-byte tag of an SSDT.
pub open spec fn spec_ssdt_tag() -> Seq<u8> {
    seq![83u8, 83u8, 68u8, 84u8]
}

/// The DSDT tag, "DSDT", as bytes.
pub fn dsdt_tag() -> (t: [u8; 4])
    ensures
        t@ == spec_dsdt_tag(),
{
    let t: [u8; 4] = [68, 83, 68, 84];
    proof {
        assert(t@ =~= spec_dsdt_tag());
    }
    t
}

/// The SSDT tag, "SSDT", as bytes.
pub fn ssdt_tag() -> (t: [u8; 4])
    ensures
        t@ == spec_ssdt_tag(),
{
    let t: [u8; 4] = [83, 83, 68, 84];
    proof {
        assert(t@ =~= spec_ssdt_tag());
    }
    t
}

/// A table that carries AML bytecode in its body.
pub trait AmlContainingTable {
    /// The whole table this value wraps.
    spec fn table_bytes(&self) -> Seq<u8>;

    /// The AML byte region: the table body after the 36-byte header.
    fn aml(&self) -> (r: &[u8])
        ensures
            wf_table(self.table_bytes()),
            r@ == self.table_bytes().subrange(
                SDT_HEADER_LEN as int,
                self.table_bytes().len() as int,
            ),
    ;

    /// The header fields of the wrapped table.
    fn header(&self) -> (h: SdtHeader)
        ensures
            wf_table(self.table_bytes()),
            spec_header_matches(h, self.table_bytes()),
    ;
}

/// A validated table known to be the DSDT.
#[derive(Debug)]
pub struct Dsdt {
    table: Sdt,
}

/// A validated table known to be an SSDT.
#[derive(Debug)]
pub struct Ssdt {
    table: Sdt,
}

impl View for Dsdt {
    type V = Seq<u8>;

    closed spec fn view(&self) -> Seq<u8> {
        self.table@
    }
}

impl View for Ssdt {
    type V = Seq<u8>;

    closed spec fn view(&self) -> Seq<u8> {
        self.table@
    }
}

impl Dsdt {
    #[verifier::type_invariant]
    pub open spec fn wf(&self) -> bool {
        wf_table(self@) && spec_tag(self@) == spec_dsdt_tag()
    }

    /// Accepts a table as the DSDT exactly when it carries the "DSDT" tag.
    pub fn new(sdt: Sdt) -> (r: Option<Dsdt>)
        ensures
            r is Some <==> spec_tag(sdt@) == spec_dsdt_tag(),
            r matches Some(d) ==> d@ == sdt@,
    {
        let tag = dsdt_tag();
        if bytes_eq(slice_subrange(sdt.as_slice(), 0, 4), tag.as_slice()) {
            Some(Dsdt { table: sdt })
        } else {
            None
        }
    }
}

impl Ssdt {
    #[verifier::type_invariant]
    pub open spec fn wf(&self) -> bool {
        wf_table(self@) && spec_tag(self@) == spec_ssdt_tag()
    }

    /// Accepts a table as an SSDT exactly when it carries the "SSDT" tag.
    pub fn new(sdt: Sdt) -> (r: Option<Ssdt>)
        ensures
            r is Some <==> spec_tag(sdt@) == spec_ssdt_tag(),
            r matches Some(s) ==> s@ == sdt@,
    {
        let tag = ssdt_tag();
        if bytes_eq(slice_subrange(sdt.as_slice(), 0, 4), tag.as_slice()) {
            Some(Ssdt { table: sdt })
        } else {
            None
        }
    }
}

impl AmlContainingTable for Dsdt {
    open spec fn table_bytes(&self) -> Seq<u8> {
        self@
    }

    fn aml(&self) -> (r: &[u8]) {
        proof {
            use_type_invariant(self);
        }
        self.table.data()
    }

    fn header(&self) -> (h: SdtHeader) {
        proof {
            use_type_invariant(self);
        }
        self.table.header()
    }
}

impl AmlContainingTable for Ssdt {
    open spec fn table_bytes(&self) -> Seq<u8> {
        self@
    }

    fn aml(&self) -> (r: &[u8]) {
        proof {
            use_type_invariant(self);
        }
        self.table.data()
    }

    fn header(&self) -> (h: SdtHeader) {
        proof {
            use_type_invariant(self);
        }
        self.table.header()
    }
}

/// The closed set of AML-bearing table kinds: a table is a DSDT, an
/// SSDT, or carries no AML at all.
#[derive(Debug)]
pub enum PossibleAmlTables {
    Dsdt(Dsdt),
    Ssdt(Ssdt),
}

impl View for PossibleAmlTables {
    type V = Seq<u8>;

    open spec fn view(&self) -> Seq<u8> {
        match self {
            PossibleAmlTables::Dsdt(d) => d@,
            PossibleAmlTables::Ssdt(s) => s@,
        }
    }
}

impl PossibleAmlTables {
    /// Classifies a table by its tag into the closed union, or none when
    /// it bears no AML.
    pub fn try_new(inner: Sdt) -> (r: Option<PossibleAmlTables>)
        ensures
            r is Some <==> (spec_tag(inner@) == spec_dsdt_tag() || spec_tag(inner@)
                == spec_ssdt_tag()),
            r matches Some(t) ==> t@ == inner@,
            r matches Some(PossibleAmlTables::Dsdt(d)) ==> spec_tag(inner@) == spec_dsdt_tag(),
            r matches Some(PossibleAmlTables::Ssdt(s)) ==> spec_tag(inner@) == spec_ssdt_tag(),
    {
        let tag = dsdt_tag();
        if bytes_eq(slice_subrange(inner.as_slice(), 0, 4), tag.as_slice()) {
            match Dsdt::new(inner) {
                Some(d) => Some(PossibleAmlTables::Dsdt(d)),
                None => None,
            }
        } else {
            let tag = ssdt_tag();
            if bytes_eq(slice_subrange(inner.as_slice(), 0, 4), tag.as_slice()) {
                match Ssdt::new(inner) {
                    Some(s) => Some(PossibleAmlTables::Ssdt(s)),
                    None => None,
                }
            } else {
                None
            }
        }
    }
}

impl AmlContainingTable for PossibleAmlTables {
    open spec fn table_bytes(&self) -> Seq<u8> {
        self@
    }

    fn aml(&self) -> (r: &[u8]) {
        match self {
            PossibleAmlTables::Dsdt(d) => d.aml(),
            PossibleAmlTables::Ssdt(s) => s.aml(),
        }
    }

    fn header(&self) -> (h: SdtHeader) {
        match self {
            PossibleAmlTables::Dsdt(d) => d.header(),
            PossibleAmlTables::Ssdt(s) => s.header(),
        }
    }
}

} // verus!
