//! The table store: owns every validated table, the signature-ordered
//! index used as a handle table, and the FADT/DSDT bootstrap.

use crate::aml::Dsdt;
use crate::aml::Ssdt;
use crate::aml::spec_dsdt_tag;
use crate::aml::spec_ssdt_tag;
use crate::aml::ssdt_tag;
use crate::fadt::FADT_V1_LEN;
use crate::fadt::Fadt;
use crate::fadt::facp_tag;
use crate::fadt::spec_dsdt_physaddr;
use crate::fadt::spec_facp_tag;
use crate::phys::PhysicalMemory;
use crate::phys::TablePhysLoadError;
use crate::phys::table_bytes_at;
use crate::sdt::Sdt;
use crate::sdt::SdtSignature;
use crate::sdt::bytes_eq;
use crate::sdt::spec_tag;
use crate::sdt::wf_table;
use vstd::prelude::*;
use vstd::slice::slice_subrange;

verus! {

/// Whether the composite key `sig` is the one laid out in the header
/// bytes of the table `b`.
pub open spec fn sig_matches_bytes(sig: SdtSignature, b: Seq<u8>) -> bool
    recommends
        b.len() >= 24,
{
    &&& sig.signature@ == b.subrange(0, 4)
    &&& sig.oem_id@ == b.subrange(10, 16)
    &&& sig.oem_table_id@ == b.subrange(16, 24)
}

/// Whether some table of `ts` carries the tag.
pub open spec fn has_tag(ts: Seq<Sdt>, tag: Seq<u8>) -> bool {
    exists|i: int| 0 <= i < ts.len() && #[trigger] spec_tag(ts[i]@) == tag
}

/// Whether position `i` holds the first table of `ts` carrying the tag.
pub open spec fn first_tag_pos_is(ts: Seq<Sdt>, tag: Seq<u8>, i: int) -> bool {
    &&& 0 <= i < ts.len()
    &&& spec_tag(ts[i]@) == tag
    &&& forall|j: int| 0 <= j < i ==> #[trigger] spec_tag(ts[j]@) != tag
}

/// The bytes of the tables of `ts` carrying the tag, in their relative
/// order, and nothing else.
pub open spec fn views_with_tag(ts: Seq<Sdt>, tag: Seq<u8>) -> Seq<Seq<u8>>
    decreases ts.len(),
{
    if ts.len() == 0 {
        Seq::empty()
    } else {
        let rest = views_with_tag(ts.drop_last(), tag);
        if spec_tag(ts.last()@) == tag {
            rest.push(ts.last()@)
        } else {
            rest
        }
    }
}

proof fn lemma_views_with_tag_step(ts: Seq<Sdt>, tag: Seq<u8>, k: int)
    requires
        0 <= k < ts.len(),
    ensures
        views_with_tag(ts.take(k + 1), tag) == if spec_tag(ts[k]@) == tag {
            views_with_tag(ts.take(k), tag).push(ts[k]@)
        } else {
            views_with_tag(ts.take(k), tag)
        },
{
    assert(ts.take(k + 1).drop_last() =~= ts.take(k));
    assert(ts.take(k + 1).last() == ts[k]);
}

/// The owned store of all validated tables, the cached FADT and DSDT,
/// and the append-only signature index that serves as the handle table.
pub struct AcpiContext {
    tables: Vec<Sdt>,
    dsdt: Option<Dsdt>,
    fadt: Option<Fadt>,
    sdt_order: Vec<Option<SdtSignature>>,
    /// Reserved for a future handle allocator; nothing reads it yet.
    pub next_ctx: u64,
}

impl AcpiContext {
    /// The tables the context owns, in discovery order.
    pub closed spec fn spec_tables(&self) -> Seq<Sdt> {
        self.tables@
    }

    /// The signature index: position to key, in registration order.
    pub closed spec fn spec_index(&self) -> Seq<Option<SdtSignature>> {
        self.sdt_order@
    }

    /// The cached FADT, if the bootstrap found one.
    pub closed spec fn spec_fadt(&self) -> Option<Fadt> {
        self.fadt
    }

    /// The cached DSDT, if the bootstrap loaded one.
    pub closed spec fn spec_dsdt(&self) -> Option<Dsdt> {
        self.dsdt
    }

    /// The reserved handle counter.
    pub closed spec fn spec_next_ctx(&self) -> u64 {
        self.next_ctx
    }

    /// Loads every root-pointed table, registers each signature in the
    /// index in arrival order, then runs the FADT bootstrap. A failure
    /// loading a root table fails the whole construction.
    pub fn init<M: PhysicalMemory>(mem: &M, rxsdt_physaddrs: &[u64]) -> (r: Result<
        AcpiContext,
        TablePhysLoadError,
    >)
        requires
            forall|i: int| 0 <= i < rxsdt_physaddrs@.len() ==> rxsdt_physaddrs@[i]
                <= usize::MAX as u64,
        ensures
            r matches Ok(ctx) ==> ({
                let p = mem.mem();
                let n = rxsdt_physaddrs@.len() as int;
                &&& ctx.spec_index().len() == n
                &&& n <= ctx.spec_tables().len() <= n + 1
                &&& forall|i: int| 0 <= i < n ==> (#[trigger] ctx.spec_tables()[i]@)
                    == table_bytes_at(p, rxsdt_physaddrs@[i] as int)
                &&& forall|i: int| 0 <= i < n ==> wf_table(#[trigger] ctx.spec_tables()[i]@)
                &&& forall|i: int| 0 <= i < n ==> (#[trigger] ctx.spec_index()[i]) is Some
                    && sig_matches_bytes(ctx.spec_index()[i].unwrap(), ctx.spec_tables()[i]@)
                &&& ctx.spec_next_ctx() == 0
                &&& ((ctx.spec_tables().len() == n && ctx.spec_fadt() is None && ctx.spec_dsdt()
                    is None) || ({
                    &&& ctx.spec_tables().len() == n + 1
                    &&& ctx.spec_fadt() is Some
                    &&& ctx.spec_dsdt() is Some
                    &&& exists|i: int|
                        {
                            &&& #[trigger] first_tag_pos_is(
                                ctx.spec_tables().subrange(0, n),
                                spec_facp_tag(),
                                i,
                            )
                            &&& ctx.spec_tables()[i]@.len() >= FADT_V1_LEN
                            &&& ctx.spec_fadt().unwrap()@ == ctx.spec_tables()[i]@
                            &&& ctx.spec_dsdt().unwrap()@ == table_bytes_at(
                                p,
                                spec_dsdt_physaddr(ctx.spec_tables()[i]@),
                            )
                        }
                    &&& wf_table(ctx.spec_dsdt().unwrap()@)
                    &&& spec_tag(ctx.spec_dsdt().unwrap()@) == spec_dsdt_tag()
                    &&& ctx.spec_tables()[n]@ == ctx.spec_dsdt().unwrap()@
                }))
            }),
    {
        let n = rxsdt_physaddrs.len();
        let mut tables: Vec<Sdt> = Vec::new();
        for k in 0..n
            invariant
                n == rxsdt_physaddrs@.len(),
                forall|i: int| 0 <= i < n ==> rxsdt_physaddrs@[i] <= usize::MAX as u64,
                tables@.len() == k,
                forall|i: int| 0 <= i < k ==> (#[trigger] tables@[i]@) == table_bytes_at(
                    mem.mem(),
                    rxsdt_physaddrs@[i] as int,
                ),
                forall|i: int| 0 <= i < k ==> wf_table(#[trigger] tables@[i]@),
        {
            let physaddr = rxsdt_physaddrs[k] as usize;
            match Sdt::load_from_physical(mem, physaddr) {
                Ok(sdt) => { tables.push(sdt); },
                Err(e) => { return Err(e); },
            }
        }

        let mut sdt_order: Vec<Option<SdtSignature>> = Vec::new();
        for k in 0..n
            invariant
                n == tables@.len(),
                sdt_order@.len() == k,
                forall|i: int| 0 <= i < n ==> wf_table(#[trigger] tables@[i]@),
                forall|i: int| 0 <= i < k ==> (#[trigger] sdt_order@[i]) is Some
                    && sig_matches_bytes(sdt_order@[i].unwrap(), tables@[i]@),
        {
            let header = tables[k].header();
            sdt_order.push(Some(header.signature()));
        }

        let mut this = AcpiContext { tables, dsdt: None, fadt: None, sdt_order, next_ctx: 0 };
        let ghost pre = this;
        Fadt::init(&mut this, mem);
        proof {
            let nn = n as int;
            if this.spec_fadt() is Some {
                let ts = pre.spec_tables();
                assert(this.spec_tables().subrange(0, nn) =~= ts);
                let i = choose|i: int|
                    {
                        &&& #[trigger] first_tag_pos_is(ts, spec_facp_tag(), i)
                        &&& ts[i]@.len() >= FADT_V1_LEN
                        &&& this.spec_fadt().unwrap()@ == ts[i]@
                        &&& this.spec_dsdt().unwrap()@ == table_bytes_at(
                            mem.mem(),
                            spec_dsdt_physaddr(ts[i]@),
                        )
                    };
                assert(this.spec_tables()[i] == ts[i]);
                assert(first_tag_pos_is(this.spec_tables().subrange(0, nn), spec_facp_tag(), i));
                assert forall|i2: int| 0 <= i2 < nn implies (#[trigger] this.spec_tables()[i2])
                    == ts[i2] by {
                    assert(this.spec_tables().subrange(0, nn)[i2] == this.spec_tables()[i2]);
                }
            }
        }
        Ok(this)
    }

    /// The cached DSDT, present once the bootstrap has loaded it.
    pub fn dsdt(&self) -> (r: Option<&Dsdt>)
        ensures
            r is Some <==> self.spec_dsdt() is Some,
            r matches Some(d) ==> self.spec_dsdt() == Some(*d),
    {
        self.dsdt.as_ref()
    }

    /// The cached FADT, present once the bootstrap has found it.
    pub fn fadt(&self) -> (r: Option<&Fadt>)
        ensures
            r is Some <==> self.spec_fadt() is Some,
            r matches Some(f) ==> self.spec_fadt() == Some(*f),
    {
        self.fadt.as_ref()
    }

    /// All tables tagged "SSDT", in their relative order.
    pub fn ssdts(&self) -> (r: Vec<Ssdt>)
        ensures
            r@.map_values(|s: Ssdt| s@) == views_with_tag(self.spec_tables(), spec_ssdt_tag()),
    {
        let tag = ssdt_tag();
        let mut out: Vec<Ssdt> = Vec::new();
        let n = self.tables.len();
        for k in 0..n
            invariant
                n == self.spec_tables().len(),
                out@.map_values(|s: Ssdt| s@) == views_with_tag(
                    self.spec_tables().take(k as int),
                    tag@,
                ),
                tag@ == spec_ssdt_tag(),
        {
            let t = &self.tables[k];
            let matched = bytes_eq(slice_subrange(t.as_slice(), 0, 4), tag.as_slice());
            if matched {
                if let Some(s) = Ssdt::new(t.clone()) {
                    out.push(s);
                }
            }
            proof {
                lemma_views_with_tag_step(self.spec_tables(), tag@, k as int);
                assert(out@.map_values(|s: Ssdt| s@) =~= views_with_tag(
                    self.spec_tables().take(k as int + 1),
                    tag@,
                ));
            }
        }
        proof {
            assert(self.spec_tables().take(n as int) =~= self.spec_tables());
        }
        out
    }

    /// Position of the first table carrying the tag, if any table does.
    fn find_single_sdt_pos(&self, signature: [u8; 4]) -> (r: Option<usize>)
        ensures
            r is Some <==> has_tag(self.spec_tables(), signature@),
            r matches Some(i) ==> first_tag_pos_is(self.spec_tables(), signature@, i as int),
    {
        let n = self.tables.len();
        for k in 0..n
            invariant
                n == self.spec_tables().len(),
                forall|j: int| 0 <= j < k ==> #[trigger] spec_tag(self.spec_tables()[j]@)
                    != signature@,
        {
            let t = &self.tables[k];
            if bytes_eq(slice_subrange(t.as_slice(), 0, 4), signature.as_slice()) {
                proof {
                    assert(spec_tag(self.spec_tables()[k as int]@) == signature@);
                }
                return Some(k);
            }
        }
        None
    }

    /// All tables carrying the tag, in their relative order. Several
    /// tables may legitimately share a tag (the SSDTs do).
    pub fn find_multiple_sdts(&self, signature: [u8; 4]) -> (r: Vec<Sdt>)
        ensures
            r@.map_values(|s: Sdt| s@) == views_with_tag(self.spec_tables(), signature@),
    {
        let mut out: Vec<Sdt> = Vec::new();
        let n = self.tables.len();
        for k in 0..n
            invariant
                n == self.spec_tables().len(),
                out@.map_values(|s: Sdt| s@) == views_with_tag(
                    self.spec_tables().take(k as int),
                    signature@,
                ),
        {
            let t = &self.tables[k];
            if bytes_eq(slice_subrange(t.as_slice(), 0, 4), signature.as_slice()) {
                out.push(t.clone());
            }
            proof {
                lemma_views_with_tag_step(self.spec_tables(), signature@, k as int);
                assert(out@.map_values(|s: Sdt| s@) =~= views_with_tag(
                    self.spec_tables().take(k as int + 1),
                    signature@,
                ));
            }
        }
        proof {
            assert(self.spec_tables().take(n as int) =~= self.spec_tables());
        }
        out
    }

    /// A copy of the first table carrying the tag, for tables that are
    /// expected to be singletons (such as the FADT).
    pub fn take_single_sdt(&self, signature: [u8; 4]) -> (r: Option<Sdt>)
        ensures
            r is Some <==> has_tag(self.spec_tables(), signature@),
            r matches Some(s) ==> exists|i: int|
                #[trigger] first_tag_pos_is(self.spec_tables(), signature@, i) && s@
                    == self.spec_tables()[i]@,
    {
        match self.find_single_sdt_pos(signature) {
            Some(pos) => {
                let s = self.tables[pos].clone();
                proof {
                    assert(first_tag_pos_is(self.spec_tables(), signature@, pos as int));
                }
                Some(s)
            },
            None => None,
        }
    }

    /// The first table whose composite key matches all three fields of
    /// `signature` exactly, if one exists.
    pub fn sdt_from_signature(&self, signature: &SdtSignature) -> (r: Option<&Sdt>)
        ensures
            r is None <==> (forall|i: int| 0 <= i < self.spec_tables().len()
                ==> !sig_matches_bytes(*signature, #[trigger] self.spec_tables()[i]@)),
            r matches Some(s) ==> exists|i: int|
                {
                    &&& 0 <= i < self.spec_tables().len()
                    &&& *s == self.spec_tables()[i]
                    &&& sig_matches_bytes(*signature, #[trigger] self.spec_tables()[i]@)
                    &&& forall|j: int| 0 <= j < i ==> !sig_matches_bytes(
                        *signature,
                        #[trigger] self.spec_tables()[j]@,
                    )
                },
    {
        let n = self.tables.len();
        for k in 0..n
            invariant
                n == self.spec_tables().len(),
                forall|j: int| 0 <= j < k ==> !sig_matches_bytes(
                    *signature,
                    #[trigger] self.spec_tables()[j]@,
                ),
        {
            let t = &self.tables[k];
            let b = t.as_slice();
            if bytes_eq(slice_subrange(b, 0, 4), signature.signature.as_slice()) && bytes_eq(
                slice_subrange(b, 10, 16),
                signature.oem_id.as_slice(),
            ) && bytes_eq(slice_subrange(b, 16, 24), signature.oem_table_id.as_slice()) {
                return Some(t);
            }
        }
        None
    }

    /// The key registered at `index`, if the index reaches that far.
    pub fn get_signature_from_index(&self, index: usize) -> (r: Option<SdtSignature>)
        ensures
            r == if index < self.spec_index().len() {
                self.spec_index()[index as int]
            } else {
                None::<SdtSignature>
            },
    {
        if index < self.sdt_order.len() {
            self.sdt_order[index]
        } else {
            None
        }
    }

    /// The position of the most recent registration of `signature`: a
    /// later entry shadows earlier ones of the same key.
    pub fn get_index_from_signature(&self, signature: &SdtSignature) -> (r: Option<usize>)
        ensures
            r is None <==> (forall|j: int| 0 <= j < self.spec_index().len()
                ==> #[trigger] self.spec_index()[j] != Some(*signature)),
            r matches Some(i) ==> ({
                &&& i < self.spec_index().len()
                &&& self.spec_index()[i as int] == Some(*signature)
                &&& forall|j: int| i < j < self.spec_index().len()
                    ==> #[trigger] self.spec_index()[j] != Some(*signature)
            }),
            // a registration at any position resolves at that position or
            // a later one: later registrations of a key shadow earlier ones
            forall|j: int| 0 <= j < self.spec_index().len() && #[trigger] self.spec_index()[j]
                == Some(*signature) ==> (r is Some && j <= r.unwrap() as int),
    {
        let mut k = self.sdt_order.len();
        while k > 0
            invariant
                k <= self.spec_index().len(),
                forall|j: int| k <= j < self.spec_index().len() ==> #[trigger] self.spec_index()[j]
                    != Some(*signature),
            decreases k,
        {
            k = k - 1;
            match &self.sdt_order[k] {
                Some(sig) => {
                    if sig.same_key(signature) {
                        return Some(k);
                    }
                },
                None => {},
            }
        }
        None
    }

    /// All tables, in store order.
    pub fn tables(&self) -> (r: &[Sdt])
        ensures
            r@ == self.spec_tables(),
    {
        self.tables.as_slice()
    }

    /// Appends one key to the index; the index only ever grows.
    pub fn new_index(&mut self, signature: &SdtSignature)
        ensures
            final(self).spec_index() == old(self).spec_index().push(Some(*signature)),
            final(self).spec_tables() == old(self).spec_tables(),
            final(self).spec_fadt() == old(self).spec_fadt(),
            final(self).spec_dsdt() == old(self).spec_dsdt(),
            final(self).spec_next_ctx() == old(self).spec_next_ctx(),
    {
        self.sdt_order.push(Some(*signature));
    }
}

impl Fadt {
    /// The FADT bootstrap: finds the first table tagged "FACP", resolves
    /// its DSDT pointer, loads and validates the DSDT, and caches both.
    /// Any failure aborts the bootstrap and leaves the context as it
    /// was: the FADT and DSDT stay unavailable, everything else stands.
    pub fn init<M: PhysicalMemory>(context: &mut AcpiContext, mem: &M)
        ensures
            final(context).spec_index() == old(context).spec_index(),
            final(context).spec_next_ctx() == old(context).spec_next_ctx(),
            ((final(context).spec_tables() == old(context).spec_tables()
                && final(context).spec_fadt() == old(context).spec_fadt()
                && final(context).spec_dsdt() == old(context).spec_dsdt()) || ({
                let ts = old(context).spec_tables();
                &&& final(context).spec_fadt() is Some
                &&& final(context).spec_dsdt() is Some
                &&& exists|i: int|
                    {
                        &&& #[trigger] first_tag_pos_is(ts, spec_facp_tag(), i)
                        &&& ts[i]@.len() >= FADT_V1_LEN
                        &&& final(context).spec_fadt().unwrap()@ == ts[i]@
                        &&& final(context).spec_dsdt().unwrap()@ == table_bytes_at(
                            mem.mem(),
                            spec_dsdt_physaddr(ts[i]@),
                        )
                    }
                &&& wf_table(final(context).spec_dsdt().unwrap()@)
                &&& spec_tag(final(context).spec_dsdt().unwrap()@) == spec_dsdt_tag()
                &&& final(context).spec_tables().len() == ts.len() + 1
                &&& final(context).spec_tables().subrange(0, ts.len() as int) == ts
                &&& final(context).spec_tables()[ts.len() as int]@
                    == final(context).spec_dsdt().unwrap()@
            })),
    {
        let fadt_sdt = match context.take_single_sdt(facp_tag()) {
            Some(s) => s,
            None => { return; },
        };
        let fadt = match Fadt::new(fadt_sdt) {
            Some(f) => f,
            None => { return; },
        };
        let dsdt_ptr = fadt.dsdt_physaddr();
        let dsdt_sdt = match Sdt::load_from_physical(mem, dsdt_ptr) {
            Ok(s) => s,
            Err(_) => { return; },
        };
        let dsdt = match Dsdt::new(dsdt_sdt.clone()) {
            Some(d) => d,
            None => { return; },
        };
        context.fadt = Some(fadt);
        context.dsdt = Some(dsdt);
        context.tables.push(dsdt_sdt);
    }
}

} // verus!
