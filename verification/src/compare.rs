//! The verifier: what two or more stores give back for the same region of
//! the array must be the same bytes.
//!
//! Reading a store is the caller's part. The verifier says which region is
//! due, takes what each store gave for it, and stops at the first region on
//! which a store differs from the first one.

use crate::descriptor::{ArrayDescriptor, ConfigError};
use vstd::prelude::*;

verus! {

/// `at` is where `left` and `right` first differ: they agree before it, and
/// at it they hold different bytes or one of them ends.
pub open spec fn is_first_difference(left: Seq<u8>, right: Seq<u8>, at: nat) -> bool {
    &&& at <= left.len()
    &&& at <= right.len()
    &&& left.take(at as int) == right.take(at as int)
    &&& if at < left.len() && at < right.len() {
        left[at as int] != right[at as int]
    } else {
        left.len() != right.len()
    }
}

/// `store` is the first store whose bytes are not those of store 0.
pub open spec fn is_first_disagreeing(regions: Seq<Vec<u8>>, store: nat) -> bool {
    &&& 0 < store < regions.len()
    &&& regions[store as int]@ != regions[0]@
    &&& forall|k: int| 0 < k < store ==> (#[trigger] regions[k])@ == regions[0]@
}

/// Every store gave the bytes that store 0 gave.
pub open spec fn regions_agree(regions: Seq<Vec<u8>>) -> bool {
    forall|k: int| 0 <= k < regions.len() ==> (#[trigger] regions[k])@ == regions[0]@
}

/// Where two byte strings first differ, or `None` where they are the same.
pub fn first_difference(left: &[u8], right: &[u8]) -> (at: Option<usize>)
    ensures
        match at {
            None => left@ == right@,
            Some(at) => is_first_difference(left@, right@, at as nat),
        },
{
    let shorter: usize = if left.len() <= right.len() {
        left.len()
    } else {
        right.len()
    };
    let mut at: usize = 0;
    while at < shorter
        invariant
            at <= shorter,
            shorter <= left@.len(),
            shorter <= right@.len(),
            left@.take(at as int) == right@.take(at as int),
        decreases shorter - at,
    {
        if left[at] != right[at] {
            return Some(at);
        }
        assert(left@.take(at + 1) =~= left@.take(at as int).push(left@[at as int]));
        assert(right@.take(at + 1) =~= right@.take(at as int).push(right@[at as int]));
        at = at + 1;
    }
    if left.len() != right.len() {
        Some(at)
    } else {
        assert(left@ =~= left@.take(at as int));
        assert(right@ =~= right@.take(at as int));
        None
    }
}

/// The first store that differs from store 0 and where its bytes first
/// differ, or `None` where all stores agree.
pub fn first_disagreement(regions: &Vec<Vec<u8>>) -> (found: Option<(usize, usize)>)
    ensures
        match found {
            None => regions_agree(regions@),
            Some((store, at)) => {
                &&& is_first_disagreeing(regions@, store as nat)
                &&& is_first_difference(regions@[0]@, regions@[store as int]@, at as nat)
            },
        },
{
    let mut store: usize = 1;
    while store < regions.len()
        invariant
            1 <= store,
            forall|k: int| 0 < k < store && k < regions@.len() ==> (#[trigger] regions@[k])@
                == regions@[0]@,
        decreases regions.len() - store,
    {
        match first_difference(regions[0].as_slice(), regions[store].as_slice()) {
            Some(at) => {
                return Some((store, at));
            },
            None => {},
        }
        store = store + 1;
    }
    None
}

/// A region on which a store differs from the first store.
#[derive(Clone, Copy, Debug, PartialEq, Eq, Structural)]
pub struct VerificationMismatch {
    /// The number of the region.
    pub region: u64,
    /// The number of the chunk that the region lies in.
    pub chunk: u64,
    /// Which store differs; the first store is number 0.
    pub store: usize,
    /// Where in the region's bytes the store first differs.
    pub offset: usize,
}

/// A region of the array: in each dimension the elements from `start` up to,
/// not including, `end`.
#[derive(Clone, Copy, Debug)]
pub struct Region {
    pub start: [u64; 3],
    pub end: [u64; 3],
}

/// Walks the array region by region and holds the first mismatch.
pub struct Verifier {
    descriptor: ArrayDescriptor,
    planes: u64,
    next: u64,
    mismatch: Option<VerificationMismatch>,
}

/// Where a [`Verifier`] stands.
pub struct VerifierState {
    /// The number of the region that is due.
    pub next: nat,
    /// The mismatch that ended the comparison, if one did.
    pub mismatch: Option<VerificationMismatch>,
}

impl Verifier {
    /// The array that is compared.
    pub closed spec fn spec_descriptor(&self) -> ArrayDescriptor {
        self.descriptor
    }

    /// The number of planes of a region.
    pub closed spec fn spec_planes(&self) -> nat {
        self.planes as nat
    }

    /// Where the verifier stands.
    pub closed spec fn state(&self) -> VerifierState {
        VerifierState { next: self.next as nat, mismatch: self.mismatch }
    }

    /// The number of regions: the array's planes over the planes of a region.
    pub open spec fn spec_region_count(&self) -> nat {
        (self.spec_descriptor().spec_shape()[0] as nat) / self.spec_planes()
    }

    /// Where region `region` starts: at its first plane, at the origin of
    /// the other two dimensions.
    pub open spec fn spec_region_start(&self, region: nat) -> Seq<u64> {
        seq![(region * self.spec_planes()) as u64, 0u64, 0u64]
    }

    /// Where region `region` ends: before the next region's first plane, at
    /// the full extent of the other two dimensions.
    pub open spec fn spec_region_end(&self, region: nat) -> Seq<u64> {
        let shape = self.spec_descriptor().spec_shape();
        seq![((region + 1) * self.spec_planes()) as u64, shape[1], shape[2]]
    }

    /// The chunk that region `region` lies in.
    pub open spec fn spec_chunk_of_region(&self, region: nat) -> nat {
        (region * self.spec_planes()) / (self.spec_descriptor().spec_chunk_shape()[0] as nat)
    }

    /// The verifier's invariant: a valid descriptor, regions that are a
    /// chunk or an even part of one, and a region number within the array.
    pub closed spec fn wf(&self) -> bool {
        &&& self.descriptor.wf()
        &&& self.planes > 0
        &&& self.descriptor.spec_chunk_shape()[0] as nat % self.planes as nat == 0
        &&& self.next <= self.spec_region_count()
    }

    /// Sets a verifier up for regions of `planes` planes each. A region is a
    /// chunk or an even part of one, so `planes` divides the chunk's planes.
    pub fn new(descriptor: ArrayDescriptor, planes: u64) -> (made: Result<Verifier, ConfigError>)
        requires
            descriptor.wf(),
        ensures
            match made {
                Ok(verifier) => {
                    &&& planes > 0
                    &&& descriptor.spec_chunk_shape()[0] as nat % planes as nat == 0
                    &&& verifier.wf()
                    &&& verifier.spec_descriptor() == descriptor
                    &&& verifier.spec_planes() == planes
                    &&& verifier.state() == (VerifierState { next: 0, mismatch: None })
                },
                Err(fault) => {
                    &&& planes == 0 <==> fault == ConfigError::EmptyDimension
                    &&& planes > 0 && descriptor.spec_chunk_shape()[0] as nat % planes as nat != 0
                        <==> fault == ConfigError::NotDivisible
                    &&& fault == ConfigError::EmptyDimension || fault == ConfigError::NotDivisible
                },
            },
    {
        if planes == 0 {
            return Err(ConfigError::EmptyDimension);
        }
        proof {
            descriptor.lemma_wf();
        }
        if descriptor.chunk_shape()[0] % planes != 0 {
            return Err(ConfigError::NotDivisible);
        }
        Ok(Verifier { descriptor, planes, next: 0, mismatch: None })
    }

    /// The number of regions.
    pub fn region_count(&self) -> (count: u64)
        requires
            self.wf(),
        ensures
            count == self.spec_region_count(),
    {
        proof {
            self.descriptor.lemma_wf();
        }
        self.descriptor.shape()[0] / self.planes
    }

    /// The region to read from every store next, or `None` once all regions
    /// were compared or one mismatched.
    pub fn next_region(&self) -> (due: Option<Region>)
        requires
            self.wf(),
        ensures
            match due {
                Some(region) => {
                    &&& self.state().mismatch is None
                    &&& self.state().next < self.spec_region_count()
                    &&& region.start@ == self.spec_region_start(self.state().next)
                    &&& region.end@ == self.spec_region_end(self.state().next)
                    &&& (self.state().next + 1) * self.spec_planes()
                        <= self.spec_descriptor().spec_shape()[0]
                },
                None => self.state().mismatch is Some || self.state().next
                    >= self.spec_region_count(),
            },
    {
        if self.mismatch.is_some() || self.next >= self.region_count() {
            return None;
        }
        proof {
            self.descriptor.lemma_wf();
            self.lemma_region_within_array(self.next as nat);
            assert((self.next + 1) * self.planes == self.next * self.planes + self.planes)
                by (nonlinear_arith);
        }
        let shape = self.descriptor.shape();
        let first: u64 = self.next * self.planes;
        let start: [u64; 3] = [first, 0, 0];
        let end: [u64; 3] = [first + self.planes, shape[1], shape[2]];
        assert(start@ =~= self.spec_region_start(self.next as nat));
        assert(end@ =~= self.spec_region_end(self.next as nat));
        Some(Region { start, end })
    }

    /// The planes of a region lie within the array and within one chunk.
    pub proof fn lemma_region_within_array(&self, region: nat)
        requires
            self.wf(),
            region < self.spec_region_count(),
        ensures
            (region + 1) * self.spec_planes() <= self.spec_descriptor().spec_shape()[0],
            self.spec_chunk_of_region(region) < self.spec_descriptor().spec_chunk_count(),
            self.spec_chunk_of_region(region) * self.spec_descriptor().spec_chunk_shape()[0]
                <= region * self.spec_planes(),
            (region + 1) * self.spec_planes() <= (self.spec_chunk_of_region(region) + 1)
                * self.spec_descriptor().spec_chunk_shape()[0],
    {
        self.descriptor.lemma_wf();
        let planes = self.planes as int;
        let extent = self.descriptor.spec_shape()[0] as int;
        let chunk_planes = self.descriptor.spec_chunk_shape()[0] as int;
        let count = extent / planes;
        let first = region as int * planes;
        vstd::arithmetic::div_mod::lemma_fundamental_div_mod(extent, planes);
        vstd::arithmetic::div_mod::lemma_mod_bound(extent, planes);
        assert((region + 1) * planes <= count * planes) by (nonlinear_arith)
            requires
                region + 1 <= count,
                planes > 0,
        ;
        assert(planes * count == count * planes) by (nonlinear_arith);
        // The first plane's chunk and position in it.
        let chunk = first / chunk_planes;
        let within = first % chunk_planes;
        vstd::arithmetic::div_mod::lemma_fundamental_div_mod(first, chunk_planes);
        vstd::arithmetic::div_mod::lemma_mod_bound(first, chunk_planes);
        assert(chunk_planes * chunk == chunk * chunk_planes) by (nonlinear_arith);
        // The position is a multiple of the region's planes, so a whole
        // region fits before the chunk ends.
        let parts = chunk_planes / planes;
        vstd::arithmetic::div_mod::lemma_fundamental_div_mod(chunk_planes, planes);
        assert(chunk_planes == planes * parts);
        assert(within == planes * (region as int - parts * chunk)) by (nonlinear_arith)
            requires
                first == region as int * planes,
                first == chunk_planes * chunk + within,
                chunk_planes == planes * parts,
        ;
        let steps = region as int - parts * chunk;
        assert(steps + 1 <= parts) by (nonlinear_arith)
            requires
                within == planes * steps,
                within < chunk_planes,
                chunk_planes == planes * parts,
                planes > 0,
        ;
        assert(within + planes <= chunk_planes) by (nonlinear_arith)
            requires
                within == planes * steps,
                steps + 1 <= parts,
                chunk_planes == planes * parts,
                planes > 0,
        ;
        assert((region + 1) * planes == first + planes) by (nonlinear_arith)
            requires
                first == region as int * planes,
        ;
        assert((chunk + 1) * chunk_planes == chunk * chunk_planes + chunk_planes)
            by (nonlinear_arith);
        // The chunk is one of the array's.
        let chunks = extent / chunk_planes;
        vstd::arithmetic::div_mod::lemma_fundamental_div_mod(extent, chunk_planes);
        assert(chunk < chunks) by (nonlinear_arith)
            requires
                extent == chunk_planes * chunks,
                chunk_planes * chunk + within + planes <= extent,
                planes > 0,
                within >= 0,
                chunk_planes > 0,
        ;
    }

    /// Takes what each store gave for the region that is due. Where all agree
    /// the next region becomes due; where one differs the comparison ends and
    /// the mismatch names the region, its chunk, the store and the place.
    /// Once a mismatch was found it is given again on every call, and once
    /// all regions were compared every call succeeds.
    pub fn check(&mut self, regions: &Vec<Vec<u8>>) -> (checked: Result<(), VerificationMismatch>)
        requires
            old(self).wf(),
        ensures
            final(self).wf(),
            final(self).spec_descriptor() == old(self).spec_descriptor(),
            final(self).spec_planes() == old(self).spec_planes(),
            match old(self).state().mismatch {
                Some(earlier) => {
                    &&& checked == Err::<(), _>(earlier)
                    &&& final(self).state() == old(self).state()
                },
                None => if old(self).state().next >= old(self).spec_region_count() {
                    &&& checked is Ok
                    &&& final(self).state() == old(self).state()
                } else {
                    match checked {
                        Ok(()) => {
                            &&& regions_agree(regions@)
                            &&& final(self).state() == (VerifierState {
                                next: old(self).state().next + 1,
                                mismatch: None,
                            })
                        },
                        Err(mismatch) => {
                            &&& mismatch.region == old(self).state().next
                            &&& mismatch.chunk == old(self).spec_chunk_of_region(
                                old(self).state().next,
                            )
                            &&& is_first_disagreeing(regions@, mismatch.store as nat)
                            &&& is_first_difference(
                                regions@[0]@,
                                regions@[mismatch.store as int]@,
                                mismatch.offset as nat,
                            )
                            &&& final(self).state() == (VerifierState {
                                next: old(self).state().next,
                                mismatch: Some(mismatch),
                            })
                        },
                    }
                },
            },
    {
        if let Some(earlier) = self.mismatch {
            return Err(earlier);
        }
        if self.next >= self.region_count() {
            return Ok(());
        }
        proof {
            self.descriptor.lemma_wf();
            self.lemma_region_within_array(self.next as nat);
            assert((self.next + 1) * self.planes == self.next * self.planes + self.planes)
                by (nonlinear_arith);
        }
        match first_disagreement(regions) {
            None => {
                self.next = self.next + 1;
                Ok(())
            },
            Some((store, offset)) => {
                let first: u64 = self.next * self.planes;
                let mismatch = VerificationMismatch {
                    region: self.next,
                    chunk: first / self.descriptor.chunk_shape()[0],
                    store,
                    offset,
                };
                self.mismatch = Some(mismatch);
                Err(mismatch)
            },
        }
    }
}

} // verus!
