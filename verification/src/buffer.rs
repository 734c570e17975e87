//! The page-aligned staging buffer.
//!
//! One buffer is allocated for a whole run and refilled for every chunk. It
//! never grows: an append that would pass its capacity is refused, so the
//! storage made at allocation is the storage that every write is issued from.

use crate::page::{
    is_page_size, lemma_padded_len_within_capacity, lemma_padding_below_page,
    lemma_page_size_positive, padded_len, padding_for, padding_len, round_up_to_page,
    system_page_size, valid_page_size,
};
use crate::storage::{
    bytes_contents, bytes_mut_contents, bytes_mut_reserved, extend_repeated, held_bytes,
    start_align_offset,
};
use bytes::{Bytes, BytesMut};
use vstd::prelude::*;

verus! {

/// `count` zero bytes.
pub open spec fn zeros(count: nat) -> Seq<u8> {
    Seq::new(count, |i: int| 0u8)
}

/// What the buffer holds once `chunk` has been staged for a direct write:
/// the chunk's bytes, then zero bytes up to the next page boundary.
pub open spec fn staged_image(chunk: Seq<u8>, page: nat) -> Seq<u8> {
    chunk + zeros(padding_len(chunk.len(), page))
}

/// Why no aligned buffer could be made.
#[derive(Clone, Copy, Debug, PartialEq, Eq, Structural)]
pub enum AllocationError {
    /// The page size is not a power of two.
    InvalidPageSize,
    /// The capacity, rounded up and with one page of slack, is more than one
    /// allocation can hold.
    TooLarge,
    /// No page boundary lies within the first page of the storage.
    Unaligned,
}

/// An append that the buffer refused.
#[derive(Clone, Copy, Debug, PartialEq, Eq, Structural)]
pub struct CapacityError {
    /// The number of bytes that were to be appended.
    pub requested: usize,
    /// The number of bytes that the buffer still had room for.
    pub available: usize,
}

/// Byte storage that starts on a page boundary, with a length cursor.
pub struct AlignedBuffer {
    storage: BytesMut,
    capacity: usize,
    page_size: usize,
}

/// An [`AlignedBuffer`] lent out as an immutable handle, to be taken back
/// once nobody else holds it.
pub struct FrozenBuffer {
    frozen: Bytes,
    capacity: usize,
    page_size: usize,
}

impl View for AlignedBuffer {
    type V = Seq<u8>;

    closed spec fn view(&self) -> Seq<u8> {
        bytes_mut_contents(self.storage)
    }
}

impl View for FrozenBuffer {
    type V = Seq<u8>;

    closed spec fn view(&self) -> Seq<u8> {
        bytes_contents(self.frozen)
    }
}

impl AlignedBuffer {
    /// The most bytes the buffer takes.
    pub closed spec fn spec_capacity(&self) -> nat {
        self.capacity as nat
    }

    /// The page size the buffer was allocated for.
    pub closed spec fn spec_page_size(&self) -> nat {
        self.page_size as nat
    }

    /// The buffer's invariant: the page size is a power of two, the capacity
    /// is a whole number of pages, and the length is within the capacity.
    pub closed spec fn wf(&self) -> bool {
        &&& valid_page_size(self.page_size as nat)
        &&& self.capacity as nat % self.page_size as nat == 0
        &&& self@.len() <= self.capacity
    }

    /// The capacity is within the room that the storage was made with. No
    /// append passes the capacity, so while this holds no append makes
    /// `bytes` reallocate the storage, and the storage stays where it was
    /// allocated.
    pub closed spec fn in_place(&self) -> bool {
        self.capacity <= bytes_mut_reserved(self.storage)
    }

    /// What [`AlignedBuffer::wf`] says, for callers that cannot see inside.
    pub proof fn lemma_wf(&self)
        requires
            self.wf(),
        ensures
            valid_page_size(self.spec_page_size()),
            self.spec_page_size() > 0,
            self.spec_capacity() % self.spec_page_size() == 0,
            self@.len() <= self.spec_capacity(),
            self.spec_capacity() <= usize::MAX,
    {
        lemma_page_size_positive(self.page_size as nat);
    }

    /// Allocates an empty buffer that starts on a page boundary and takes
    /// `capacity` bytes rounded up to a whole number of pages.
    ///
    /// The storage is requested with one page of slack and cut at the first
    /// page boundary. Where that boundary lies is the allocator's matter, so
    /// on a valid request the result is either the buffer or `Unaligned`.
    pub fn allocate(capacity: usize, page_size: usize) -> (made: Result<
        AlignedBuffer,
        AllocationError,
    >)
        ensures
            !valid_page_size(page_size as nat) <==> made == Err::<AlignedBuffer, _>(
                AllocationError::InvalidPageSize,
            ),
            valid_page_size(page_size as nat) && padded_len(capacity as nat, page_size as nat)
                + page_size > isize::MAX <==> made == Err::<AlignedBuffer, _>(
                AllocationError::TooLarge,
            ),
            made matches Ok(buf) ==> {
                &&& buf.wf()
                &&& buf.in_place()
                &&& buf@ == Seq::<u8>::empty()
                &&& buf.spec_capacity() == padded_len(capacity as nat, page_size as nat)
                &&& buf.spec_page_size() == page_size
            },
    {
        if !is_page_size(page_size) {
            return Err(AllocationError::InvalidPageSize);
        }
        proof {
            lemma_page_size_positive(page_size as nat);
            lemma_padding_below_page(capacity as nat, page_size as nat);
        }
        let limit: usize = isize::MAX as usize;
        let rounded: usize = match round_up_to_page(capacity, page_size) {
            Some(rounded) => rounded,
            None => {
                return Err(AllocationError::TooLarge);
            },
        };
        if page_size > limit || rounded > limit - page_size {
            return Err(AllocationError::TooLarge);
        }
        let raw = BytesMut::with_capacity(rounded + page_size);
        let offset: usize = start_align_offset(&raw, page_size);
        AlignedBuffer::from_unaligned(raw, offset, rounded, page_size)
    }

    /// Cuts `offset` bytes off the front of freshly made storage and takes
    /// the rest as a buffer of `capacity` bytes, a whole number of pages.
    ///
    /// `offset` is the distance from the storage's start to the next page
    /// boundary. A distance of a page or more means that the boundary cannot
    /// be reached, and gives `Unaligned`.
    pub fn from_unaligned(
        raw: BytesMut,
        offset: usize,
        capacity: usize,
        page_size: usize,
    ) -> (made: Result<AlignedBuffer, AllocationError>)
        requires
            valid_page_size(page_size as nat),
            capacity as nat % page_size as nat == 0,
            bytes_mut_contents(raw) == Seq::<u8>::empty(),
            capacity + page_size <= bytes_mut_reserved(raw),
        ensures
            offset >= page_size <==> made == Err::<AlignedBuffer, _>(AllocationError::Unaligned),
            made matches Ok(buf) ==> {
                &&& buf.wf()
                &&& buf.in_place()
                &&& buf@ == Seq::<u8>::empty()
                &&& buf.spec_capacity() == capacity
                &&& buf.spec_page_size() == page_size
            },
            made is Ok || made == Err::<AlignedBuffer, _>(AllocationError::Unaligned),
    {
        if offset >= page_size {
            return Err(AllocationError::Unaligned);
        }
        let mut raw = raw;
        let storage = raw.split_off(offset);
        Ok(AlignedBuffer { storage, capacity, page_size })
    }

    /// The number of bytes held.
    pub fn len(&self) -> (len: usize)
        ensures
            len == self@.len(),
    {
        self.storage.len()
    }

    /// Whether the buffer holds nothing.
    pub fn is_empty(&self) -> (empty: bool)
        ensures
            empty == (self@.len() == 0),
    {
        self.storage.len() == 0
    }

    /// The most bytes the buffer takes.
    pub fn capacity(&self) -> (capacity: usize)
        ensures
            capacity == self.spec_capacity(),
    {
        self.capacity
    }

    /// The page size the buffer was allocated for.
    pub fn page_size(&self) -> (page_size: usize)
        ensures
            page_size == self.spec_page_size(),
    {
        self.page_size
    }

    /// The bytes held, for the write.
    pub fn as_slice(&self) -> (bytes: &[u8])
        ensures
            bytes@ == self@,
    {
        held_bytes(&self.storage)
    }

    /// Whether the storage starts on a page boundary right now. This reads
    /// the storage's address, of which no contract can speak; what is made of
    /// the distance that was read is [`on_page_boundary`].
    pub fn is_page_aligned(&self) -> bool
        requires
            self.wf(),
    {
        on_page_boundary(start_align_offset(&self.storage, self.page_size))
    }

    /// Resets the length to zero. The storage is neither moved nor
    /// reallocated.
    pub fn clear(&mut self)
        requires
            old(self).wf(),
        ensures
            final(self).wf(),
            old(self).in_place() ==> final(self).in_place(),
            final(self)@ == Seq::<u8>::empty(),
            final(self).spec_capacity() == old(self).spec_capacity(),
            final(self).spec_page_size() == old(self).spec_page_size(),
    {
        self.storage.clear();
    }

    /// Copies `bytes` in at the cursor, or refuses them where they would pass
    /// the capacity; a refused append changes nothing.
    pub fn append(&mut self, bytes: &[u8]) -> (done: Result<(), CapacityError>)
        requires
            old(self).wf(),
        ensures
            final(self).wf(),
            old(self).in_place() ==> final(self).in_place(),
            final(self).spec_capacity() == old(self).spec_capacity(),
            final(self).spec_page_size() == old(self).spec_page_size(),
            match done {
                Ok(()) => {
                    &&& old(self)@.len() + bytes@.len() <= old(self).spec_capacity()
                    &&& final(self)@ == old(self)@ + bytes@
                },
                Err(refused) => {
                    &&& old(self)@.len() + bytes@.len() > old(self).spec_capacity()
                    &&& final(self)@ == old(self)@
                    &&& refused.requested == bytes@.len()
                    &&& refused.available == old(self).spec_capacity() - old(self)@.len()
                },
            },
    {
        let available: usize = self.capacity - self.storage.len();
        if bytes.len() > available {
            return Err(CapacityError { requested: bytes.len(), available });
        }
        self.storage.extend_from_slice(bytes);
        Ok(())
    }

    /// Appends zero bytes until the length is a whole number of pages. A
    /// length that already is one gets none.
    pub fn pad_to_page_boundary(&mut self)
        requires
            old(self).wf(),
        ensures
            final(self).wf(),
            old(self).in_place() ==> final(self).in_place(),
            final(self).spec_capacity() == old(self).spec_capacity(),
            final(self).spec_page_size() == old(self).spec_page_size(),
            final(self)@ == old(self)@ + zeros(
                padding_len(old(self)@.len(), old(self).spec_page_size()),
            ),
            final(self)@.len() == padded_len(old(self)@.len(), old(self).spec_page_size()),
            final(self)@.len() % final(self).spec_page_size() == 0,
    {
        proof {
            lemma_page_size_positive(self.page_size as nat);
            lemma_padding_below_page(self@.len(), self.page_size as nat);
            lemma_padded_len_within_capacity(
                self@.len(),
                self.page_size as nat,
                self.capacity as nat,
            );
        }
        let pad: usize = padding_for(self.storage.len(), self.page_size);
        extend_repeated(&mut self.storage, 0u8, pad);
        assert(Seq::new(pad as nat, |i: int| 0u8) == zeros(pad as nat));
    }

    /// Stages `chunk` for a buffered store: the buffer holds the chunk's
    /// bytes and nothing else. A chunk above the capacity is refused and
    /// leaves the buffer empty.
    pub fn stage_exact(&mut self, chunk: &[u8]) -> (done: Result<(), CapacityError>)
        requires
            old(self).wf(),
        ensures
            final(self).wf(),
            old(self).in_place() ==> final(self).in_place(),
            final(self).spec_capacity() == old(self).spec_capacity(),
            final(self).spec_page_size() == old(self).spec_page_size(),
            match done {
                Ok(()) => chunk@.len() <= old(self).spec_capacity() && final(self)@ == chunk@,
                Err(refused) => {
                    &&& chunk@.len() > old(self).spec_capacity()
                    &&& final(self)@ == Seq::<u8>::empty()
                    &&& refused.requested == chunk@.len()
                    &&& refused.available == old(self).spec_capacity()
                },
            },
    {
        self.clear();
        let done = self.append(chunk);
        assert(Seq::<u8>::empty() + chunk@ == chunk@);
        done
    }

    /// Stages `chunk` for a direct write: the buffer holds the chunk's bytes
    /// followed by zero bytes up to the next page boundary. A chunk above the
    /// capacity is refused and leaves the buffer empty.
    pub fn stage(&mut self, chunk: &[u8]) -> (done: Result<(), CapacityError>)
        requires
            old(self).wf(),
        ensures
            final(self).wf(),
            old(self).in_place() ==> final(self).in_place(),
            final(self).spec_capacity() == old(self).spec_capacity(),
            final(self).spec_page_size() == old(self).spec_page_size(),
            match done {
                Ok(()) => {
                    &&& chunk@.len() <= old(self).spec_capacity()
                    &&& final(self)@ == staged_image(chunk@, old(self).spec_page_size())
                },
                Err(refused) => {
                    &&& chunk@.len() > old(self).spec_capacity()
                    &&& final(self)@ == Seq::<u8>::empty()
                    &&& refused.requested == chunk@.len()
                    &&& refused.available == old(self).spec_capacity()
                },
            },
    {
        match self.stage_exact(chunk) {
            Ok(()) => {
                self.pad_to_page_boundary();
                Ok(())
            },
            Err(refused) => Err(refused),
        }
    }

    /// Gives the buffer up as an immutable handle with the same bytes.
    pub fn freeze(self) -> (frozen: FrozenBuffer)
        requires
            self.wf(),
        ensures
            frozen.wf(),
            frozen@ == self@,
            frozen.spec_capacity() == self.spec_capacity(),
            frozen.spec_page_size() == self.spec_page_size(),
    {
        FrozenBuffer {
            frozen: self.storage.freeze(),
            capacity: self.capacity,
            page_size: self.page_size,
        }
    }
}

/// Allocates an empty buffer for the page size of this machine, which takes
/// `size` bytes rounded up to whole pages.
///
/// The page size is read from the system, and the place of the first page
/// boundary is the allocator's matter; on a size that one allocation can
/// hold the result is the buffer unless either of them stands against it.
///
/// Whatever the system reports, the result is what
/// [`AlignedBuffer::allocate`] gives for `size` and some page size: an error
/// is the one that this page size and `size` call for, and a buffer is
/// aligned to it.
pub fn bytes_aligned(size: usize) -> (made: Result<AlignedBuffer, AllocationError>)
    ensures
        exists|page_size: usize| allocated_for(size, page_size, made),
        made matches Ok(buf) ==> {
            &&& buf.wf()
            &&& buf.in_place()
            &&& buf@ == Seq::<u8>::empty()
            &&& valid_page_size(buf.spec_page_size())
            &&& buf.spec_capacity() == padded_len(size as nat, buf.spec_page_size())
            &&& buf.spec_capacity() + buf.spec_page_size() <= isize::MAX
        },
{
    let page_size: usize = system_page_size();
    let made = AlignedBuffer::allocate(size, page_size);
    assert(allocated_for(size, page_size, made));
    made
}

/// `made` is what [`AlignedBuffer::allocate`] gives for `capacity` and
/// `page_size`: `InvalidPageSize` exactly where the page size is no power of
/// two, `TooLarge` exactly where the rounded capacity with one page of slack
/// is more than one allocation can hold, and else `Unaligned` or the empty
/// buffer of the rounded capacity.
pub open spec fn allocated_for(
    capacity: usize,
    page_size: usize,
    made: Result<AlignedBuffer, AllocationError>,
) -> bool {
    &&& !valid_page_size(page_size as nat) <==> made == Err::<AlignedBuffer, _>(
        AllocationError::InvalidPageSize,
    )
    &&& valid_page_size(page_size as nat) && padded_len(capacity as nat, page_size as nat)
        + page_size > isize::MAX <==> made == Err::<AlignedBuffer, _>(AllocationError::TooLarge)
    &&& made matches Ok(buf) ==> {
        &&& buf.wf()
        &&& buf.in_place()
        &&& buf@ == Seq::<u8>::empty()
        &&& buf.spec_capacity() == padded_len(capacity as nat, page_size as nat)
        &&& buf.spec_page_size() == page_size
    }
}

/// Whether storage whose start lies `offset` bytes before the next page
/// boundary starts on one itself: it does where the distance is zero.
pub fn on_page_boundary(offset: usize) -> (aligned: bool)
    ensures
        aligned == (offset == 0),
{
    offset == 0
}

impl FrozenBuffer {
    /// The capacity of the buffer that was frozen.
    pub closed spec fn spec_capacity(&self) -> nat {
        self.capacity as nat
    }

    /// The page size of the buffer that was frozen.
    pub closed spec fn spec_page_size(&self) -> nat {
        self.page_size as nat
    }

    /// The invariant that the frozen buffer carries over.
    pub closed spec fn wf(&self) -> bool {
        &&& valid_page_size(self.page_size as nat)
        &&& self.capacity as nat % self.page_size as nat == 0
        &&& self@.len() <= self.capacity
    }

    /// The handle, to be cloned for whoever stores the bytes.
    pub fn handle(&self) -> (handle: &Bytes)
        ensures
            bytes_contents(*handle) == self@,
    {
        &self.frozen
    }

    /// Takes the buffer back. While another handle to the storage is alive
    /// the frozen buffer is returned as it was. Whether the storage that
    /// comes back still starts on a page boundary can be asked of
    /// [`AlignedBuffer::is_page_aligned`].
    pub fn thaw(self) -> (thawed: Result<AlignedBuffer, FrozenBuffer>)
        requires
            self.wf(),
        ensures
            match thawed {
                Ok(buf) => {
                    &&& buf.wf()
                    &&& buf@ == self@
                    &&& buf.spec_capacity() == self.spec_capacity()
                    &&& buf.spec_page_size() == self.spec_page_size()
                },
                Err(still) => {
                    &&& still.wf()
                    &&& still@ == self@
                    &&& still.spec_capacity() == self.spec_capacity()
                    &&& still.spec_page_size() == self.spec_page_size()
                },
            },
    {
        let capacity: usize = self.capacity;
        let page_size: usize = self.page_size;
        match self.frozen.try_into_mut() {
            Ok(storage) => Ok(AlignedBuffer { storage, capacity, page_size }),
            Err(frozen) => Err(FrozenBuffer { frozen, capacity, page_size }),
        }
    }
}

} // verus!
