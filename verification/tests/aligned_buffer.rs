use bytes::BytesMut;
use zarr_dio::buffer::{
    bytes_aligned, on_page_boundary, AlignedBuffer, AllocationError, CapacityError,
};
use zarr_dio::page::is_page_size;

#[test]
fn allocation_starts_on_a_page_boundary() {
    for page in [4096usize, 16384] {
        let buf = AlignedBuffer::allocate(512, page).unwrap();
        assert!(buf.is_page_aligned());
        assert_eq!(buf.as_slice().as_ptr() as usize % page, 0);
        assert_eq!(buf.len(), 0);
        assert!(buf.is_empty());
        assert_eq!(buf.page_size(), page);
    }
}

#[test]
fn capacity_is_rounded_up_to_whole_pages() {
    assert_eq!(AlignedBuffer::allocate(512, 4096).unwrap().capacity(), 4096);
    assert_eq!(AlignedBuffer::allocate(4096, 4096).unwrap().capacity(), 4096);
    assert_eq!(AlignedBuffer::allocate(4097, 4096).unwrap().capacity(), 8192);
    assert_eq!(AlignedBuffer::allocate(0, 4096).unwrap().capacity(), 0);
    assert_eq!(AlignedBuffer::allocate(512, 16384).unwrap().capacity(), 16384);
}

#[test]
fn allocation_refuses_a_page_size_that_is_no_power_of_two() {
    assert_eq!(AlignedBuffer::allocate(512, 0).err(), Some(AllocationError::InvalidPageSize));
    assert_eq!(AlignedBuffer::allocate(512, 3000).err(), Some(AllocationError::InvalidPageSize));
}

#[test]
fn allocation_refuses_what_one_allocation_cannot_hold() {
    let most = isize::MAX as usize;
    assert_eq!(AlignedBuffer::allocate(most, 4096).err(), Some(AllocationError::TooLarge));
    assert_eq!(
        AlignedBuffer::allocate(most - 2 * 4096 + 2, 4096).err(),
        Some(AllocationError::TooLarge)
    );
    assert_eq!(AlignedBuffer::allocate(usize::MAX, 4096).err(), Some(AllocationError::TooLarge));
    assert_eq!(
        AlignedBuffer::allocate(0, 1 << (usize::BITS - 1)).err(),
        Some(AllocationError::TooLarge)
    );
    assert_eq!(
        AlignedBuffer::allocate(1, 1 << (usize::BITS - 2)).err(),
        Some(AllocationError::TooLarge)
    );
}

#[test]
fn storage_is_cut_at_the_given_offset() {
    let page = 4096usize;
    let raw = BytesMut::with_capacity(2 * page);
    let base = raw.as_ptr() as usize;
    let offset = (page - base % page) % page;
    let buf = AlignedBuffer::from_unaligned(raw, offset, page, page).unwrap();
    assert_eq!(buf.as_slice().as_ptr() as usize, base + offset);
    assert!(buf.is_page_aligned());
    assert_eq!(buf.capacity(), 4096);
    assert_eq!(buf.len(), 0);
}

#[test]
fn an_offset_of_a_page_or_more_is_unaligned() {
    let page = 4096usize;
    for offset in [page, page + 1, usize::MAX] {
        let raw = BytesMut::with_capacity(2 * page);
        assert_eq!(
            AlignedBuffer::from_unaligned(raw, offset, page, page).err(),
            Some(AllocationError::Unaligned)
        );
    }
}

#[test]
fn append_copies_at_the_cursor() {
    let mut buf = AlignedBuffer::allocate(16, 8).unwrap();
    assert_eq!(buf.append(&[1, 2, 3]), Ok(()));
    assert_eq!(buf.append(&[4, 5]), Ok(()));
    assert_eq!(buf.as_slice(), &[1, 2, 3, 4, 5]);
    assert_eq!(buf.len(), 5);
    assert!(!buf.is_empty());
}

#[test]
fn append_beyond_capacity_is_refused_and_changes_nothing() {
    let mut buf = AlignedBuffer::allocate(8, 8).unwrap();
    assert_eq!(buf.append(&[9; 6]), Ok(()));
    assert_eq!(buf.append(&[7; 3]), Err(CapacityError { requested: 3, available: 2 }));
    assert_eq!(buf.as_slice(), &[9; 6]);
    assert_eq!(buf.append(&[7; 2]), Ok(()));
    assert_eq!(buf.len(), 8);
    assert_eq!(buf.append(&[1]), Err(CapacityError { requested: 1, available: 0 }));
    assert_eq!(buf.append(&[]), Ok(()));
}

#[test]
fn padding_fills_with_zero_bytes_to_the_boundary() {
    let mut buf = AlignedBuffer::allocate(16, 8).unwrap();
    buf.append(&[1, 2, 3]).unwrap();
    buf.pad_to_page_boundary();
    assert_eq!(buf.as_slice(), &[1, 2, 3, 0, 0, 0, 0, 0]);
    buf.pad_to_page_boundary();
    assert_eq!(buf.len(), 8);
    buf.append(&[4]).unwrap();
    buf.pad_to_page_boundary();
    assert_eq!(buf.as_slice(), &[1, 2, 3, 0, 0, 0, 0, 0, 4, 0, 0, 0, 0, 0, 0, 0]);
}

#[test]
fn padding_an_empty_buffer_adds_nothing() {
    let mut buf = AlignedBuffer::allocate(16, 8).unwrap();
    buf.pad_to_page_boundary();
    assert!(buf.is_empty());
}

#[test]
fn clear_resets_the_length_and_keeps_the_storage() {
    let mut buf = AlignedBuffer::allocate(512, 4096).unwrap();
    let address = buf.as_slice().as_ptr();
    buf.append(&[5; 512]).unwrap();
    buf.clear();
    assert_eq!(buf.len(), 0);
    assert_eq!(buf.capacity(), 4096);
    assert_eq!(buf.as_slice().as_ptr(), address);
}

#[test]
fn buffer_stays_aligned_over_clear_and_refill_cycles() {
    for page in [4096usize, 16384] {
        let mut buf = AlignedBuffer::allocate(1000, page).unwrap();
        let address = buf.as_slice().as_ptr();
        for round in 0..64u8 {
            buf.clear();
            assert!(buf.is_page_aligned());
            buf.append(&[round; 1000]).unwrap();
            assert!(buf.is_page_aligned());
            buf.pad_to_page_boundary();
            assert!(buf.is_page_aligned());
            assert_eq!(buf.as_slice().as_ptr(), address);
            assert_eq!(buf.len(), page);
        }
    }
}

#[test]
fn stage_holds_the_chunk_and_zero_padding() {
    let mut buf = AlignedBuffer::allocate(8, 8).unwrap();
    buf.append(&[9, 9]).unwrap();
    assert_eq!(buf.stage(&[1, 2, 3, 4, 5]), Ok(()));
    assert_eq!(buf.as_slice(), &[1, 2, 3, 4, 5, 0, 0, 0]);
    assert_eq!(buf.stage(&[1, 2, 3, 4, 5, 6, 7, 8]), Ok(()));
    assert_eq!(buf.as_slice(), &[1, 2, 3, 4, 5, 6, 7, 8]);
}

#[test]
fn stage_refuses_a_chunk_above_the_capacity() {
    let mut buf = AlignedBuffer::allocate(8, 8).unwrap();
    buf.append(&[9, 9]).unwrap();
    assert_eq!(buf.stage(&[1; 9]), Err(CapacityError { requested: 9, available: 8 }));
    assert!(buf.is_empty());
    assert_eq!(buf.stage_exact(&[1; 9]), Err(CapacityError { requested: 9, available: 8 }));
}

#[test]
fn stage_exact_holds_the_chunk_alone() {
    let mut buf = AlignedBuffer::allocate(8, 8).unwrap();
    buf.append(&[9, 9]).unwrap();
    assert_eq!(buf.stage_exact(&[1, 2, 3]), Ok(()));
    assert_eq!(buf.as_slice(), &[1, 2, 3]);
}

#[test]
fn frozen_buffer_holds_the_same_bytes_and_thaws() {
    let mut buf = AlignedBuffer::allocate(512, 4096).unwrap();
    let address = buf.as_slice().as_ptr();
    buf.stage_exact(&[3; 512]).unwrap();
    let frozen = buf.freeze();
    assert_eq!(&frozen.handle()[..], &[3u8; 512][..]);
    let mut buf = frozen.thaw().ok().unwrap();
    assert_eq!(buf.as_slice(), &[3u8; 512][..]);
    assert_eq!(buf.capacity(), 4096);
    assert_eq!(buf.page_size(), 4096);
    assert_eq!(buf.as_slice().as_ptr(), address);
    assert!(buf.is_page_aligned());
    buf.stage_exact(&[4; 100]).unwrap();
    assert_eq!(buf.as_slice(), &[4u8; 100][..]);
}

#[test]
fn frozen_buffer_does_not_thaw_while_shared() {
    let mut buf = AlignedBuffer::allocate(16, 8).unwrap();
    buf.stage_exact(&[1, 2, 3]).unwrap();
    let frozen = buf.freeze();
    let shared = frozen.handle().clone();
    let frozen = frozen.thaw().err().unwrap();
    assert_eq!(&frozen.handle()[..], &[1, 2, 3]);
    drop(shared);
    let buf = frozen.thaw().ok().unwrap();
    assert_eq!(buf.as_slice(), &[1, 2, 3]);
}

#[test]
fn buffer_for_this_machine_is_aligned_to_its_page_size() {
    let buf = bytes_aligned(1000).unwrap();
    assert!(is_page_size(buf.page_size()));
    assert!(buf.is_page_aligned());
    assert_eq!(buf.capacity() % buf.page_size(), 0);
    assert!(buf.capacity() >= 1000);
    assert!(buf.capacity() < 1000 + buf.page_size());
    assert!(buf.is_empty());
}

#[test]
fn buffer_for_this_machine_refuses_what_one_allocation_cannot_hold() {
    assert_eq!(bytes_aligned(usize::MAX).err(), Some(AllocationError::TooLarge));
    assert_eq!(bytes_aligned(isize::MAX as usize).err(), Some(AllocationError::TooLarge));
}

#[test]
fn only_a_distance_of_zero_is_on_the_boundary() {
    assert!(on_page_boundary(0));
    assert!(!on_page_boundary(1));
    assert!(!on_page_boundary(4096));
    assert!(!on_page_boundary(usize::MAX));
}
