use zarr_dio::page::{is_page_size, padding_for, round_up_to_page};

#[test]
fn padding_reaches_the_next_page_boundary() {
    assert_eq!(padding_for(512, 4096), 3584);
    assert_eq!(padding_for(1, 4096), 4095);
    assert_eq!(padding_for(4097, 4096), 4095);
    assert_eq!(padding_for(512, 16384), 15872);
    assert_eq!(padding_for(0, 4096), 0);
}

#[test]
fn aligned_length_gets_no_padding() {
    assert_eq!(padding_for(4096, 4096), 0);
    assert_eq!(padding_for(8192, 4096), 0);
    assert_eq!(padding_for(8_388_608, 4096), 0);
    assert_eq!(padding_for(8_388_608, 16384), 0);
    assert_eq!(round_up_to_page(8192, 4096), Some(8192));
}

#[test]
fn rounding_up_gives_the_least_multiple() {
    assert_eq!(round_up_to_page(0, 4096), Some(0));
    assert_eq!(round_up_to_page(1, 4096), Some(4096));
    assert_eq!(round_up_to_page(4096, 4096), Some(4096));
    assert_eq!(round_up_to_page(4097, 4096), Some(8192));
    assert_eq!(round_up_to_page(512, 16384), Some(16384));
}

#[test]
fn rounding_up_past_the_word_gives_none() {
    assert_eq!(round_up_to_page(usize::MAX, 4096), None);
    assert_eq!(round_up_to_page(usize::MAX - 4094, 4096), None);
    assert_eq!(round_up_to_page(usize::MAX - 4095, 4096), Some(usize::MAX - 4095));
    assert_eq!(round_up_to_page(usize::MAX - 4095 - 4096 + 1, 4096), Some(usize::MAX - 4095));
}

#[test]
fn page_sizes_are_powers_of_two() {
    assert!(is_page_size(1));
    assert!(is_page_size(2));
    assert!(is_page_size(4096));
    assert!(is_page_size(16384));
    assert!(is_page_size(1 << (usize::BITS - 1)));
    assert!(!is_page_size(0));
    assert!(!is_page_size(3));
    assert!(!is_page_size(4095));
    assert!(!is_page_size(4096 + 2048));
    assert!(!is_page_size(usize::MAX));
}
