use zarr_dio::data::{array_bytes, make_data, SampleError};
use zarr_dio::descriptor::ArrayDescriptor;

fn sample_names() -> Vec<String> {
    vec!["i".to_string(), "Ky".to_string(), "Kx".to_string()]
}

#[test]
fn zero_filled_data_is_all_zero() {
    let data = make_data(false, 4096);
    assert_eq!(data, vec![0u16; 4096]);
    assert!(make_data(false, 0).is_empty());
}

#[test]
fn random_data_has_the_asked_length_and_is_not_all_zero() {
    let data = make_data(true, 4096);
    assert_eq!(data.len(), 4096);
    assert!(data.iter().any(|sample| *sample != 0));
    assert_ne!(data, make_data(true, 4096));
    assert!(make_data(true, 0).is_empty());
}

#[test]
fn array_bytes_are_the_samples_in_native_byte_order() {
    let descriptor =
        ArrayDescriptor::new([2, 2, 2], [1, 2, 2], 2, vec![7, 0], sample_names()).unwrap();
    let samples: Vec<u16> = vec![0x0102, 0xA0B0, 0, 0xFFFF, 1, 256, 0x7F80, 42];
    let bytes = array_bytes(&descriptor, &samples).unwrap();
    let expected: Vec<u8> = samples.iter().flat_map(|sample| sample.to_ne_bytes()).collect();
    assert_eq!(bytes, &expected[..]);
    assert_eq!(bytes.len(), 16);
    let low_first = bytes[0] == 0x02 && bytes[1] == 0x01;
    let high_first = bytes[0] == 0x01 && bytes[1] == 0x02;
    assert!(low_first || high_first);
}

#[test]
fn zero_samples_have_zero_bytes() {
    let descriptor =
        ArrayDescriptor::new([2, 2, 2], [1, 2, 2], 2, vec![7, 0], sample_names()).unwrap();
    let samples = make_data(false, 8);
    assert_eq!(array_bytes(&descriptor, &samples).unwrap(), &[0u8; 16][..]);
}

#[test]
fn samples_of_another_width_or_count_are_refused() {
    let bytes_wide =
        ArrayDescriptor::new([2, 2, 2], [1, 2, 2], 1, vec![7], sample_names()).unwrap();
    assert_eq!(array_bytes(&bytes_wide, &[0u16; 4]).err(), Some(SampleError::ElementWidth));
    let descriptor =
        ArrayDescriptor::new([2, 2, 2], [1, 2, 2], 2, vec![7, 0], sample_names()).unwrap();
    assert_eq!(array_bytes(&descriptor, &[0u16; 7]).err(), Some(SampleError::SampleCount));
    assert_eq!(array_bytes(&descriptor, &[0u16; 9]).err(), Some(SampleError::SampleCount));
    assert_eq!(array_bytes(&descriptor, &[]).err(), Some(SampleError::SampleCount));
}
