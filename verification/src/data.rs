//! The array's elements as bytes, and test data.
//!
//! The elements are 16-bit samples. A store holds them as the bytes they
//! have in memory, so the array's bytes are the samples' bytes in the byte
//! order of the machine.

use crate::descriptor::ArrayDescriptor;
use rand::RngCore;
use vstd::prelude::*;
use zerocopy::AsBytes;

verus! {

/// The samples' bytes, low byte first.
pub open spec fn little_endian_bytes(samples: Seq<u16>) -> Seq<u8> {
    Seq::new(
        2 * samples.len(),
        |i: int|
            if i % 2 == 0 {
                (samples[i / 2] % 256) as u8
            } else {
                (samples[i / 2] / 256) as u8
            },
    )
}

/// The samples' bytes, high byte first.
pub open spec fn big_endian_bytes(samples: Seq<u16>) -> Seq<u8> {
    Seq::new(
        2 * samples.len(),
        |i: int|
            if i % 2 == 0 {
                (samples[i / 2] / 256) as u8
            } else {
                (samples[i / 2] % 256) as u8
            },
    )
}

/// `bytes` are the samples' bytes in one of the two byte orders that a
/// machine can have.
pub open spec fn is_native_bytes(samples: Seq<u16>, bytes: Seq<u8>) -> bool {
    bytes == little_endian_bytes(samples) || bytes == big_endian_bytes(samples)
}

/// Why samples cannot be taken as the bytes of an array.
#[derive(Clone, Copy, Debug, PartialEq, Eq, Structural)]
pub enum SampleError {
    /// The array's elements are not two bytes wide.
    ElementWidth,
    /// There are not as many samples as the array has elements.
    SampleCount,
}

/// `as_bytes` of `zerocopy` on a slice of `u16`: the same memory seen as
/// bytes, two for each sample, in the machine's byte order.
#[verifier::external_body]
pub(crate) fn samples_as_bytes<'a>(samples: &'a [u16]) -> (bytes: &'a [u8])
    ensures
        is_native_bytes(samples@, bytes@),
{
    samples.as_bytes()
}

/// `fill_bytes` of the thread's generator of `rand`, on the samples seen as
/// bytes through `as_bytes_mut` of `zerocopy`: every sample is overwritten
/// with random data and none is added or removed. `rand` panics where the
/// system gives it no seed.
#[verifier::external_body]
pub(crate) fn fill_random(samples: &mut Vec<u16>)
    ensures
        final(samples)@.len() == old(samples)@.len(),
{
    rand::thread_rng().fill_bytes(samples.as_mut_slice().as_bytes_mut());
}

/// The bytes of an array of 16-bit samples, as the array's descriptor
/// expects them.
pub fn array_bytes<'a>(descriptor: &ArrayDescriptor, samples: &'a [u16]) -> (bytes: Result<
    &'a [u8],
    SampleError,
>)
    requires
        descriptor.wf(),
    ensures
        match bytes {
            Ok(bytes) => {
                &&& descriptor.spec_element_width() == 2
                &&& bytes@.len() == descriptor.spec_total_bytes()
                &&& is_native_bytes(samples@, bytes@)
            },
            Err(SampleError::ElementWidth) => descriptor.spec_element_width() != 2,
            Err(SampleError::SampleCount) => {
                &&& descriptor.spec_element_width() == 2
                &&& 2 * samples@.len() != descriptor.spec_total_bytes()
            },
        },
{
    if descriptor.element_width() != 2 {
        return Err(SampleError::ElementWidth);
    }
    let total: usize = descriptor.total_bytes();
    if total % 2 != 0 || samples.len() != total / 2 {
        return Err(SampleError::SampleCount);
    }
    Ok(samples_as_bytes(samples))
}

/// Test data of `elements` samples: random where `random` is set, else all
/// zero.
pub fn make_data(random: bool, elements: usize) -> (data: Vec<u16>)
    ensures
        data@.len() == elements,
        !random ==> data@ == Seq::new(elements as nat, |i: int| 0u16),
{
    let mut data: Vec<u16> = vec![0u16; elements];
    assert(data@ =~= Seq::new(elements as nat, |i: int| 0u16));
    if random {
        fill_random(&mut data);
    }
    data
}

/// Samples that are all zero have bytes that are all zero, in either byte
/// order.
pub proof fn lemma_zero_samples_have_zero_bytes(samples: Seq<u16>, bytes: Seq<u8>)
    requires
        is_native_bytes(samples, bytes),
        forall|i: int| 0 <= i < samples.len() ==> samples[i] == 0,
    ensures
        bytes == crate::buffer::zeros(2 * samples.len()),
{
    assert(bytes =~= crate::buffer::zeros(2 * samples.len()));
}

} // verus!
