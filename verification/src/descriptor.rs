//! The array descriptor and the chunk partitioner.
//!
//! The array has three dimensions and is cut into chunks along the first one
//! only: a chunk is a run of whole planes, so it is one contiguous range of
//! the array's bytes.

use vstd::prelude::*;
use vstd::slice::slice_subrange;

verus! {

/// Why a shape, chunk shape and element width do not describe an array that
/// this crate writes. Where several hold, the first in this order is given.
#[derive(Clone, Copy, Debug, PartialEq, Eq, Structural)]
pub enum ConfigError {
    /// A chunk dimension or the element width is zero.
    EmptyDimension,
    /// A chunk dimension is larger than the array's.
    ChunkExceedsShape,
    /// The chunk does not span the second or third dimension in full.
    InnerDimensionSplit,
    /// The first dimension is not a whole number of chunks.
    NotDivisible,
    /// The array's bytes are more than memory can address.
    TooLarge,
    /// The fill value is not one element wide.
    FillValueWidth,
    /// There is not one name for each dimension.
    DimensionNames,
}

/// Shape, chunk shape and element type of the array. It does not change
/// during a run.
pub struct ArrayDescriptor {
    shape: [u64; 3],
    chunk_shape: [u64; 3],
    element_width: usize,
    fill_value: Vec<u8>,
    dimension_names: Vec<String>,
    chunk_count: u64,
    logical_length: usize,
}

/// One chunk of the array: where it lies in the chunk grid, and its bytes as
/// a view into the array's.
#[derive(Clone, Copy, Debug)]
pub struct LogicalChunk<'a> {
    pub indices: [u64; 3],
    pub bytes: &'a [u8],
}

/// The number of bytes of an array or chunk of the given shape.
pub open spec fn byte_len(shape: Seq<u64>, element_width: nat) -> nat
    recommends
        shape.len() == 3,
{
    (shape[0] * shape[1] * shape[2] * element_width) as nat
}

/// What [`ArrayDescriptor::new`] asks of its arguments, as the error that it
/// gives, or `None` where they are accepted.
pub open spec fn config_fault(
    shape: Seq<u64>,
    chunk_shape: Seq<u64>,
    element_width: nat,
    fill_value_len: nat,
    names: nat,
) -> Option<ConfigError>
    recommends
        shape.len() == 3,
        chunk_shape.len() == 3,
{
    if chunk_shape[0] == 0 || chunk_shape[1] == 0 || chunk_shape[2] == 0 || element_width == 0 {
        Some(ConfigError::EmptyDimension)
    } else if chunk_shape[0] > shape[0] || chunk_shape[1] > shape[1] || chunk_shape[2] > shape[2] {
        Some(ConfigError::ChunkExceedsShape)
    } else if chunk_shape[1] != shape[1] || chunk_shape[2] != shape[2] {
        Some(ConfigError::InnerDimensionSplit)
    } else if shape[0] % chunk_shape[0] != 0 {
        Some(ConfigError::NotDivisible)
    } else if byte_len(shape, element_width) > usize::MAX {
        Some(ConfigError::TooLarge)
    } else if fill_value_len != element_width {
        Some(ConfigError::FillValueWidth)
    } else if names != 3 {
        Some(ConfigError::DimensionNames)
    } else {
        None
    }
}

/// The product of three factors, none of them zero, is at least each of them
/// and at least the product of any two.
proof fn lemma_product_bounds(a: nat, b: nat, c: nat, d: nat)
    requires
        a > 0,
        b > 0,
        c > 0,
        d > 0,
    ensures
        b * c <= a * b * c * d,
        a * b * c <= a * b * c * d,
        b * c > 0,
        a * b * c > 0,
{
    assert(b * c > 0) by (nonlinear_arith)
        requires
            b > 0,
            c > 0,
    ;
    assert(a * b * c == a * (b * c)) by (nonlinear_arith);
    assert(a * (b * c) >= b * c) by (nonlinear_arith)
        requires
            a > 0,
            b * c > 0,
    ;
    assert((a * b * c) * d >= a * b * c) by (nonlinear_arith)
        requires
            d > 0,
            a * b * c > 0,
    ;
}

/// An array of whole chunks is as many bytes as its chunks together.
proof fn lemma_whole_chunks(s0: nat, c0: nat, plane: nat, width: nat)
    requires
        c0 > 0,
        s0 % c0 == 0,
    ensures
        s0 * plane * width == (s0 / c0) * (c0 * plane * width),
{
    vstd::arithmetic::div_mod::lemma_fundamental_div_mod(s0 as int, c0 as int);
    let n = s0 / c0;
    assert(s0 == c0 * n);
    assert((c0 * n) * plane * width == n * (c0 * plane * width)) by (nonlinear_arith);
}

impl ArrayDescriptor {
    /// The array's extent in each dimension.
    pub closed spec fn spec_shape(&self) -> Seq<u64> {
        self.shape@
    }

    /// A chunk's extent in each dimension.
    pub closed spec fn spec_chunk_shape(&self) -> Seq<u64> {
        self.chunk_shape@
    }

    /// The number of bytes of one element.
    pub closed spec fn spec_element_width(&self) -> nat {
        self.element_width as nat
    }

    /// The bytes of the element that stands for data never written.
    pub closed spec fn spec_fill_value(&self) -> Seq<u8> {
        self.fill_value@
    }

    /// The names of the three dimensions.
    pub closed spec fn spec_dimension_names(&self) -> Seq<Seq<char>> {
        Seq::new(self.dimension_names@.len(), |i: int| self.dimension_names@[i]@)
    }

    /// The number of chunks, all along the first dimension.
    pub open spec fn spec_chunk_count(&self) -> nat {
        (self.spec_shape()[0] / self.spec_chunk_shape()[0]) as nat
    }

    /// The true byte length of a chunk, the same for every chunk.
    pub open spec fn spec_logical_length(&self) -> nat {
        byte_len(self.spec_chunk_shape(), self.spec_element_width())
    }

    /// The byte length of the whole array.
    pub open spec fn spec_total_bytes(&self) -> nat {
        byte_len(self.spec_shape(), self.spec_element_width())
    }

    /// The descriptor's invariant: its parts are accepted by
    /// [`config_fault`].
    pub closed spec fn wf(&self) -> bool {
        &&& config_fault(
            self.shape@,
            self.chunk_shape@,
            self.element_width as nat,
            self.fill_value@.len(),
            self.dimension_names@.len(),
        ) is None
        &&& self.chunk_count == self.spec_chunk_count()
        &&& self.logical_length == self.spec_logical_length()
    }

    /// What a valid descriptor gives: whole chunks that together are the
    /// array, and byte lengths that fit the machine's word.
    pub proof fn lemma_wf(&self)
        requires
            self.wf(),
        ensures
            self.spec_shape().len() == 3,
            self.spec_chunk_shape().len() == 3,
            config_fault(
                self.spec_shape(),
                self.spec_chunk_shape(),
                self.spec_element_width(),
                self.spec_fill_value().len(),
                self.spec_dimension_names().len(),
            ) is None,
            self.spec_chunk_count() > 0,
            self.spec_logical_length() > 0,
            self.spec_chunk_count() * self.spec_logical_length() == self.spec_total_bytes(),
            self.spec_total_bytes() <= usize::MAX,
            self.spec_chunk_count() <= u64::MAX,
    {
        let s = self.shape@;
        let c = self.chunk_shape@;
        let w = self.element_width as nat;
        lemma_product_bounds(c[0] as nat, c[1] as nat, c[2] as nat, w);
        lemma_whole_chunks(s[0] as nat, c[0] as nat, (c[1] * c[2]) as nat, w);
        assert(s[0] * s[1] * s[2] * w == s[0] * (c[1] * c[2]) * w) by (nonlinear_arith)
            requires
                s[1] == c[1],
                s[2] == c[2],
        ;
        assert(c[0] * (c[1] * c[2]) * w == c[0] * c[1] * c[2] * w) by (nonlinear_arith);
        vstd::arithmetic::div_mod::lemma_fundamental_div_mod(s[0] as int, c[0] as int);
        assert(s[0] / c[0] > 0) by (nonlinear_arith)
            requires
                s[0] == c[0] * (s[0] / c[0]),
                s[0] >= c[0],
                c[0] > 0,
        ;
        assert(s[0] / c[0] <= s[0]) by (nonlinear_arith)
            requires
                s[0] == c[0] * (s[0] / c[0]),
                c[0] > 0,
                s[0] / c[0] > 0,
        ;
    }

    /// Checks a shape, a chunk shape, an element width, a fill value and the
    /// dimension names, and makes the descriptor where [`config_fault`] finds
    /// nothing wrong.
    pub fn new(
        shape: [u64; 3],
        chunk_shape: [u64; 3],
        element_width: usize,
        fill_value: Vec<u8>,
        dimension_names: Vec<String>,
    ) -> (made: Result<ArrayDescriptor, ConfigError>)
        ensures
            match made {
                Ok(desc) => {
                    &&& config_fault(
                        shape@,
                        chunk_shape@,
                        element_width as nat,
                        fill_value@.len(),
                        dimension_names@.len(),
                    ) is None
                    &&& desc.wf()
                    &&& desc.spec_shape() == shape@
                    &&& desc.spec_chunk_shape() == chunk_shape@
                    &&& desc.spec_element_width() == element_width
                    &&& desc.spec_fill_value() == fill_value@
                    &&& desc.spec_dimension_names() == Seq::new(
                        dimension_names@.len(),
                        |i: int| dimension_names@[i]@,
                    )
                },
                Err(fault) => config_fault(
                    shape@,
                    chunk_shape@,
                    element_width as nat,
                    fill_value@.len(),
                    dimension_names@.len(),
                ) == Some(fault),
            },
    {
        if chunk_shape[0] == 0 || chunk_shape[1] == 0 || chunk_shape[2] == 0 || element_width
            == 0 {
            return Err(ConfigError::EmptyDimension);
        }
        if chunk_shape[0] > shape[0] || chunk_shape[1] > shape[1] || chunk_shape[2] > shape[2] {
            return Err(ConfigError::ChunkExceedsShape);
        }
        if chunk_shape[1] != shape[1] || chunk_shape[2] != shape[2] {
            return Err(ConfigError::InnerDimensionSplit);
        }
        if shape[0] % chunk_shape[0] != 0 {
            return Err(ConfigError::NotDivisible);
        }
        proof {
            lemma_product_bounds(
                shape[0] as nat,
                shape[1] as nat,
                shape[2] as nat,
                element_width as nat,
            );
            lemma_product_bounds(
                chunk_shape[0] as nat,
                chunk_shape[1] as nat,
                chunk_shape[2] as nat,
                element_width as nat,
            );
            lemma_whole_chunks(
                shape[0] as nat,
                chunk_shape[0] as nat,
                (shape[1] * shape[2]) as nat,
                element_width as nat,
            );
            assert(shape[0] * (shape[1] * shape[2]) * element_width == shape[0] * shape[1]
                * shape[2] * element_width) by (nonlinear_arith);
            assert(chunk_shape[0] * (shape[1] * shape[2]) * element_width == chunk_shape[0]
                * chunk_shape[1] * chunk_shape[2] * element_width) by (nonlinear_arith)
                requires
                    shape[1] == chunk_shape[1],
                    shape[2] == chunk_shape[2],
            ;
        }
        let chunk_count: u64 = shape[0] / chunk_shape[0];
        assert(chunk_count >= 1) by (nonlinear_arith)
            requires
                chunk_count == shape[0] / chunk_shape[0],
                shape[0] >= chunk_shape[0],
                chunk_shape[0] > 0,
        ;
        let word: u64 = usize::MAX as u64;
        assert(shape[0] * (shape[1] * shape[2]) == shape[0] * shape[1] * shape[2])
            by (nonlinear_arith);
        let plane: u64 = match shape[1].checked_mul(shape[2]) {
            Some(plane) => plane,
            None => {
                return Err(ConfigError::TooLarge);
            },
        };
        let elements: u64 = match shape[0].checked_mul(plane) {
            Some(elements) => elements,
            None => {
                return Err(ConfigError::TooLarge);
            },
        };
        let total_bytes: u64 = match elements.checked_mul(element_width as u64) {
            Some(bytes) => bytes,
            None => {
                return Err(ConfigError::TooLarge);
            },
        };
        if total_bytes > word {
            return Err(ConfigError::TooLarge);
        }
        assert(total_bytes == byte_len(shape@, element_width as nat)) by {
            assert(shape[0] * (shape[1] * shape[2]) * element_width == shape[0] * shape[1]
                * shape[2] * element_width) by (nonlinear_arith);
        }
        if fill_value.len() != element_width {
            return Err(ConfigError::FillValueWidth);
        }
        if dimension_names.len() != 3 {
            return Err(ConfigError::DimensionNames);
        }
        let logical: u64 = total_bytes / chunk_count;
        assert(logical == byte_len(chunk_shape@, element_width as nat)) by {
            let l = byte_len(chunk_shape@, element_width as nat);
            assert(total_bytes == chunk_count * l);
            vstd::arithmetic::div_mod::lemma_div_multiples_vanish(l as int, chunk_count as int);
            assert(chunk_count * l == l * chunk_count) by (nonlinear_arith);
        }
        Ok(
            ArrayDescriptor {
                shape,
                chunk_shape,
                element_width,
                fill_value,
                dimension_names,
                chunk_count,
                logical_length: logical as usize,
            },
        )
    }

    /// The array's extent in each dimension.
    pub fn shape(&self) -> (shape: [u64; 3])
        ensures
            shape@ == self.spec_shape(),
    {
        self.shape
    }

    /// A chunk's extent in each dimension.
    pub fn chunk_shape(&self) -> (chunk_shape: [u64; 3])
        ensures
            chunk_shape@ == self.spec_chunk_shape(),
    {
        self.chunk_shape
    }

    /// The number of bytes of one element.
    pub fn element_width(&self) -> (width: usize)
        ensures
            width == self.spec_element_width(),
    {
        self.element_width
    }

    /// The bytes of the element that stands for data never written.
    pub fn fill_value(&self) -> (fill: &[u8])
        ensures
            fill@ == self.spec_fill_value(),
    {
        self.fill_value.as_slice()
    }

    /// The name of dimension `dimension`.
    pub fn dimension_name(&self, dimension: usize) -> (name: &str)
        requires
            dimension < self.spec_dimension_names().len(),
        ensures
            name@ == self.spec_dimension_names()[dimension as int],
    {
        self.dimension_names[dimension].as_str()
    }

    /// The number of chunks.
    pub fn chunk_count(&self) -> (count: u64)
        requires
            self.wf(),
        ensures
            count == self.spec_chunk_count(),
    {
        self.chunk_count
    }

    /// The true byte length of a chunk.
    pub fn logical_length(&self) -> (length: usize)
        requires
            self.wf(),
        ensures
            length == self.spec_logical_length(),
    {
        self.logical_length
    }

    /// The byte length of the whole array.
    pub fn total_bytes(&self) -> (total: usize)
        requires
            self.wf(),
        ensures
            total == self.spec_total_bytes(),
    {
        proof {
            self.lemma_wf();
        }
        self.chunk_offset(self.chunk_count)
    }

    /// The grid index of chunk `index`: the chunk's number in the first
    /// dimension, zero in the others.
    pub fn chunk_indices(&self, index: u64) -> (indices: [u64; 3])
        ensures
            indices@ == chunk_grid_index(index),
    {
        let indices: [u64; 3] = [index, 0, 0];
        assert(indices@ =~= chunk_grid_index(index));
        indices
    }

    /// Where in the array's bytes chunk `index` starts; for `index` equal to
    /// the number of chunks, where the array ends.
    pub fn chunk_offset(&self, index: u64) -> (offset: usize)
        requires
            self.wf(),
            index <= self.spec_chunk_count(),
        ensures
            offset == index * self.spec_logical_length(),
            offset <= self.spec_total_bytes(),
    {
        proof {
            self.lemma_wf();
            let count = self.spec_chunk_count();
            let length = self.spec_logical_length();
            assert(index * length <= count * length) by (nonlinear_arith)
                requires
                    index <= count,
            ;
            assert(index <= index * length) by (nonlinear_arith)
                requires
                    length > 0,
            ;
        }
        (index as usize) * self.logical_length
    }

    /// The bytes of chunk `index`, as a view into the array's bytes.
    pub fn chunk_bytes<'a>(&self, data: &'a [u8], index: u64) -> (chunk: &'a [u8])
        requires
            self.wf(),
            data@.len() == self.spec_total_bytes(),
            index < self.spec_chunk_count(),
        ensures
            chunk@ == self.chunk_of(data@, index as nat),
            chunk@.len() == self.spec_logical_length(),
    {
        let start: usize = self.chunk_offset(index);
        let end: usize = self.chunk_offset(index + 1);
        assert(end == start + self.spec_logical_length()) by (nonlinear_arith)
            requires
                start == index * self.spec_logical_length(),
                end == (index + 1) * self.spec_logical_length(),
        ;
        assert((index as nat + 1) * self.spec_logical_length() == end);
        slice_subrange(data, start, end)
    }

    /// Chunk `index`: its grid index and its bytes.
    pub fn chunk<'a>(&self, data: &'a [u8], index: u64) -> (chunk: LogicalChunk<'a>)
        requires
            self.wf(),
            data@.len() == self.spec_total_bytes(),
            index < self.spec_chunk_count(),
        ensures
            chunk.indices@ == chunk_grid_index(index),
            chunk.bytes@ == self.chunk_of(data@, index as nat),
            chunk.bytes@.len() == self.spec_logical_length(),
    {
        LogicalChunk { indices: self.chunk_indices(index), bytes: self.chunk_bytes(data, index) }
    }

    /// The bytes of chunk `index` of an array whose bytes are `data`: plane
    /// `index` times the chunk's planes up to the next chunk's first plane.
    pub open spec fn chunk_of(&self, data: Seq<u8>, index: nat) -> Seq<u8> {
        data.subrange(
            (index * self.spec_logical_length()) as int,
            ((index + 1) * self.spec_logical_length()) as int,
        )
    }

    /// The chunks tile the array: each has the logical length, byte `at` of
    /// chunk `index` is byte `index * logical_length + at` of the array, and
    /// so every byte of the array lies in exactly one chunk.
    pub proof fn lemma_chunks_tile_array(&self, data: Seq<u8>, index: nat, at: nat)
        requires
            self.wf(),
            data.len() == self.spec_total_bytes(),
            index < self.spec_chunk_count(),
            at < self.spec_logical_length(),
        ensures
            self.chunk_of(data, index).len() == self.spec_logical_length(),
            index * self.spec_logical_length() + at < data.len(),
            self.chunk_of(data, index)[at as int] == data[(index * self.spec_logical_length()
                + at) as int],
            (index * self.spec_logical_length() + at) / self.spec_logical_length() == index,
            (index * self.spec_logical_length() + at) % self.spec_logical_length() == at,
    {
        self.lemma_wf();
        let length = self.spec_logical_length();
        let count = self.spec_chunk_count();
        assert((index + 1) * length <= count * length) by (nonlinear_arith)
            requires
                index + 1 <= count,
        ;
        assert((index + 1) * length == index * length + length) by (nonlinear_arith);
        vstd::arithmetic::div_mod::lemma_fundamental_div_mod_converse(
            (index * length + at) as int,
            length as int,
            index as int,
            at as int,
        );
        assert(length * index == index * length) by (nonlinear_arith);
    }
}

/// The grid index of the chunk with number `index`.
pub open spec fn chunk_grid_index(index: u64) -> Seq<u64> {
    seq![index, 0u64, 0u64]
}

} // verus!
