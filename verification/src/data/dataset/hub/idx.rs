//! The IDX format: a header that names the element type and the number of
//! axes, the length of every axis as a big-endian 32-bit number, and then
//! the elements in row-major order.

use vstd::prelude::*;

verus! {

/// The element type code of unsigned bytes.
pub const UNSIGNED_BYTE: u32 = 8;

/// The number that four bytes spell, most significant byte first.
pub open spec fn be_u32(bytes: Seq<u8>) -> nat {
    (bytes[0] as nat) * 16777216 + (bytes[1] as nat) * 65536 + (bytes[2] as nat) * 256 + (
    bytes[3] as nat)
}

/// The number of elements of an array of the given shape.
pub open spec fn volume(shape: Seq<usize>) -> nat
    decreases shape.len(),
{
    if shape.len() == 0 {
        1
    } else {
        (shape.last() as nat) * volume(shape.drop_last())
    }
}

/// The number of bytes before the elements, for an array with `ndim` axes.
pub open spec fn header_len(ndim: nat) -> nat {
    4 + 4 * ndim
}

/// The axis lengths that the header gives.
pub open spec fn header_shape(bytes: Seq<u8>, ndim: nat) -> Seq<usize> {
    Seq::new(ndim, |d: int| be_u32(bytes.subrange(4 + 4 * d, 8 + 4 * d)) as usize)
}

/// Why a file is not an array of unsigned bytes with the expected number of
/// axes.
#[derive(Debug, PartialEq, Eq, Structural)]
pub enum IdxError {
    /// The file ends inside the header.
    Truncated,
    /// The header names another number of axes.
    Rank,
    /// The header names another element type.
    ElementType,
    /// The number of elements does not fit the axis lengths.
    Size,
}

/// An array of unsigned bytes with its shape, elements in row-major order.
pub struct IdxArray {
    shape: Vec<usize>,
    data: Vec<u8>,
}

/// What reading `bytes` as an array of unsigned bytes with `ndim` axes gives:
/// the shape and the elements, or the first thing that is wrong.
pub open spec fn parsed(bytes: Seq<u8>, ndim: nat) -> Result<(Seq<usize>, Seq<u8>), IdxError> {
    if bytes.len() < 4 {
        Err(IdxError::Truncated)
    } else if be_u32(bytes.subrange(0, 4)) % 256 != ndim {
        Err(IdxError::Rank)
    } else if be_u32(bytes.subrange(0, 4)) / 256 != UNSIGNED_BYTE {
        Err(IdxError::ElementType)
    } else if bytes.len() < header_len(ndim) {
        Err(IdxError::Truncated)
    } else if volume(header_shape(bytes, ndim)) != bytes.len() - header_len(ndim) {
        Err(IdxError::Size)
    } else {
        Ok((header_shape(bytes, ndim), bytes.skip(header_len(ndim) as int)))
    }
}

/// Reads four bytes at `at` as a big-endian number.
fn read_int(bytes: &Vec<u8>, at: usize) -> (value: u32)
    requires
        at + 4 <= bytes.len(),
    ensures
        value == be_u32(bytes@.subrange(at as int, at + 4)),
{
    let b0 = bytes[at] as u32;
    let b1 = bytes[at + 1] as u32;
    let b2 = bytes[at + 2] as u32;
    let b3 = bytes[at + 3] as u32;
    b0 * 16777216 + b1 * 65536 + b2 * 256 + b3
}

/// The volume of a shape with an axis of length zero is zero.
proof fn lemma_volume_zero(shape: Seq<usize>, d: int)
    requires
        0 <= d < shape.len(),
        shape[d] == 0,
    ensures
        volume(shape) == 0,
    decreases shape.len(),
{
    if d < shape.len() - 1 {
        lemma_volume_zero(shape.drop_last(), d);
        assert((shape.last() as nat) * 0 == 0) by (nonlinear_arith);
    } else {
        assert(0 * volume(shape.drop_last()) == 0) by (nonlinear_arith);
    }
}

/// The volume of a shape without an axis of length zero is at least the
/// volume of each of its prefixes.
proof fn lemma_volume_grows(shape: Seq<usize>, k: int)
    requires
        0 <= k <= shape.len(),
        forall|d: int| 0 <= d < shape.len() ==> shape[d] >= 1,
    ensures
        volume(shape) >= volume(shape.take(k)) >= 1,
    decreases shape.len() - k,
{
    if k == shape.len() {
        assert(shape.take(k) =~= shape);
        lemma_volume_positive(shape);
    } else {
        lemma_volume_grows(shape, k + 1);
        assert(shape.take(k + 1).drop_last() =~= shape.take(k));
        lemma_volume_positive(shape.take(k));
        let a = shape[k] as nat;
        let v = volume(shape.take(k));
        assert(a * v >= v) by (nonlinear_arith)
            requires
                a >= 1,
                v >= 0,
        ;
    }
}

/// The volume of a shape without an axis of length zero is positive.
proof fn lemma_volume_positive(shape: Seq<usize>)
    requires
        forall|d: int| 0 <= d < shape.len() ==> shape[d] >= 1,
    ensures
        volume(shape) >= 1,
    decreases shape.len(),
{
    if shape.len() > 0 {
        lemma_volume_positive(shape.drop_last());
        let a = shape.last() as nat;
        let v = volume(shape.drop_last());
        assert(a * v >= 1) by (nonlinear_arith)
            requires
                a >= 1,
                v >= 1,
        ;
    }
}

/// The volume of a shape is the length of its first axis times the volume of
/// the axes behind it.
pub proof fn lemma_volume_outer(shape: Seq<usize>)
    requires
        shape.len() >= 1,
    ensures
        volume(shape) == (shape[0] as nat) * volume(shape.drop_first()),
    decreases shape.len(),
{
    if shape.len() == 1 {
        assert(shape.drop_last() =~= shape.drop_first());
        assert(volume(shape.drop_first()) == 1);
        assert(shape.last() == shape[0]);
    } else {
        let inner = shape.drop_last();
        lemma_volume_outer(inner);
        assert(inner.drop_first() =~= shape.drop_first().drop_last());
        assert(shape.drop_first().last() == shape.last());
        let a = shape[0] as nat;
        let z = shape.last() as nat;
        let v = volume(inner.drop_first());
        assert(z * (a * v) == a * (z * v)) by (nonlinear_arith);
    }
}

/// The elements of example `index`: of the sub-array at position `index`
/// along the first axis.
pub open spec fn example_at(shape: Seq<usize>, elements: Seq<u8>, index: int) -> Seq<u8> {
    let stride = volume(shape.drop_first()) as int;
    elements.subrange(index * stride, (index + 1) * stride)
}

/// Whether an array of the given shape has exactly `len` elements.
fn has_volume(shape: &Vec<usize>, len: usize) -> (fits: bool)
    ensures
        fits == (volume(shape@) == len),
{
    let mut d: usize = 0;
    while d < shape.len()
        invariant
            d <= shape.len(),
            forall|j: int| 0 <= j < d ==> shape[j] >= 1,
        decreases shape.len() - d,
    {
        if shape[d] == 0 {
            proof {
                lemma_volume_zero(shape@, d as int);
            }
            return len == 0;
        }
        d += 1;
    }
    if len == 0 {
        proof {
            lemma_volume_positive(shape@);
        }
        return false;
    }
    let mut product: usize = 1;
    let mut k: usize = 0;
    while k < shape.len()
        invariant
            k <= shape.len(),
            forall|j: int| 0 <= j < shape.len() ==> shape[j] >= 1,
            product == volume(shape@.take(k as int)),
            product <= len,
        decreases shape.len() - k,
    {
        assert(shape@.take(k + 1).drop_last() =~= shape@.take(k as int));
        proof {
            lemma_volume_grows(shape@, k + 1);
        }
        match product.checked_mul(shape[k]) {
            Some(next) => {
                assert(next == shape[k as int] * product) by (nonlinear_arith)
                    requires
                        next == product * shape[k as int],
                ;
                if next > len {
                    return false;
                }
                product = next;
            },
            None => {
                assert(shape[k as int] * product == product * shape[k as int]) by (nonlinear_arith);
                return false;
            },
        }
        k += 1;
    }
    assert(shape@.take(k as int) =~= shape@);
    product == len
}

impl IdxArray {
    /// The shape says how many elements there are.
    #[verifier::type_invariant]
    spec fn valid(self) -> bool {
        volume(self.shape@) == self.data.len()
    }

    /// The length of every axis.
    pub closed spec fn shape(&self) -> Seq<usize> {
        self.shape@
    }

    /// The elements in row-major order.
    pub closed spec fn elements(&self) -> Seq<u8> {
        self.data@
    }

    /// Reads `bytes` as an array of unsigned bytes with `ndim` axes.
    pub fn parse(bytes: &Vec<u8>, ndim: usize) -> (array: Result<IdxArray, IdxError>)
        ensures
            match array {
                Ok(a) => parsed(bytes@, ndim as nat) == Ok::<_, IdxError>((a.shape(), a.elements()))
                    && volume(a.shape()) == a.elements().len(),
                Err(e) => parsed(bytes@, ndim as nat) == Err::<(Seq<usize>, Seq<u8>), _>(e),
            },
    {
        if bytes.len() < 4 {
            return Err(IdxError::Truncated);
        }
        let magic = read_int(bytes, 0);
        if (magic % 256) as usize != ndim {
            return Err(IdxError::Rank);
        }
        if magic / 256 != UNSIGNED_BYTE {
            return Err(IdxError::ElementType);
        }
        let start: usize = 4 + 4 * ndim;
        if bytes.len() < start {
            return Err(IdxError::Truncated);
        }
        let mut shape: Vec<usize> = Vec::new();
        let mut d: usize = 0;
        while d < ndim
            invariant
                d <= ndim,
                ndim < 256,
                start == 4 + 4 * ndim,
                start <= bytes.len(),
                shape.len() == d,
                forall|j: int| 0 <= j < d ==> shape[j] == header_shape(bytes@, ndim as nat)[j],
            decreases ndim - d,
        {
            let length = read_int(bytes, 4 + 4 * d);
            shape.push(length as usize);
            d += 1;
        }
        assert(shape@ =~= header_shape(bytes@, ndim as nat));
        let mut data: Vec<u8> = Vec::new();
        let mut i: usize = start;
        while i < bytes.len()
            invariant
                start <= i <= bytes.len(),
                data.len() == i - start,
                forall|j: int| 0 <= j < data.len() ==> data[j] == bytes[start + j],
            decreases bytes.len() - i,
        {
            data.push(bytes[i]);
            i += 1;
        }
        assert(data@ =~= bytes@.skip(start as int));
        if !has_volume(&shape, data.len()) {
            return Err(IdxError::Size);
        }
        Ok(IdxArray { shape, data })
    }

    /// The number of axes.
    pub fn ndim(&self) -> (n: usize)
        ensures
            n == self.shape().len(),
    {
        self.shape.len()
    }

    /// The length of axis `axis`.
    pub fn len_of(&self, axis: usize) -> (n: usize)
        requires
            axis < self.shape().len(),
        ensures
            n == self.shape()[axis as int],
    {
        self.shape[axis]
    }

    /// The elements of the sub-array at position `index` along the first
    /// axis, if the array has a first axis that long.
    pub fn example(&self, index: usize) -> (example: Option<Vec<u8>>)
        ensures
            example is Some <==> self.shape().len() >= 1 && index < self.shape()[0],
            example matches Some(e) ==> e@ == example_at(
                self.shape(),
                self.elements(),
                index as int,
            ),
    {
        proof {
            use_type_invariant(self);
        }
        if self.shape.len() == 0 || index >= self.shape[0] {
            return None;
        }
        let outer = self.shape[0];
        let stride = self.data.len() / outer;
        let ghost inner = volume(self.shape@.drop_first());
        proof {
            lemma_volume_outer(self.shape@);
            assert(stride == inner) by (nonlinear_arith)
                requires
                    self.data.len() == (outer as nat) * inner,
                    outer > 0,
                    stride == self.data.len() / (outer as usize),
            ;
            assert((index + 1) * stride <= outer * stride) by (nonlinear_arith)
                requires
                    index < outer,
                    stride >= 0,
            ;
            assert((index + 1) * stride == index * stride + stride) by (nonlinear_arith);
            assert(0 <= index * stride) by (nonlinear_arith)
                requires
                    stride >= 0,
                    index >= 0,
            ;
        }
        let start = index * stride;
        let mut example: Vec<u8> = Vec::new();
        let mut k: usize = 0;
        while k < stride
            invariant
                k <= stride,
                start + stride <= self.data.len(),
                example.len() == k,
                forall|j: int| 0 <= j < k ==> example[j] == self.data[start + j],
            decreases stride - k,
        {
            example.push(self.data[start + k]);
            k += 1;
        }
        assert(example@ =~= example_at(self.shape@, self.data@, index as int));
        Some(example)
    }

    /// The number of elements.
    pub fn len(&self) -> (n: usize)
        ensures
            n == self.elements().len(),
            n == volume(self.shape()),
    {
        proof {
            use_type_invariant(self);
        }
        self.data.len()
    }
}

} // verus!
