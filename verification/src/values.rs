use vstd::prelude::*;

use crate::arith::Arith;
use crate::bytes::read_le;
use crate::error::{InvalidModelError, OcelotlError};
use crate::half::{bf16_bits_to_f32, f16_bits_to_f32};
use crate::text::Text;
use crate::types::DType;

verus! {

/// The element types whose values can be loaded.
#[derive(Debug, Clone, Copy, PartialEq, Eq, Structural)]
pub enum SupportedDtype {
    F32,
    F16,
    BF16,
}

impl From<SupportedDtype> for DType {
    fn from(d: SupportedDtype) -> (r: DType) {
        match d {
            SupportedDtype::F32 => DType::F32,
            SupportedDtype::F16 => DType::F16,
            SupportedDtype::BF16 => DType::BF16,
        }
    }
}

impl vstd::std_specs::convert::FromSpecImpl<SupportedDtype> for DType {
    open spec fn obeys_from_spec() -> bool {
        true
    }

    open spec fn from_spec(d: SupportedDtype) -> DType {
        match d {
            SupportedDtype::F32 => DType::F32,
            SupportedDtype::F16 => DType::F16,
            SupportedDtype::BF16 => DType::BF16,
        }
    }
}

/// A tensor with its values as scalars.
#[derive(Debug, Clone, PartialEq, Eq)]
pub struct LoadedTensor<T> {
    pub name: String,
    pub shape: Vec<usize>,
    pub dtype: SupportedDtype,
    pub values: Vec<T>,
}

impl SupportedDtype {
    /// The bytes of one element.
    pub open spec fn width(self) -> nat {
        match self {
            SupportedDtype::F32 => 4,
            SupportedDtype::F16 | SupportedDtype::BF16 => 2,
        }
    }

    /// The bytes of one element.
    pub fn byte_width(self) -> (r: usize)
        ensures
            r == self.width(),
    {
        match self {
            SupportedDtype::F32 => 4,
            SupportedDtype::F16 | SupportedDtype::BF16 => 2,
        }
    }

    /// The single-precision bit pattern of an element with the given bits.
    pub open spec fn single_bits(self, bits: nat) -> u32 {
        match self {
            SupportedDtype::F32 => bits as u32,
            SupportedDtype::F16 => crate::half::single_of_half(bits as u16) as u32,
            SupportedDtype::BF16 => (bits * 0x1_0000) as u32,
        }
    }
}

/// The single-precision bit pattern of element `i` of little-endian data.
pub open spec fn element_bits(dtype: SupportedDtype, data: Seq<u8>, i: int) -> u32 {
    let w = dtype.width() as int;
    dtype.single_bits(crate::bytes::le_value(data.subrange(i * w, i * w + w)))
}

/// Each value is the scalar of its element's bit pattern.
pub open spec fn dense_values<T, A: Arith<T>>(
    ar: &A,
    dtype: SupportedDtype,
    data: Seq<u8>,
    values: Seq<T>,
) -> bool {
    &&& values.len() * dtype.width() == data.len()
    &&& forall|i: int|
        0 <= i < values.len() ==> crate::arith::decodes(
            ar,
            element_bits(dtype, data, i),
            #[trigger] values[i],
        )
}

/// The error of data that does not divide into elements.
pub open spec fn payload_error(
    format: Seq<char>,
    path: Seq<char>,
    name: Seq<char>,
    len: nat,
    width: nat,
) -> crate::error::ErrorView {
    crate::error::ErrorView::InvalidModel {
        path: Some(path),
        field: Some(name),
        message: format + " tensor `"@ + name + "` has malformed payload: "@ + crate::text::dec(len)
            + " data bytes is not divisible by element size "@ + crate::text::dec(width),
    }
}

/// Decodes little-endian elements; `format` names the artifact format in the error.
pub fn decode_dense<T: Copy, A: Arith<T>>(
    ar: &A,
    format: &str,
    dtype: SupportedDtype,
    data: &[u8],
    path: &str,
    tensor_name: &str,
) -> (r: Result<Vec<T>, OcelotlError>)
    ensures
        r is Ok <==> data@.len() % dtype.width() == 0,
        r matches Ok(values) ==> dense_values(ar, dtype, data@, values@),
        r matches Err(e) ==> e@ == payload_error(
            format@,
            path@,
            tensor_name@,
            data@.len(),
            dtype.width(),
        ),
{
    let width: usize = dtype.byte_width();
    let total: usize = data.len();
    if total % width != 0 {
        return Err(
            OcelotlError::InvalidModel(
                InvalidModelError {
                    path: Some(String::from_str(path)),
                    field: Some(String::from_str(tensor_name)),
                    message: Text::new(format).s(" tensor `").s(tensor_name).s(
                        "` has malformed payload: ",
                    ).n(total).s(" data bytes is not divisible by element size ").n(width).done(),
                },
            ),
        );
    }
    let count: usize = total / width;
    let mut values: Vec<T> = Vec::with_capacity(count);
    let mut i: usize = 0;
    let mut at: usize = 0;
    while i < count
        invariant
            width == dtype.width(),
            width == 2 || width == 4,
            total == data@.len(),
            total == count * width,
            i <= count,
            at == i * width,
            values@.len() == i,
            forall|k: int|
                0 <= k < i ==> crate::arith::decodes(
                    ar,
                    element_bits(dtype, data@, k),
                    #[trigger] values@[k],
                ),
        decreases count - i,
    {
        proof {
            assert(i * width + width <= count * width) by (nonlinear_arith)
                requires
                    i + 1 <= count,
                    width > 0,
            ;
            crate::bytes::le_value_widths(data@.subrange(at as int, at + width));
            assert((i + 1) * width == i * width + width) by (nonlinear_arith);
        }
        let raw: u64 = read_le(data, at, width);
        let bits: u32 = match dtype {
            SupportedDtype::F32 => raw as u32,
            SupportedDtype::F16 => f16_bits_to_f32(raw as u16),
            SupportedDtype::BF16 => bf16_bits_to_f32(raw as u16),
        };
        assert(bits == element_bits(dtype, data@, i as int));
        let v: T = ar.from_bits(bits);
        values.push(v);
        i = i + 1;
        at = at + width;
    }
    Ok(values)
}

} // verus!
