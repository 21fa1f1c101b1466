use vstd::prelude::*;

use crate::arith::Arith;
use crate::error::{InvalidModelError, IoError, OcelotlError, UnsupportedError};
use crate::gguf::{inspect_gguf, GgmlTensorType, GgufManifest, GgufTensorEntry};
use crate::k_blocks::{dequantize_blocks, GgmlKQuantKind};
use crate::text::{FloatText, Text, same_text};
use crate::values::{decode_dense, LoadedTensor, SupportedDtype};

verus! {

/// Which encodings a load may decode.
#[derive(Debug, Clone, Copy, PartialEq, Eq, Structural)]
pub enum GgufValueMode {
    DenseOnly,
    DenseOrKQuantized,
}

impl GgmlTensorType {
    /// The name of an encoding in messages.
    pub open spec fn name(self) -> Seq<char> {
        match self {
            GgmlTensorType::F32 => "F32"@,
            GgmlTensorType::F16 => "F16"@,
            GgmlTensorType::Q4_0 => "Q4_0"@,
            GgmlTensorType::Q4_1 => "Q4_1"@,
            GgmlTensorType::Q5_0 => "Q5_0"@,
            GgmlTensorType::Q5_1 => "Q5_1"@,
            GgmlTensorType::Q8_0 => "Q8_0"@,
            GgmlTensorType::Q8_1 => "Q8_1"@,
            GgmlTensorType::Q2K => "Q2K"@,
            GgmlTensorType::Q3K => "Q3K"@,
            GgmlTensorType::Q4K => "Q4K"@,
            GgmlTensorType::Q5K => "Q5K"@,
            GgmlTensorType::Q6K => "Q6K"@,
            GgmlTensorType::Q8K => "Q8K"@,
            GgmlTensorType::Iq2Xxs => "Iq2Xxs"@,
            GgmlTensorType::Iq2Xs => "Iq2Xs"@,
            GgmlTensorType::Iq3Xxs => "Iq3Xxs"@,
            GgmlTensorType::Iq1S => "Iq1S"@,
            GgmlTensorType::Iq4Nl => "Iq4Nl"@,
            GgmlTensorType::Iq3S => "Iq3S"@,
            GgmlTensorType::Iq2S => "Iq2S"@,
            GgmlTensorType::Iq4Xs => "Iq4Xs"@,
            GgmlTensorType::I8 => "I8"@,
            GgmlTensorType::I16 => "I16"@,
            GgmlTensorType::I32 => "I32"@,
            GgmlTensorType::I64 => "I64"@,
            GgmlTensorType::F64 => "F64"@,
            GgmlTensorType::Iq1M => "Iq1M"@,
            GgmlTensorType::BF16 => "BF16"@,
            GgmlTensorType::Tq1_0 => "Tq1_0"@,
            GgmlTensorType::Tq2_0 => "Tq2_0"@,
            GgmlTensorType::MXFP4 => "MXFP4"@,
            GgmlTensorType::Unknown(raw) => "Unknown("@ + crate::text::dec(raw as nat) + ")"@,
        }
    }

    /// The name of an encoding in messages.
    pub fn to_text(self) -> (r: String)
        ensures
            r@ == self.name(),
    {
        match self {
            GgmlTensorType::F32 => String::from_str("F32"),
            GgmlTensorType::F16 => String::from_str("F16"),
            GgmlTensorType::Q4_0 => String::from_str("Q4_0"),
            GgmlTensorType::Q4_1 => String::from_str("Q4_1"),
            GgmlTensorType::Q5_0 => String::from_str("Q5_0"),
            GgmlTensorType::Q5_1 => String::from_str("Q5_1"),
            GgmlTensorType::Q8_0 => String::from_str("Q8_0"),
            GgmlTensorType::Q8_1 => String::from_str("Q8_1"),
            GgmlTensorType::Q2K => String::from_str("Q2K"),
            GgmlTensorType::Q3K => String::from_str("Q3K"),
            GgmlTensorType::Q4K => String::from_str("Q4K"),
            GgmlTensorType::Q5K => String::from_str("Q5K"),
            GgmlTensorType::Q6K => String::from_str("Q6K"),
            GgmlTensorType::Q8K => String::from_str("Q8K"),
            GgmlTensorType::Iq2Xxs => String::from_str("Iq2Xxs"),
            GgmlTensorType::Iq2Xs => String::from_str("Iq2Xs"),
            GgmlTensorType::Iq3Xxs => String::from_str("Iq3Xxs"),
            GgmlTensorType::Iq1S => String::from_str("Iq1S"),
            GgmlTensorType::Iq4Nl => String::from_str("Iq4Nl"),
            GgmlTensorType::Iq3S => String::from_str("Iq3S"),
            GgmlTensorType::Iq2S => String::from_str("Iq2S"),
            GgmlTensorType::Iq4Xs => String::from_str("Iq4Xs"),
            GgmlTensorType::I8 => String::from_str("I8"),
            GgmlTensorType::I16 => String::from_str("I16"),
            GgmlTensorType::I32 => String::from_str("I32"),
            GgmlTensorType::I64 => String::from_str("I64"),
            GgmlTensorType::F64 => String::from_str("F64"),
            GgmlTensorType::Iq1M => String::from_str("Iq1M"),
            GgmlTensorType::BF16 => String::from_str("BF16"),
            GgmlTensorType::Tq1_0 => String::from_str("Tq1_0"),
            GgmlTensorType::Tq2_0 => String::from_str("Tq2_0"),
            GgmlTensorType::MXFP4 => String::from_str("MXFP4"),
            GgmlTensorType::Unknown(raw) => Text::new("Unknown(").n64(raw as u64).s(")").done(),
        }
    }

    /// The block encoding, where it is one that can be decoded.
    pub open spec fn k_kind(self) -> Option<GgmlKQuantKind> {
        match self {
            GgmlTensorType::Q4K => Some(GgmlKQuantKind::Q4K),
            GgmlTensorType::Q5K => Some(GgmlKQuantKind::Q5K),
            GgmlTensorType::Q6K => Some(GgmlKQuantKind::Q6K),
            _ => None,
        }
    }

    /// The block encoding, where it is one that can be decoded.
    pub fn k_quant_kind(self) -> (r: Option<GgmlKQuantKind>)
        ensures
            r == self.k_kind(),
    {
        match self {
            GgmlTensorType::Q4K => Some(GgmlKQuantKind::Q4K),
            GgmlTensorType::Q5K => Some(GgmlKQuantKind::Q5K),
            GgmlTensorType::Q6K => Some(GgmlKQuantKind::Q6K),
            _ => None,
        }
    }

    /// The element type of a dense encoding that can be decoded.
    pub open spec fn dense(self) -> Option<SupportedDtype> {
        match self {
            GgmlTensorType::F32 => Some(SupportedDtype::F32),
            GgmlTensorType::F16 => Some(SupportedDtype::F16),
            GgmlTensorType::BF16 => Some(SupportedDtype::BF16),
            _ => None,
        }
    }

    /// The element type of a dense encoding that can be decoded.
    pub fn dense_dtype(self) -> (r: Option<SupportedDtype>)
        ensures
            r == self.dense(),
    {
        match self {
            GgmlTensorType::F32 => Some(SupportedDtype::F32),
            GgmlTensorType::F16 => Some(SupportedDtype::F16),
            GgmlTensorType::BF16 => Some(SupportedDtype::BF16),
            _ => None,
        }
    }
}

/// A refusal that names the artifact and the tensor.
pub open spec fn refusal(path: Seq<char>, name: Seq<char>, message: Seq<char>) -> crate::error::ErrorView {
    crate::error::ErrorView::InvalidModel { path: Some(path), field: Some(name), message }
}

fn invalid_gguf_values(path: &str, name: &str, message: String) -> (e: OcelotlError)
    ensures
        e@ == refusal(path@, name@, message@),
{
    OcelotlError::InvalidModel(
        InvalidModelError {
            path: Some(String::from_str(path)),
            field: Some(String::from_str(name)),
            message,
        },
    )
}

/// The refusal of an encoding that the mode does not decode.
pub open spec fn unsupported_type(
    t: GgmlTensorType,
    name: Seq<char>,
    mode: GgufValueMode,
) -> crate::error::ErrorView {
    crate::error::ErrorView::Unsupported {
        feature: "gguf_tensor_type"@,
        requested: Some(t.name() + " (tensor `"@ + name + "`)"@),
        supported: match mode {
            GgufValueMode::DenseOnly => seq!["F32"@, "F16"@, "BF16"@],
            GgufValueMode::DenseOrKQuantized => seq![
                "F32"@,
                "F16"@,
                "BF16"@,
                "Q4K"@,
                "Q5K"@,
                "Q6K"@,
            ],
        },
    }
}

fn unsupported_gguf_tensor_type(t: GgmlTensorType, name: &str, mode: GgufValueMode) -> (e:
    OcelotlError)
    ensures
        e@ == unsupported_type(t, name@, mode),
{
    let mut supported: Vec<String> = Vec::new();
    supported.push(String::from_str("F32"));
    supported.push(String::from_str("F16"));
    supported.push(String::from_str("BF16"));
    if mode == GgufValueMode::DenseOrKQuantized {
        supported.push(String::from_str("Q4K"));
        supported.push(String::from_str("Q5K"));
        supported.push(String::from_str("Q6K"));
        proof {
            assert(crate::text::words(supported@) =~= seq![
                "F32"@,
                "F16"@,
                "BF16"@,
                "Q4K"@,
                "Q5K"@,
                "Q6K"@,
            ]);
        }
    } else {
        proof {
            assert(crate::text::words(supported@) =~= seq!["F32"@, "F16"@, "BF16"@]);
        }
    }
    OcelotlError::Unsupported(
        UnsupportedError {
            feature: String::from_str("gguf_tensor_type"),
            requested: Some(
                Text::new(t.to_text().as_str()).s(" (tensor `").s(name).s("`)").done(),
            ),
            supported,
        },
    )
}

/// A refusal that starts with the name of a tensor.
pub open spec fn tensor_refusal(path: Seq<char>, name: Seq<char>, rest: Seq<char>) -> crate::error::ErrorView {
    refusal(path, name, "GGUF tensor `"@ + name + rest)
}

fn refuse_tensor(path: &str, name: &str, rest: String) -> (e: OcelotlError)
    ensures
        e@ == tensor_refusal(path@, name@, rest@),
{
    invalid_gguf_values(path, name, Text::new("GGUF tensor `").s(name).s(rest.as_str()).done())
}

/// The number of elements of a shape.
pub open spec fn element_count(path: Seq<char>, name: Seq<char>, shape: Seq<usize>) -> Result<
    usize,
    crate::error::ErrorView,
> {
    if crate::kv_cache::product_fits(shape) {
        Ok(crate::kv_cache::product(shape) as usize)
    } else {
        Err(tensor_refusal(path, name, "` element count overflows usize"@))
    }
}

/// The number of elements of a tensor.
pub fn element_count_from_shape(path: &str, tensor: &GgufTensorEntry) -> (r: Result<
    usize,
    OcelotlError,
>)
    ensures
        crate::error::outcome(r) == element_count(path@, tensor@.name, tensor@.shape),
{
    match crate::kv_cache::checked_product("", tensor.shape.as_slice()) {
        Ok(n) => Ok(n),
        Err(_) => Err(
            refuse_tensor(
                path,
                tensor.name.as_str(),
                String::from_str("` element count overflows usize"),
            ),
        ),
    }
}

/// The bytes of a block-encoded tensor: its rows have to be whole blocks.
pub open spec fn k_quant_len(
    path: Seq<char>,
    name: Seq<char>,
    t: GgmlTensorType,
    kind: GgmlKQuantKind,
    shape: Seq<usize>,
    count: nat,
) -> Result<usize, crate::error::ErrorView> {
    if shape.len() == 0 {
        Err(tensor_refusal(path, name, "` has no row dimension"@))
    } else if shape[0] % 256 != 0 {
        Err(
            tensor_refusal(
                path,
                name,
                "` row element count "@ + crate::text::dec(shape[0] as nat)
                    + " is not divisible by "@ + t.name() + " quant block size "@
                    + crate::text::dec(256),
            ),
        )
    } else if count % 256 != 0 {
        Err(
            tensor_refusal(
                path,
                name,
                "` element count "@ + crate::text::dec(count) + " is not divisible by "@ + t.name()
                    + " quant block size "@ + crate::text::dec(256),
            ),
        )
    } else if count / 256 * kind.block_len() > usize::MAX {
        Err(tensor_refusal(path, name, "` quantized payload length overflows usize"@))
    } else {
        Ok((count / 256 * kind.block_len()) as usize)
    }
}

fn k_quant_payload_len(
    path: &str,
    name: &str,
    t: GgmlTensorType,
    kind: GgmlKQuantKind,
    shape: &[usize],
    count: usize,
) -> (r: Result<usize, OcelotlError>)
    ensures
        crate::error::outcome(r) == k_quant_len(path@, name@, t, kind, shape@, count as nat),
{
    if shape.len() == 0 {
        return Err(refuse_tensor(path, name, String::from_str("` has no row dimension")));
    }
    if shape[0] % 256 != 0 {
        return Err(
            refuse_tensor(
                path,
                name,
                Text::new("` row element count ").n(shape[0]).s(" is not divisible by ").s(
                    t.to_text().as_str(),
                ).s(" quant block size ").n(256).done(),
            ),
        );
    }
    if count % 256 != 0 {
        return Err(
            refuse_tensor(
                path,
                name,
                Text::new("` element count ").n(count).s(" is not divisible by ").s(
                    t.to_text().as_str(),
                ).s(" quant block size ").n(256).done(),
            ),
        );
    }
    match (count / 256).checked_mul(kind.block_bytes()) {
        Some(n) => Ok(n),
        None => Err(
            refuse_tensor(
                path,
                name,
                String::from_str("` quantized payload length overflows usize"),
            ),
        ),
    }
}

/// When a block-encoded payload is refused, and how.
pub open spec fn payload_refusal(
    path: Seq<char>,
    name: Seq<char>,
    t: GgmlTensorType,
    data_len: nat,
    shape: Seq<usize>,
    count: nat,
) -> Option<crate::error::ErrorView> {
    match t.k_kind() {
        None => Some(unsupported_type(t, name, GgufValueMode::DenseOrKQuantized)),
        Some(kind) => match k_quant_len(path, name, t, kind, shape, count) {
            Err(e) => Some(e),
            Ok(expected) => if data_len != expected {
                Some(
                    tensor_refusal(
                        path,
                        name,
                        "` has malformed "@ + t.name() + " payload: "@ + crate::text::dec(data_len)
                            + " data bytes, expected "@ + crate::text::dec(expected as nat),
                    ),
                )
            } else {
                None
            },
        },
    }
}

/// Decodes a block-encoded payload of `element_count` elements.
pub fn dequantize_k_quant_payload<T: Copy, A: Arith<T>>(
    ar: &A,
    path: &str,
    tensor_name: &str,
    tensor_type: GgmlTensorType,
    data: &[u8],
    shape: &[usize],
    element_count: usize,
) -> (r: Result<Vec<T>, OcelotlError>)
    ensures
        (match r {
            Ok(_) => None,
            Err(e) => Some(e@),
        }) == payload_refusal(
            path@,
            tensor_name@,
            tensor_type,
            data@.len(),
            shape@,
            element_count as nat,
        ),
        r matches Ok(values) ==> {
            &&& tensor_type.k_kind() is Some
            &&& values@.len() == element_count
            &&& crate::k_blocks::blocks_values(
                ar,
                tensor_type.k_kind().unwrap(),
                data@,
                values@,
            )
        },
{
    let kind: GgmlKQuantKind = match tensor_type.k_quant_kind() {
        Some(k) => k,
        None => {
            return Err(
                unsupported_gguf_tensor_type(
                    tensor_type,
                    tensor_name,
                    GgufValueMode::DenseOrKQuantized,
                ),
            );
        },
    };
    let expected: usize = match k_quant_payload_len(
        path,
        tensor_name,
        tensor_type,
        kind,
        shape,
        element_count,
    ) {
        Ok(n) => n,
        Err(e) => return Err(e),
    };
    if data.len() != expected {
        return Err(
            refuse_tensor(
                path,
                tensor_name,
                Text::new("` has malformed ").s(tensor_type.to_text().as_str()).s(" payload: ").n(
                    data.len(),
                ).s(" data bytes, expected ").n(expected).done(),
            ),
        );
    }
    Ok(dequantize_blocks(ar, kind, data, element_count / 256))
}

/// How a tensor is to be read.
pub enum PayloadView {
    Dense(SupportedDtype, nat),
    Blocks(GgmlKQuantKind, nat, nat),
}

/// The encoding of a tensor and the bytes of its payload, or the refusal of it.
pub open spec fn payload_of(
    path: Seq<char>,
    t: crate::gguf::TensorView,
    mode: GgufValueMode,
) -> Result<PayloadView, crate::error::ErrorView> {
    match (t.tensor_type.dense(), t.tensor_type.k_kind(), t.byte_len) {
        (Some(dtype), _, Some(len)) => if len > usize::MAX {
            Err(
                refusal(
                    path,
                    t.name,
                    "tensor `"@ + t.name + "` byte length "@ + crate::text::dec(len as nat)
                        + " does not fit in usize"@,
                ),
            )
        } else {
            Ok(PayloadView::Dense(dtype, len as nat))
        },
        (None, Some(kind), _) => if mode == GgufValueMode::DenseOrKQuantized {
            match element_count(path, t.name, t.shape) {
                Err(e) => Err(e),
                Ok(count) => match k_quant_len(
                    path,
                    t.name,
                    t.tensor_type,
                    kind,
                    t.shape,
                    count as nat,
                ) {
                    Err(e) => Err(e),
                    Ok(len) => Ok(PayloadView::Blocks(kind, len as nat, count as nat)),
                },
            }
        } else {
            Err(unsupported_type(t.tensor_type, t.name, mode))
        },
        _ => Err(unsupported_type(t.tensor_type, t.name, mode)),
    }
}

/// The bytes that a payload takes up.
pub open spec fn payload_bytes(p: PayloadView) -> nat {
    match p {
        PayloadView::Dense(_, len) => len,
        PayloadView::Blocks(_, len, _) => len,
    }
}

/// The number of bytes to read at the tensor's file offset.
pub fn tensor_payload_len(path: &str, tensor: &GgufTensorEntry, mode: GgufValueMode) -> (r: Result<
    usize,
    OcelotlError,
>)
    ensures
        (match crate::error::outcome(r) {
            Ok(n) => Ok(n as nat),
            Err(e) => Err(e),
        }) == (match payload_of(path@, tensor@, mode) {
            Ok(p) => Ok(payload_bytes(p)),
            Err(e) => Err(e),
        }),
{
    let name: &str = tensor.name.as_str();
    match (tensor.tensor_type.dense_dtype(), tensor.tensor_type.k_quant_kind(), tensor.byte_len) {
        (Some(_), _, Some(len)) => if len > usize::MAX as u64 {
            Err(
                invalid_gguf_values(
                    path,
                    name,
                    Text::new("tensor `").s(name).s("` byte length ").n64(len).s(
                        " does not fit in usize",
                    ).done(),
                ),
            )
        } else {
            Ok(len as usize)
        },
        (None, Some(kind), _) => {
            if mode == GgufValueMode::DenseOnly {
                return Err(unsupported_gguf_tensor_type(tensor.tensor_type, name, mode));
            }
            let count: usize = match element_count_from_shape(path, tensor) {
                Ok(n) => n,
                Err(e) => return Err(e),
            };
            k_quant_payload_len(
                path,
                name,
                tensor.tensor_type,
                kind,
                tensor.shape.as_slice(),
                count,
            )
        },
        _ => Err(unsupported_gguf_tensor_type(tensor.tensor_type, name, mode)),
    }
}

/// A loaded tensor is the described one, with the values of its payload.
pub open spec fn loaded_from<T, A: Arith<T>>(
    ar: &A,
    t: crate::gguf::TensorView,
    p: PayloadView,
    data: Seq<u8>,
    l: LoadedTensor<T>,
) -> bool {
    &&& l.name@ == t.name
    &&& l.shape@ == t.shape
    &&& match p {
        PayloadView::Dense(dtype, _) => l.dtype == dtype && crate::values::dense_values(
            ar,
            dtype,
            data,
            l.values@,
        ),
        PayloadView::Blocks(kind, _, count) => l.dtype == SupportedDtype::F32 && l.values@.len()
            == count && crate::k_blocks::blocks_values(ar, kind, data, l.values@),
    }
}

/// When the payload of a tensor is refused, and how.
pub open spec fn decode_refusal(
    path: Seq<char>,
    t: crate::gguf::TensorView,
    p: PayloadView,
    data_len: nat,
) -> Option<crate::error::ErrorView> {
    match p {
        PayloadView::Dense(dtype, _) => if data_len % dtype.width() != 0 {
            Some(crate::values::payload_error("GGUF"@, path, t.name, data_len, dtype.width()))
        } else {
            None
        },
        PayloadView::Blocks(_, _, count) => payload_refusal(
            path,
            t.name,
            t.tensor_type,
            data_len,
            t.shape,
            count,
        ),
    }
}

/// Decodes the payload of a tensor.
pub fn load_tensor_bytes<T: Copy, A: Arith<T>>(
    ar: &A,
    path: &str,
    tensor: &GgufTensorEntry,
    data: &[u8],
    mode: GgufValueMode,
) -> (r: Result<LoadedTensor<T>, OcelotlError>)
    ensures
        payload_of(path@, tensor@, mode) matches Err(e) ==> r matches Err(f) && f@ == e,
        payload_of(path@, tensor@, mode) matches Ok(p) ==> {
            &&& (match r {
                Ok(_) => None,
                Err(e) => Some(e@),
            }) == decode_refusal(path@, tensor@, p, data@.len())
            &&& r matches Ok(l) ==> loaded_from(ar, tensor@, p, data@, l)
        },
{
    let name: &str = tensor.name.as_str();
    match tensor_payload_len(path, tensor, mode) {
        Ok(_) => {},
        Err(e) => return Err(e),
    }
    match tensor.tensor_type.dense_dtype() {
        Some(dtype) => match decode_dense(ar, "GGUF", dtype, data, path, name) {
            Ok(values) => Ok(
                LoadedTensor {
                    name: tensor.name.clone(),
                    shape: copy_shape(&tensor.shape),
                    dtype,
                    values,
                },
            ),
            Err(e) => Err(e),
        },
        None => {
            let count: usize = match element_count_from_shape(path, tensor) {
                Ok(n) => n,
                Err(e) => return Err(e),
            };
            match dequantize_k_quant_payload(
                ar,
                path,
                name,
                tensor.tensor_type,
                data,
                tensor.shape.as_slice(),
                count,
            ) {
                Ok(values) => Ok(
                    LoadedTensor {
                        name: tensor.name.clone(),
                        shape: copy_shape(&tensor.shape),
                        dtype: SupportedDtype::F32,
                        values,
                    },
                ),
                Err(e) => Err(e),
            }
        },
    }
}

/// A copy of a shape.
pub fn copy_shape(shape: &Vec<usize>) -> (r: Vec<usize>)
    ensures
        r@ == shape@,
{
    let mut r: Vec<usize> = Vec::new();
    let mut i: usize = 0;
    while i < shape.len()
        invariant
            i <= shape@.len(),
            r@ == shape@.take(i as int),
        decreases shape@.len() - i,
    {
        r.push(shape[i]);
        i = i + 1;
        proof {
            assert(r@ =~= shape@.take(i as int));
        }
    }
    proof {
        assert(shape@.take(i as int) =~= shape@);
    }
    r
}

/// The first tensor with the given name.
pub open spec fn find_view(v: Seq<crate::gguf::TensorView>, name: Seq<char>) -> Option<
    crate::gguf::TensorView,
>
    decreases v.len(),
{
    if v.len() == 0 {
        None
    } else if v[0].name == name {
        Some(v[0])
    } else {
        find_view(v.drop_first(), name)
    }
}

/// The error of a tensor that the artifact does not describe.
pub open spec fn missing_tensor(path: Seq<char>, name: Seq<char>) -> crate::error::ErrorView {
    refusal(path, name, "required tensor `"@ + name + "` not found in GGUF file"@)
}

/// The description of the first tensor with the given name.
pub fn find_tensor<'a>(path: &str, manifest: &'a GgufManifest, tensor_name: &str) -> (r: Result<
    &'a GgufTensorEntry,
    OcelotlError,
>)
    ensures
        (match r {
            Ok(t) => Ok(t@),
            Err(e) => Err(e@),
        }) == (match find_view(manifest@.tensors, tensor_name@) {
            Some(t) => Ok(t),
            None => Err(missing_tensor(path@, tensor_name@)),
        }),
{
    let ghost views = manifest@.tensors;
    let mut i: usize = 0;
    proof {
        assert(views.skip(0) =~= views);
    }
    while i < manifest.tensors.len()
        invariant
            views == manifest@.tensors,
            i <= manifest.tensors@.len(),
            find_view(views, tensor_name@) == find_view(views.skip(i as int), tensor_name@),
        decreases manifest.tensors@.len() - i,
    {
        proof {
            assert(views.skip(i as int).drop_first() =~= views.skip(i + 1));
            assert(views.skip(i as int)[0] == manifest.tensors@[i as int]@);
        }
        if same_text(manifest.tensors[i].name.as_str(), tensor_name) {
            return Ok(&manifest.tensors[i]);
        }
        i = i + 1;
    }
    Err(
        invalid_gguf_values(
            path,
            tensor_name,
            Text::new("required tensor `").s(tensor_name).s("` not found in GGUF file").done(),
        ),
    )
}

/// The error of a payload that reaches beyond the end of the file.
pub open spec fn short_read(path: Seq<char>) -> crate::error::ErrorView {
    crate::error::ErrorView::Io { path: Some(path), source: "failed to fill whole buffer"@ }
}

/// What loading a tensor of a file gives: the loaded tensor, or the first error
/// on the way.
pub open spec fn load_outcome<T, A: Arith<T>>(
    ar: &A,
    path: Seq<char>,
    m: crate::gguf::ManifestView,
    bytes: Seq<u8>,
    name: Seq<char>,
    mode: GgufValueMode,
    r: Result<LoadedTensor<T>, crate::error::ErrorView>,
) -> bool {
    match find_view(m.tensors, name) {
        None => r == Err::<LoadedTensor<T>, _>(missing_tensor(path, name)),
        Some(t) => match payload_of(path, t, mode) {
            Err(e) => r == Err::<LoadedTensor<T>, _>(e),
            Ok(p) => if t.file_offset + payload_bytes(p) > bytes.len() {
                r == Err::<LoadedTensor<T>, _>(short_read(path))
            } else {
                let data = bytes.subrange(
                    t.file_offset as int,
                    (t.file_offset + payload_bytes(p)) as int,
                );
                match decode_refusal(path, t, p, payload_bytes(p)) {
                    Some(e) => r == Err::<LoadedTensor<T>, _>(e),
                    None => r matches Ok(l) && loaded_from(ar, t, p, data, l),
                }
            },
        },
    }
}

/// Loads a tensor of a file that is here as a whole.
pub fn load_tensor_from_manifest<T: Copy, A: Arith<T>>(
    ar: &A,
    path: &str,
    manifest: &GgufManifest,
    bytes: &[u8],
    tensor_name: &str,
    mode: GgufValueMode,
) -> (r: Result<LoadedTensor<T>, OcelotlError>)
    ensures
        load_outcome(
            ar,
            path@,
            manifest@,
            bytes@,
            tensor_name@,
            mode,
            crate::error::outcome(r),
        ),
{
    let tensor: &GgufTensorEntry = match find_tensor(path, manifest, tensor_name) {
        Ok(t) => t,
        Err(e) => return Err(e),
    };
    let len: usize = match tensor_payload_len(path, tensor, mode) {
        Ok(n) => n,
        Err(e) => return Err(e),
    };
    let total: usize = bytes.len();
    if tensor.file_offset > total as u64 || len as u64 > total as u64 - tensor.file_offset {
        return Err(
            OcelotlError::Io(
                IoError {
                    path: Some(String::from_str(path)),
                    source: String::from_str("failed to fill whole buffer"),
                },
            ),
        );
    }
    let start: usize = tensor.file_offset as usize;
    let data: &[u8] = vstd::slice::slice_subrange(bytes, start, start + len);
    load_tensor_bytes(ar, path, tensor, data, mode)
}

/// What loading a tensor straight from a file's bytes gives.
pub open spec fn file_outcome<T, A: Arith<T> + FloatText>(
    ar: &A,
    path: Seq<char>,
    bytes: Seq<u8>,
    name: Seq<char>,
    mode: GgufValueMode,
    r: Result<LoadedTensor<T>, crate::error::ErrorView>,
) -> bool {
    match crate::gguf::manifest_of(
        crate::gguf::FileView { path, prefix: bytes, file_len: bytes.len() as u64 },
    ) {
        Ok(m) => load_outcome(ar, path, m, bytes, name, mode, r),
        Err(stop) => r matches Err(e) && crate::gguf::stop_error(ar, path, stop, e),
    }
}

/// Loads one tensor whose elements have a fixed size.
pub fn load_gguf_tensor_f32<T: Copy, A: Arith<T> + FloatText>(
    ar: &A,
    path: &str,
    bytes: &[u8],
    tensor_name: &str,
) -> (r: Result<LoadedTensor<T>, OcelotlError>)
    ensures
        file_outcome(
            ar,
            path@,
            bytes@,
            tensor_name@,
            GgufValueMode::DenseOnly,
            crate::error::outcome(r),
        ),
{
    match inspect_gguf(ar, path, bytes) {
        Ok(m) => load_tensor_from_manifest(
            ar,
            path,
            &m,
            bytes,
            tensor_name,
            GgufValueMode::DenseOnly,
        ),
        Err(e) => Err(e),
    }
}

/// Loads one tensor; block-encoded elements are decoded.
pub fn load_gguf_tensor_dequantized_f32<T: Copy, A: Arith<T> + FloatText>(
    ar: &A,
    path: &str,
    bytes: &[u8],
    tensor_name: &str,
) -> (r: Result<LoadedTensor<T>, OcelotlError>)
    ensures
        file_outcome(
            ar,
            path@,
            bytes@,
            tensor_name@,
            GgufValueMode::DenseOrKQuantized,
            crate::error::outcome(r),
        ),
{
    match inspect_gguf(ar, path, bytes) {
        Ok(m) => load_tensor_from_manifest(
            ar,
            path,
            &m,
            bytes,
            tensor_name,
            GgufValueMode::DenseOrKQuantized,
        ),
        Err(e) => Err(e),
    }
}

/// What loading several tensors gives: all of them in the order of the names,
/// or the error of the first one that cannot be loaded.
pub open spec fn many_outcome<T, A: Arith<T> + FloatText>(
    ar: &A,
    path: Seq<char>,
    bytes: Seq<u8>,
    names: Seq<Seq<char>>,
    mode: GgufValueMode,
    r: Result<Seq<LoadedTensor<T>>, crate::error::ErrorView>,
) -> bool {
    match crate::gguf::manifest_of(
        crate::gguf::FileView { path, prefix: bytes, file_len: bytes.len() as u64 },
    ) {
        Ok(m) => match r {
            Ok(v) => v.len() == names.len() && forall|i: int|
                0 <= i < v.len() ==> load_outcome(
                    ar,
                    path,
                    m,
                    bytes,
                    names[i],
                    mode,
                    Ok::<LoadedTensor<T>, crate::error::ErrorView>(#[trigger] v[i]),
                ),
            Err(e) => exists|k: int|
                0 <= k < names.len() && load_outcome(
                    ar,
                    path,
                    m,
                    bytes,
                    #[trigger] names[k],
                    mode,
                    Err::<LoadedTensor<T>, _>(e),
                ) && forall|i: int|
                    0 <= i < k ==> loads(ar, path, m, bytes, #[trigger] names[i], mode),
        },
        Err(stop) => r matches Err(e) && crate::gguf::stop_error(ar, path, stop, e),
    }
}

/// The tensor of that name loads.
pub open spec fn loads<T, A: Arith<T>>(
    ar: &A,
    path: Seq<char>,
    m: crate::gguf::ManifestView,
    bytes: Seq<u8>,
    name: Seq<char>,
    mode: GgufValueMode,
) -> bool {
    exists|l: LoadedTensor<T>|
        #[trigger] load_outcome(
            ar,
            path,
            m,
            bytes,
            name,
            mode,
            Ok::<LoadedTensor<T>, crate::error::ErrorView>(l),
        )
}

fn load_many<T: Copy, A: Arith<T> + FloatText>(
    ar: &A,
    path: &str,
    bytes: &[u8],
    tensor_names: &[String],
    mode: GgufValueMode,
) -> (r: Result<Vec<LoadedTensor<T>>, OcelotlError>)
    ensures
        many_outcome(
            ar,
            path@,
            bytes@,
            crate::text::words(tensor_names@),
            mode,
            (match crate::error::outcome(r) {
                Ok(v) => Ok(v@),
                Err(e) => Err(e),
            }),
        ),
{
    let m: GgufManifest = match inspect_gguf(ar, path, bytes) {
        Ok(m) => m,
        Err(e) => return Err(e),
    };
    let ghost names = crate::text::words(tensor_names@);
    let mut v: Vec<LoadedTensor<T>> = Vec::new();
    let mut i: usize = 0;
    while i < tensor_names.len()
        invariant
            crate::gguf::manifest_of(
                crate::gguf::FileView {
                    path: path@,
                    prefix: bytes@,
                    file_len: bytes@.len() as u64,
                },
            ) == Ok::<_, crate::gguf::StopView>(m@),
            names == crate::text::words(tensor_names@),
            i <= tensor_names@.len(),
            v@.len() == i,
            forall|k: int|
                0 <= k < i ==> load_outcome(
                    ar,
                    path@,
                    m@,
                    bytes@,
                    names[k],
                    mode,
                    Ok::<LoadedTensor<T>, crate::error::ErrorView>(#[trigger] v@[k]),
                ),
        decreases tensor_names@.len() - i,
    {
        match load_tensor_from_manifest(
            ar,
            path,
            &m,
            bytes,
            tensor_names[i].as_str(),
            mode,
        ) {
            Ok(l) => {
                assert(names[i as int] == tensor_names@[i as int]@);
                v.push(l);
            },
            Err(e) => {
                proof {
                    assert(names[i as int] == tensor_names@[i as int]@);
                    assert forall|k: int| 0 <= k < i implies loads::<T, A>(
                        ar,
                        path@,
                        m@,
                        bytes@,
                        #[trigger] names[k],
                        mode,
                    ) by {
                        let l = v@[k];
                        assert(load_outcome(
                            ar,
                            path@,
                            m@,
                            bytes@,
                            names[k],
                            mode,
                            Ok::<LoadedTensor<T>, crate::error::ErrorView>(l),
                        ));
                    }
                }
                return Err(e);
            },
        }
        i = i + 1;
    }
    Ok(v)
}

/// Loads several tensors whose elements have a fixed size.
pub fn load_gguf_tensors_f32<T: Copy, A: Arith<T> + FloatText>(
    ar: &A,
    path: &str,
    bytes: &[u8],
    tensor_names: &[String],
) -> (r: Result<Vec<LoadedTensor<T>>, OcelotlError>)
    ensures
        many_outcome(
            ar,
            path@,
            bytes@,
            crate::text::words(tensor_names@),
            GgufValueMode::DenseOnly,
            (match crate::error::outcome(r) {
                Ok(v) => Ok(v@),
                Err(e) => Err(e),
            }),
        ),
{
    load_many(ar, path, bytes, tensor_names, GgufValueMode::DenseOnly)
}

/// Loads several tensors; block-encoded elements are decoded.
pub fn load_gguf_tensors_dequantized_f32<T: Copy, A: Arith<T> + FloatText>(
    ar: &A,
    path: &str,
    bytes: &[u8],
    tensor_names: &[String],
) -> (r: Result<Vec<LoadedTensor<T>>, OcelotlError>)
    ensures
        many_outcome(
            ar,
            path@,
            bytes@,
            crate::text::words(tensor_names@),
            GgufValueMode::DenseOrKQuantized,
            (match crate::error::outcome(r) {
                Ok(v) => Ok(v@),
                Err(e) => Err(e),
            }),
        ),
{
    load_many(ar, path, bytes, tensor_names, GgufValueMode::DenseOrKQuantized)
}

} // verus!
