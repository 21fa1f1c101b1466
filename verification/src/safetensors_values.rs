use vstd::prelude::*;

use crate::arith::Arith;
use crate::error::{InvalidModelError, OcelotlError};
use crate::safetensors_header::{map_dtype, tensor_section_fits};
use crate::text::Text;
use crate::values::{decode_dense, LoadedTensor, SupportedDtype};

verus! {

/// A parsed file of the `safetensors` crate.
#[verifier::external_type_specification]
#[verifier::external_body]
pub struct ExSafeTensors<'data>(safetensors::SafeTensors<'data>);

/// The tensors of a parsed file: element type, shape and bytes, by name.
pub uninterp spec fn contents(f: safetensors::SafeTensors<'_>) -> Map<
    Seq<char>,
    (Seq<char>, Seq<usize>, Seq<u8>),
>;

/// The header of a file, parsed, and its length; nothing if the file does not
/// start with a valid header.
pub open spec fn file_header(bytes: Seq<u8>) -> Option<
    (nat, Map<Seq<char>, crate::safetensors_header::InfoView>),
> {
    let n = crate::bytes::le_value(bytes.take(8));
    if bytes.len() < 8 || n > crate::safetensors_header::SAFETENSORS_MAX_HEADER_SIZE || 8 + n
        > bytes.len() {
        None
    } else {
        let header = bytes.subrange(8, 8 + n as int);
        if !vstd::utf8::valid_utf8(header) {
            None
        } else {
            match crate::safetensors_header::parsed_header(vstd::utf8::decode_utf8(header)) {
                Some(tensors) => Some((n, tensors)),
                None => None,
            }
        }
    }
}

/// The tensors of a file, with their bytes: nothing if the file is not a valid
/// header followed by exactly the data that it declares.
pub open spec fn file_tensors(bytes: Seq<u8>) -> Option<
    Map<Seq<char>, (Seq<char>, Seq<usize>, Seq<u8>)>,
> {
    match file_header(bytes) {
        None => None,
        Some((n, tensors)) => if crate::safetensors_header::data_end(
            tensors,
            (bytes.len() - 8 - n) as nat,
        ) {
            Some(
                tensors.map_values(
                    |t: crate::safetensors_header::InfoView|
                        (
                            t.0,
                            t.1,
                            bytes.subrange(8 + n as int + t.2.0, 8 + n as int + t.2.1),
                        ),
                ),
            )
        } else {
            None
        },
    }
}

/// The declared data fits behind the header in the address space.
pub open spec fn section_fits(bytes: Seq<u8>) -> bool {
    file_header(bytes) matches Some((n, tensors)) ==> forall|e: nat|
        #[trigger] crate::safetensors_header::data_end(tensors, e) ==> e + 8 + n <= usize::MAX
}

/// `safetensors::SafeTensors::deserialize`: it accepts a file that is a valid
/// header followed by exactly the data that the header declares. The sum of the
/// two lengths is computed without a check, so it has to fit. Of the error text
/// nothing is said: for some headers it names one of several tensors at random.
#[verifier::external_body]
fn deserialize(bytes: &[u8]) -> (r: Result<safetensors::SafeTensors<'_>, String>)
    requires
        section_fits(bytes@),
    ensures
        r is Ok <==> file_tensors(bytes@) is Some,
        r matches Ok(f) ==> contents(f) == file_tensors(bytes@).unwrap(),
{
    match safetensors::SafeTensors::deserialize(bytes) {
        Ok(f) => Ok(f),
        Err(e) => Err(e.to_string()),
    }
}

/// One tensor of a file: element type by name, shape, bytes.
#[derive(Debug, Clone, PartialEq, Eq)]
pub struct RawTensor {
    pub dtype: String,
    pub shape: Vec<usize>,
    pub data: Vec<u8>,
}

/// `safetensors::SafeTensors::tensor`: the tensor of a name, its bytes copied
/// out, or the error that says that there is none.
#[verifier::external_body]
fn tensor_of(f: &safetensors::SafeTensors<'_>, name: &str) -> (r: Result<RawTensor, String>)
    ensures
        r is Ok <==> contents(*f).dom().contains(name@),
        r matches Ok(t) ==> (t.dtype@, t.shape@, t.data@) == contents(*f)[name@],
        r matches Err(e) ==> e@ == "tensor `"@ + name@ + "` not found"@,
{
    match f.tensor(name) {
        Ok(t) => Ok(RawTensor {
            dtype: t.dtype().to_string(),
            shape: t.shape().to_vec(),
            data: t.data().to_vec(),
        }),
        Err(e) => Err(e.to_string()),
    }
}

/// The error of a name that the file does not hold.
pub open spec fn missing_tensor(path: Seq<char>, name: Seq<char>) -> crate::error::ErrorView {
    crate::error::ErrorView::InvalidModel {
        path: Some(path),
        field: Some(name),
        message: "required tensor `"@ + name + "` not found in safetensors file: "@ + ("tensor `"@
            + name + "` not found"@),
    }
}

/// What loading a tensor with the given element type, shape and bytes gives.
pub open spec fn raw_outcome<T, A: Arith<T>>(
    ar: &A,
    path: Seq<char>,
    name: Seq<char>,
    raw: (Seq<char>, Seq<usize>, Seq<u8>),
    r: Result<LoadedTensor<T>, crate::error::ErrorView>,
) -> bool {
    match crate::safetensors_header::supported(raw.0) {
        None => r == Err::<LoadedTensor<T>, _>(
            crate::safetensors_header::dtype_error(raw.0, name),
        ),
        Some(dtype) => if raw.2.len() % dtype.width() != 0 {
            r == Err::<LoadedTensor<T>, _>(
                crate::values::payload_error(
                    "safetensors"@,
                    path,
                    name,
                    raw.2.len(),
                    dtype.width(),
                ),
            )
        } else {
            r matches Ok(l) && l.name@ == name && l.shape@ == raw.1 && l.dtype == dtype
                && crate::values::dense_values(ar, dtype, raw.2, l.values@)
        },
    }
}

/// Decodes one tensor that was found in a file.
pub fn load_raw_tensor<T: Copy, A: Arith<T>>(
    ar: &A,
    path: &str,
    tensor_name: &str,
    raw: RawTensor,
) -> (r: Result<LoadedTensor<T>, OcelotlError>)
    ensures
        raw_outcome(
            ar,
            path@,
            tensor_name@,
            (raw.dtype@, raw.shape@, raw.data@),
            crate::error::outcome(r),
        ),
{
    let dtype: SupportedDtype = match map_dtype(raw.dtype.as_str(), tensor_name) {
        Ok(d) => d,
        Err(e) => return Err(e),
    };
    match decode_dense(ar, "safetensors", dtype, raw.data.as_slice(), path, tensor_name) {
        Ok(values) => Ok(
            LoadedTensor {
                name: String::from_str(tensor_name),
                shape: raw.shape,
                dtype,
                values,
            },
        ),
        Err(e) => Err(e),
    }
}

/// What loading a tensor from a file's bytes gives.
pub open spec fn load_outcome<T, A: Arith<T>>(
    ar: &A,
    path: Seq<char>,
    bytes: Seq<u8>,
    name: Seq<char>,
    r: Result<LoadedTensor<T>, crate::error::ErrorView>,
) -> bool {
    match file_tensors(bytes) {
        None => crate::safetensors_header::is_parse_error(
            path,
            "failed to parse safetensors file: "@,
            r,
        ),
        Some(tensors) => if !tensors.dom().contains(name) {
            r == Err::<LoadedTensor<T>, _>(missing_tensor(path, name))
        } else {
            raw_outcome(ar, path, name, tensors[name], r)
        },
    }
}

fn parse_failure(path: &str, text: &str) -> (e: OcelotlError)
    ensures
        e@ == crate::safetensors_header::header_error(
            path@,
            "failed to parse safetensors file: "@ + text@,
        ),
{
    OcelotlError::InvalidModel(
        InvalidModelError {
            path: Some(String::from_str(path)),
            field: None,
            message: Text::new("failed to parse safetensors file: ").s(text).done(),
        },
    )
}

/// Loads one tensor of a file that is here as a whole.
pub fn load_safetensors_tensor_f32<T: Copy, A: Arith<T>>(
    ar: &A,
    path: &str,
    bytes: &[u8],
    tensor_name: &str,
) -> (r: Result<LoadedTensor<T>, OcelotlError>)
    ensures
        load_outcome(ar, path@, bytes@, tensor_name@, crate::error::outcome(r)),
{
    if !tensor_section_fits(bytes) {
        return Err(parse_failure(path, "incomplete metadata, file not fully covered"));
    }
    let file: safetensors::SafeTensors<'_> = match deserialize(bytes) {
        Ok(f) => f,
        Err(t) => return Err(parse_failure(path, t.as_str())),
    };
    let raw: RawTensor = match tensor_of(&file, tensor_name) {
        Ok(t) => t,
        Err(t) => {
            return Err(
                OcelotlError::InvalidModel(
                    InvalidModelError {
                        path: Some(String::from_str(path)),
                        field: Some(String::from_str(tensor_name)),
                        message: Text::new("required tensor `").s(tensor_name).s(
                            "` not found in safetensors file: ",
                        ).s(t.as_str()).done(),
                    },
                ),
            );
        },
    };
    load_raw_tensor(ar, path, tensor_name, raw)
}

} // verus!
