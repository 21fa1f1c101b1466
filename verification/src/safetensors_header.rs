use vstd::prelude::*;

use crate::bytes::{read_le, string_from_utf8};
use crate::error::{InvalidModelError, OcelotlError, UnsupportedError};
use crate::gguf_values::copy_shape;
use crate::text::{same_text, Text};
use crate::values::SupportedDtype;

verus! {

/// The longest header that is accepted.
pub const SAFETENSORS_MAX_HEADER_SIZE: u64 = 100_000_000;

/// One tensor of a header: element type, shape, byte range in the data section.
pub type InfoView = (Seq<char>, Seq<usize>, (usize, usize));

/// The header of the `safetensors` crate, as `serde_json` parses it.
#[verifier::external_type_specification]
#[verifier::external_body]
pub struct ExMetadata(safetensors::tensor::Metadata);

/// The tensors of a parsed header, by name.
pub uninterp spec fn tensors_of(m: safetensors::tensor::Metadata) -> Map<Seq<char>, InfoView>;

/// The tensors that a header text declares, if it is a valid header.
pub uninterp spec fn parsed_header(text: Seq<char>) -> Option<Map<Seq<char>, InfoView>>;

/// The byte range of a tensor fits its shape and element type.
pub open spec fn range_fits(info: InfoView) -> bool {
    &&& info.2.0 <= info.2.1
    &&& info.0 == "F32"@ ==> info.2.1 - info.2.0 == 4 * crate::kv_cache::product(info.1)
    &&& info.0 == "F16"@ || info.0 == "BF16"@ ==> info.2.1 - info.2.0 == 2
        * crate::kv_cache::product(info.1)
}

/// The names of all tensors, in the order of their bytes, which follow each
/// other without a gap from the start of the data section.
pub open spec fn in_order(tensors: Map<Seq<char>, InfoView>, keys: Seq<Seq<char>>) -> bool {
    &&& keys.no_duplicates()
    &&& forall|k: Seq<char>| #[trigger] tensors.dom().contains(k) <==> keys.contains(k)
    &&& keys.len() > 0 ==> tensors[keys[0]].2.0 == 0
    &&& forall|i: int, j: int|
        0 <= i && j == i + 1 && j < keys.len() ==> tensors[#[trigger] keys[i]].2.1
            == tensors[#[trigger] keys[j]].2.0
}

/// The bytes of the tensors follow each other without a gap from the start of
/// the data section.
pub open spec fn gapless(tensors: Map<Seq<char>, InfoView>) -> bool {
    exists|keys: Seq<Seq<char>>| #[trigger] in_order(tensors, keys)
}

/// The end of the last tensor's bytes.
pub open spec fn data_end(tensors: Map<Seq<char>, InfoView>, n: nat) -> bool {
    &&& forall|k: Seq<char>| #[trigger] tensors.dom().contains(k) ==> tensors[k].2.1 <= n
    &&& n == 0 || exists|k: Seq<char>| #[trigger] tensors.dom().contains(k) && tensors[k].2.1 == n
}

/// `serde_json::from_str` into the header type of the `safetensors` crate. Which
/// tensors a text declares depends on the text alone, and a header is only
/// accepted if every tensor's bytes fit its shape, and the bytes of all tensors
/// follow each other without a gap. Of the error text nothing is said: for some
/// headers it names one of several tensors at random.
#[verifier::external_body]
fn parse_metadata(header: &str) -> (r: Result<safetensors::tensor::Metadata, String>)
    ensures
        r is Ok <==> parsed_header(header@) is Some,
        r matches Ok(m) ==> {
            &&& tensors_of(m) == parsed_header(header@).unwrap()
            &&& forall|k: Seq<char>|
                #[trigger] tensors_of(m).dom().contains(k) ==> range_fits(tensors_of(m)[k])
            &&& gapless(tensors_of(m))
        },
{
    match serde_json::from_str::<safetensors::tensor::Metadata>(header) {
        Ok(m) => Ok(m),
        Err(e) => Err(e.to_string()),
    }
}

/// `safetensors::tensor::Metadata::data_len`: where the last tensor ends.
#[verifier::external_body]
fn metadata_data_len(m: &safetensors::tensor::Metadata) -> (n: usize)
    ensures
        data_end(tensors_of(*m), n as nat),
{
    m.data_len()
}

/// `safetensors::tensor::Metadata::offset_keys`: all names, ordered by their
/// bytes. The order of several tensors without any bytes at one place is left open.
#[verifier::external_body]
fn metadata_offset_keys(m: &safetensors::tensor::Metadata) -> (r: Vec<String>)
    requires
        gapless(tensors_of(*m)),
    ensures
        in_order(tensors_of(*m), crate::text::words(r@)),
{
    m.offset_keys()
}

/// One tensor of a header, with its element type by name.
#[derive(Debug, PartialEq, Eq)]
pub struct HeaderTensor {
    pub name: String,
    pub dtype: String,
    pub shape: Vec<usize>,
    pub byte_range: (usize, usize),
}

impl HeaderTensor {
    /// Everything but the name.
    pub open spec fn info(self) -> InfoView {
        (self.dtype@, self.shape@, self.byte_range)
    }
}

/// `safetensors::tensor::Metadata::info`: the tensor of a name, if there is one.
/// The element type is given by the name that it prints.
#[verifier::external_body]
fn metadata_info(m: &safetensors::tensor::Metadata, name: &str) -> (r: Option<HeaderTensor>)
    ensures
        r is Some <==> tensors_of(*m).dom().contains(name@),
        r matches Some(t) ==> t.name@ == name@ && t.info() == tensors_of(*m)[name@],
{
    match m.info(name) {
        Some(info) => Some(HeaderTensor {
            name: name.to_string(),
            dtype: info.dtype.to_string(),
            shape: info.shape.clone(),
            byte_range: info.data_offsets,
        }),
        None => None,
    }
}

/// The tensors of a header, in the order of their bytes.
pub open spec fn lists(tensors: Map<Seq<char>, InfoView>, v: Seq<HeaderTensor>) -> bool {
    &&& in_order(tensors, header_names(v))
    &&& forall|i: int|
        0 <= i < v.len() ==> (#[trigger] v[i]).info() == tensors[v[i].name@] && range_fits(
            v[i].info(),
        )
}

pub open spec fn header_names(v: Seq<HeaderTensor>) -> Seq<Seq<char>> {
    v.map_values(|t: HeaderTensor| t.name@)
}

fn read_tensors(m: &safetensors::tensor::Metadata) -> (v: Vec<HeaderTensor>)
    requires
        gapless(tensors_of(*m)),
        forall|k: Seq<char>|
            #[trigger] tensors_of(*m).dom().contains(k) ==> range_fits(tensors_of(*m)[k]),
    ensures
        lists(tensors_of(*m), v@),
{
    let keys: Vec<String> = metadata_offset_keys(m);
    let ghost names = crate::text::words(keys@);
    let mut v: Vec<HeaderTensor> = Vec::new();
    let mut i: usize = 0;
    while i < keys.len()
        invariant
            names == crate::text::words(keys@),
            in_order(tensors_of(*m), names),
            forall|k: Seq<char>|
                #[trigger] tensors_of(*m).dom().contains(k) ==> range_fits(tensors_of(*m)[k]),
            i <= keys@.len(),
            v@.len() == i,
            forall|k: int|
                0 <= k < i ==> (#[trigger] v@[k]).name@ == names[k] && v@[k].info() == tensors_of(
                    *m,
                )[names[k]] && range_fits(v@[k].info()),
        decreases keys@.len() - i,
    {
        assert(names[i as int] == keys@[i as int]@);
        assert(names.contains(names[i as int]));
        match metadata_info(m, keys[i].as_str()) {
            Some(t) => {
                v.push(t);
            },
            None => {
                assert(false);
            },
        }
        i = i + 1;
    }
    proof {
        assert(header_names(v@) =~= names);
    }
    v
}

/// One tensor of an artifact. The byte range is relative to the data section,
/// which follows the header.
#[derive(Debug, PartialEq, Eq)]
pub struct TensorEntry {
    pub name: String,
    pub shape: Vec<usize>,
    pub dtype: SupportedDtype,
    pub byte_range: (usize, usize),
}

/// The tensors of an artifact and the length of its data section.
#[derive(Debug, Clone, PartialEq, Eq)]
pub struct SafetensorsManifest {
    pub tensors: Vec<TensorEntry>,
    pub data_len: usize,
}

impl Clone for TensorEntry {
    fn clone(&self) -> (r: Self)
        ensures
            r.name@ == self.name@,
            r.shape@ == self.shape@,
            r.dtype == self.dtype,
            r.byte_range == self.byte_range,
    {
        TensorEntry {
            name: self.name.clone(),
            shape: copy_shape(&self.shape),
            dtype: self.dtype,
            byte_range: (self.byte_range.0, self.byte_range.1),
        }
    }
}

/// The error of a header.
pub open spec fn header_error(path: Seq<char>, message: Seq<char>) -> crate::error::ErrorView {
    crate::error::ErrorView::InvalidModel { path: Some(path), field: None, message }
}

fn invalid_safetensors_header(path: &str, message: String) -> (e: OcelotlError)
    ensures
        e@ == header_error(path@, message@),
{
    OcelotlError::InvalidModel(
        InvalidModelError { path: Some(String::from_str(path)), field: None, message },
    )
}

/// The length of the header, from the first eight bytes of the file.
pub open spec fn header_len(path: Seq<char>, start: Seq<u8>, file_len: u64) -> Result<
    nat,
    crate::error::ErrorView,
> {
    if start.len() < 8 {
        Err(header_error(path, "safetensors header is truncated"@))
    } else {
        let n = crate::bytes::le_value(start.take(8));
        if n > usize::MAX {
            Err(
                header_error(
                    path,
                    "safetensors header length "@ + crate::text::dec(n) + " does not fit in usize"@,
                ),
            )
        } else if n > SAFETENSORS_MAX_HEADER_SIZE {
            Err(
                header_error(
                    path,
                    "safetensors header length "@ + crate::text::dec(n) + " exceeds max "@
                        + crate::text::dec(SAFETENSORS_MAX_HEADER_SIZE as nat),
                ),
            )
        } else if file_len < 8 + n {
            Err(
                header_error(
                    path,
                    "safetensors header is truncated: file is "@ + crate::text::dec(file_len as nat)
                        + " bytes, header ends at "@ + crate::text::dec(8 + n),
                ),
            )
        } else {
            Ok(n)
        }
    }
}

/// The length of the header. `start` is what could be read of the first eight
/// bytes of a file of `file_len` bytes.
pub fn safetensors_header_len(path: &str, start: &[u8], file_len: u64) -> (r: Result<
    usize,
    OcelotlError,
>)
    ensures
        (match crate::error::outcome(r) {
            Ok(n) => Ok(n as nat),
            Err(e) => Err(e),
        }) == header_len(path@, start@, file_len),
{
    if start.len() < 8 {
        return Err(
            invalid_safetensors_header(path, String::from_str("safetensors header is truncated")),
        );
    }
    let n: u64 = read_le(start, 0, 8);
    proof {
        assert(start@.subrange(0, 8) =~= start@.take(8));
    }
    if n > usize::MAX as u64 {
        return Err(
            invalid_safetensors_header(
                path,
                Text::new("safetensors header length ").n64(n).s(" does not fit in usize").done(),
            ),
        );
    }
    if n > SAFETENSORS_MAX_HEADER_SIZE {
        return Err(
            invalid_safetensors_header(
                path,
                Text::new("safetensors header length ").n64(n).s(" exceeds max ").n64(
                    SAFETENSORS_MAX_HEADER_SIZE,
                ).done(),
            ),
        );
    }
    if file_len < 8 + n {
        return Err(
            invalid_safetensors_header(
                path,
                Text::new("safetensors header is truncated: file is ").n64(file_len).s(
                    " bytes, header ends at ",
                ).n64(8 + n).done(),
            ),
        );
    }
    Ok(n as usize)
}

/// The supported element type of a name.
pub open spec fn supported(dtype: Seq<char>) -> Option<SupportedDtype> {
    if dtype == "F32"@ {
        Some(SupportedDtype::F32)
    } else if dtype == "F16"@ {
        Some(SupportedDtype::F16)
    } else if dtype == "BF16"@ {
        Some(SupportedDtype::BF16)
    } else {
        None
    }
}

/// The refusal of an element type.
pub open spec fn dtype_error(dtype: Seq<char>, name: Seq<char>) -> crate::error::ErrorView {
    crate::error::ErrorView::Unsupported {
        feature: "safetensors_dtype"@,
        requested: Some(dtype + " (tensor `"@ + name + "`)"@),
        supported: seq!["F32"@, "F16"@, "BF16"@],
    }
}

/// The element type of a name, or the refusal of it for the given tensor.
pub fn map_dtype(dtype: &str, tensor_name: &str) -> (r: Result<SupportedDtype, OcelotlError>)
    ensures
        crate::error::outcome(r) == (match supported(dtype@) {
            Some(d) => Ok(d),
            None => Err(dtype_error(dtype@, tensor_name@)),
        }),
{
    if same_text(dtype, "F32") {
        Ok(SupportedDtype::F32)
    } else if same_text(dtype, "F16") {
        Ok(SupportedDtype::F16)
    } else if same_text(dtype, "BF16") {
        Ok(SupportedDtype::BF16)
    } else {
        let mut names: Vec<String> = Vec::new();
        names.push(String::from_str("F32"));
        names.push(String::from_str("F16"));
        names.push(String::from_str("BF16"));
        proof {
            assert(crate::text::words(names@) =~= seq!["F32"@, "F16"@, "BF16"@]);
        }
        Err(
            OcelotlError::Unsupported(
                UnsupportedError {
                    feature: String::from_str("safetensors_dtype"),
                    requested: Some(
                        Text::new(dtype).s(" (tensor `").s(tensor_name).s("`)").done(),
                    ),
                    supported: names,
                },
            ),
        )
    }
}

/// The error of a file whose length is not what its header declares, if so.
pub open spec fn length_error(path: Seq<char>, header_end: nat, data_len: nat, file_len: nat) -> Option<
    crate::error::ErrorView,
> {
    if header_end + data_len > u64::MAX {
        Some(
            header_error(
                path,
                "safetensors data length "@ + crate::text::dec(data_len)
                    + " overflows file length"@,
            ),
        )
    } else if header_end + data_len != file_len {
        Some(
            header_error(
                path,
                "safetensors file length mismatch: header declares "@ + crate::text::dec(data_len)
                    + " data bytes, expected total "@ + crate::text::dec(header_end + data_len)
                    + ", got "@ + crate::text::dec(file_len),
            ),
        )
    } else {
        None
    }
}

/// The first tensor at or after `i` whose element type is not supported.
pub open spec fn first_unsupported(v: Seq<HeaderTensor>, i: int) -> Option<int>
    decreases v.len() - i,
{
    if i >= v.len() {
        None
    } else if supported(v[i].dtype@) is None {
        Some(i)
    } else {
        first_unsupported(v, i + 1)
    }
}

/// A manifest entry says of a tensor what the header says.
pub open spec fn entry_of(e: TensorEntry, t: HeaderTensor) -> bool {
    &&& e.name@ == t.name@
    &&& e.shape@ == t.shape@
    &&& Some(e.dtype) == supported(t.dtype@)
    &&& e.byte_range == t.byte_range
}

/// What a parsed header comes to.
pub open spec fn manifest_outcome(
    path: Seq<char>,
    header_end: nat,
    file_len: nat,
    data_len: usize,
    v: Seq<HeaderTensor>,
    r: Result<SafetensorsManifest, crate::error::ErrorView>,
) -> bool {
    match length_error(path, header_end, data_len as nat, file_len) {
        Some(e) => r == Err::<SafetensorsManifest, _>(e),
        None => match first_unsupported(v, 0) {
            Some(i) => r == Err::<SafetensorsManifest, _>(dtype_error(v[i].dtype@, v[i].name@)),
            None => r matches Ok(m) && m.data_len == data_len && m.tensors@.len() == v.len()
                && forall|i: int| 0 <= i < v.len() ==> entry_of(#[trigger] m.tensors@[i], v[i]),
        },
    }
}

/// Checks a parsed header against the length of the file and turns it into a manifest.
pub fn manifest_from_tensors(
    path: &str,
    header_end: u64,
    file_len: u64,
    data_len: usize,
    tensors: &Vec<HeaderTensor>,
) -> (r: Result<SafetensorsManifest, OcelotlError>)
    ensures
        manifest_outcome(
            path@,
            header_end as nat,
            file_len as nat,
            data_len,
            tensors@,
            crate::error::outcome(r),
        ),
{
    match header_end.checked_add(data_len as u64) {
        None => {
            return Err(
                invalid_safetensors_header(
                    path,
                    Text::new("safetensors data length ").n(data_len).s(
                        " overflows file length",
                    ).done(),
                ),
            );
        },
        Some(expected) => if expected != file_len {
            return Err(
                invalid_safetensors_header(
                    path,
                    Text::new("safetensors file length mismatch: header declares ").n(data_len).s(
                        " data bytes, expected total ",
                    ).n64(expected).s(", got ").n64(file_len).done(),
                ),
            );
        },
    }
    let mut v: Vec<TensorEntry> = Vec::new();
    let mut i: usize = 0;
    while i < tensors.len()
        invariant
            i <= tensors@.len(),
            v@.len() == i,
            length_error(path@, header_end as nat, data_len as nat, file_len as nat) is None,
            first_unsupported(tensors@, 0) == first_unsupported(tensors@, i as int),
            forall|k: int| 0 <= k < i ==> entry_of(#[trigger] v@[k], tensors@[k]),
        decreases tensors@.len() - i,
    {
        let t: &HeaderTensor = &tensors[i];
        match map_dtype(t.dtype.as_str(), t.name.as_str()) {
            Ok(dtype) => {
                v.push(
                    TensorEntry {
                        name: t.name.clone(),
                        shape: copy_shape(&t.shape),
                        dtype,
                        byte_range: t.byte_range,
                    },
                );
            },
            Err(e) => return Err(e),
        }
        i = i + 1;
    }
    Ok(SafetensorsManifest { tensors: v, data_len })
}

/// `r` is the refusal of a header that could not be parsed; what follows the
/// prefix of its message is the parser's.
pub open spec fn is_parse_error<T>(
    path: Seq<char>,
    prefix: Seq<char>,
    r: Result<T, crate::error::ErrorView>,
) -> bool {
    exists|text: Seq<char>|
        r == Err::<T, _>(#[trigger] header_error(path, prefix + text))
}

/// What the header of an artifact comes to.
pub open spec fn header_outcome(
    path: Seq<char>,
    header: Seq<u8>,
    file_len: nat,
    r: Result<SafetensorsManifest, crate::error::ErrorView>,
) -> bool {
    let prefix = "failed to parse safetensors header: "@;
    if !vstd::utf8::valid_utf8(header) {
        r == Err::<SafetensorsManifest, _>(
            header_error(path, prefix + crate::bytes::utf8_error_text(header)),
        )
    } else {
        match parsed_header(vstd::utf8::decode_utf8(header)) {
            None => is_parse_error(path, prefix, r),
            Some(tensors) => exists|v: Seq<HeaderTensor>, n: usize|
                #![trigger lists(tensors, v), data_end(tensors, n as nat)]
                lists(tensors, v) && data_end(tensors, n as nat) && manifest_outcome(
                    path,
                    8 + header.len(),
                    file_len,
                    n,
                    v,
                    r,
                ),
        }
    }
}

/// Turns the bytes of a header into a manifest.
pub fn inspect_safetensors_header(path: &str, header: &[u8], file_len: u64) -> (r: Result<
    SafetensorsManifest,
    OcelotlError,
>)
    requires
        header@.len() <= SAFETENSORS_MAX_HEADER_SIZE,
    ensures
        header_outcome(path@, header@, file_len as nat, crate::error::outcome(r)),
{
    let text: String = match string_from_utf8(header) {
        Ok(s) => s,
        Err(t) => {
            return Err(
                invalid_safetensors_header(
                    path,
                    Text::new("failed to parse safetensors header: ").s(t.as_str()).done(),
                ),
            );
        },
    };
    let m: safetensors::tensor::Metadata = match parse_metadata(text.as_str()) {
        Ok(m) => m,
        Err(t) => {
            let e: OcelotlError = invalid_safetensors_header(
                path,
                Text::new("failed to parse safetensors header: ").s(t.as_str()).done(),
            );
            proof {
                assert(e@ == header_error(
                    path@,
                    "failed to parse safetensors header: "@ + t@,
                ));
            }
            return Err(e);
        },
    };
    let data_len: usize = metadata_data_len(&m);
    let tensors: Vec<HeaderTensor> = read_tensors(&m);
    let header_end: u64 = 8 + header.len() as u64;
    let r: Result<SafetensorsManifest, OcelotlError> = manifest_from_tensors(
        path,
        header_end,
        file_len,
        data_len,
        &tensors,
    );
    proof {
        assert(lists(tensors_of(m), tensors@));
        assert(data_end(tensors_of(m), data_len as nat));
    }
    r
}

/// What an artifact comes to: the error of its first eight bytes, or what its
/// header comes to.
pub open spec fn artifact_outcome(
    path: Seq<char>,
    bytes: Seq<u8>,
    r: Result<SafetensorsManifest, crate::error::ErrorView>,
) -> bool {
    match header_len(path, bytes, bytes.len() as u64) {
        Err(e) => r == Err::<SafetensorsManifest, _>(e),
        Ok(n) => header_outcome(path, bytes.subrange(8, 8 + n as int), bytes.len(), r),
    }
}

/// Inspects an artifact that is here as a whole.
pub fn inspect_safetensors(path: &str, bytes: &[u8]) -> (r: Result<
    SafetensorsManifest,
    OcelotlError,
>)
    ensures
        artifact_outcome(path@, bytes@, crate::error::outcome(r)),
{
    let total: usize = bytes.len();
    let n: usize = match safetensors_header_len(path, bytes, total as u64) {
        Ok(n) => n,
        Err(e) => return Err(e),
    };
    let header: &[u8] = vstd::slice::slice_subrange(bytes, 8, 8 + n);
    inspect_safetensors_header(path, header, total as u64)
}

/// Whether a manifest holds a tensor of that name.
pub open spec fn has_tensor(m: SafetensorsManifest, name: Seq<char>) -> bool {
    exists|i: int| 0 <= i < m.tensors@.len() && (#[trigger] m.tensors@[i]).name@ == name
}

/// The error of a required tensor that is not there.
pub open spec fn required_error(path: Option<Seq<char>>, name: Seq<char>) -> crate::error::ErrorView {
    crate::error::ErrorView::InvalidModel {
        path,
        field: Some(name),
        message: "required tensor `"@ + name + "` not found in safetensors header"@,
    }
}

/// The first required name that is missing, from `i` on.
pub open spec fn first_missing(m: SafetensorsManifest, required: Seq<Seq<char>>, i: int) -> Option<int>
    decreases required.len() - i,
{
    if i >= required.len() {
        None
    } else if !has_tensor(m, required[i]) {
        Some(i)
    } else {
        first_missing(m, required, i + 1)
    }
}

fn contains_tensor(m: &SafetensorsManifest, name: &str) -> (r: bool)
    ensures
        r == has_tensor(*m, name@),
{
    let mut i: usize = 0;
    while i < m.tensors.len()
        invariant
            i <= m.tensors@.len(),
            forall|k: int| 0 <= k < i ==> (#[trigger] m.tensors@[k]).name@ != name@,
        decreases m.tensors@.len() - i,
    {
        if same_text(m.tensors[i].name.as_str(), name) {
            return true;
        }
        i = i + 1;
    }
    false
}

/// The characters of each name of a list.
pub open spec fn name_views(required: Seq<&str>) -> Seq<Seq<char>> {
    required.map_values(|s: &str| s@)
}

/// Checks that every required tensor is in the manifest; the error names the
/// first one that is not.
pub fn require_tensors(
    manifest: &SafetensorsManifest,
    required: &[&str],
    path: Option<&str>,
) -> (r: Result<(), OcelotlError>)
    ensures
        crate::error::outcome(r) == (match first_missing(*manifest, name_views(required@), 0) {
            None => Ok(()),
            Some(i) => Err(
                required_error(
                    (match path {
                        Some(p) => Some(p@),
                        None => None,
                    }),
                    required@[i]@,
                ),
            ),
        }),
{
    let mut i: usize = 0;
    while i < required.len()
        invariant
            i <= required@.len(),
            first_missing(*manifest, name_views(required@), 0) == first_missing(
                *manifest,
                name_views(required@),
                i as int,
            ),
        decreases required@.len() - i,
    {
        let name: &str = required[i];
        assert(name_views(required@)[i as int] == name@);
        if !contains_tensor(manifest, name) {
            let p: Option<String> = match path {
                Some(p) => Some(String::from_str(p)),
                None => None,
            };
            return Err(
                OcelotlError::InvalidModel(
                    InvalidModelError {
                        path: p,
                        field: Some(String::from_str(name)),
                        message: Text::new("required tensor `").s(name).s(
                            "` not found in safetensors header",
                        ).done(),
                    },
                ),
            );
        }
        i = i + 1;
    }
    Ok(())
}

/// The entries of a manifest cover the data section from its start to its end
/// without gap or overlap, and the bytes of each are those of its shape.
pub open spec fn covers(m: SafetensorsManifest) -> bool {
    let t = m.tensors@;
    &&& forall|i: int|
        0 <= i < t.len() ==> (#[trigger] t[i]).byte_range.1 - t[i].byte_range.0
            == t[i].dtype.width() * crate::kv_cache::product(t[i].shape@)
    &&& t.len() > 0 ==> t[0].byte_range.0 == 0 && t.last().byte_range.1 == m.data_len
    &&& t.len() == 0 ==> m.data_len == 0
    &&& forall|i: int, j: int|
        0 <= i && j == i + 1 && j < t.len() ==> (#[trigger] t[i]).byte_range.1 == (
        #[trigger] t[j]).byte_range.0
}

/// An accepted artifact is exactly its header and its data section, and its
/// manifest covers the data section.
pub proof fn accepted_artifacts_are_covered(path: Seq<char>, bytes: Seq<u8>, m: SafetensorsManifest)
    requires
        bytes.len() <= usize::MAX,
        artifact_outcome(path, bytes, Ok(m)),
    ensures
        covers(m),
        bytes.len() == 8 + crate::bytes::le_value(bytes.take(8)) + m.data_len,
{
    let r = Ok::<SafetensorsManifest, crate::error::ErrorView>(m);
    let n = header_len(path, bytes, bytes.len() as u64)->Ok_0;
    let header = bytes.subrange(8, 8 + n as int);
    let prefix = "failed to parse safetensors header: "@;
    assert(!is_parse_error(path, prefix, r));
    let tensors = parsed_header(vstd::utf8::decode_utf8(header)).unwrap();
    let (v, len) = choose|v: Seq<HeaderTensor>, n: usize|
        #![trigger lists(tensors, v), data_end(tensors, n as nat)]
        lists(tensors, v) && data_end(tensors, n as nat) && manifest_outcome(
            path,
            8 + header.len(),
            bytes.len(),
            n,
            v,
            r,
        );
    assert(first_unsupported(v, 0) is None);
    let t = m.tensors@;
    let names = header_names(v);
    assert forall|i: int| 0 <= i < v.len() implies #[trigger] t[i].byte_range
        == tensors[names[i]].2 by {
        assert(entry_of(t[i], v[i]));
        assert(v[i].info() == tensors[v[i].name@]);
    }
    assert forall|i: int| 0 <= i < t.len() implies (#[trigger] t[i]).byte_range.1
        - t[i].byte_range.0 == t[i].dtype.width() * crate::kv_cache::product(t[i].shape@) by {
        assert(entry_of(t[i], v[i]));
        assert(range_fits(v[i].info()));
    }
    assert forall|i: int, j: int| 0 <= i && j == i + 1 && j < t.len() implies (
    #[trigger] t[i]).byte_range.1 == (#[trigger] t[j]).byte_range.0 by {
        assert(tensors[names[i]].2.1 == tensors[names[j]].2.0);
    }
    if t.len() > 0 {
        assert(tensors[names[0]].2.0 == 0);
        assert(names.contains(names[names.len() - 1]));
        assert(tensors.dom().contains(names[names.len() - 1]));
        assert(t.last().byte_range.1 <= len);
        if len > 0 {
            let k = choose|k: Seq<char>|
                #[trigger] tensors.dom().contains(k) && tensors[k].2.1 == len;
            assert(names.contains(k));
            let i = choose|i: int| 0 <= i < names.len() && names[i] == k;
            ends_grow(t, i, t.len() - 1);
        }
    } else if len > 0 {
        let k = choose|k: Seq<char>| #[trigger] tensors.dom().contains(k) && tensors[k].2.1 == len;
        assert(names.contains(k));
    }
}

proof fn ends_grow(t: Seq<TensorEntry>, i: int, j: int)
    requires
        0 <= i <= j < t.len(),
        forall|i: int|
            0 <= i < t.len() ==> (#[trigger] t[i]).byte_range.0 <= t[i].byte_range.1,
        forall|i: int, j: int|
            0 <= i && j == i + 1 && j < t.len() ==> (#[trigger] t[i]).byte_range.1 == (
            #[trigger] t[j]).byte_range.0,
    ensures
        t[i].byte_range.1 <= t[j].byte_range.1,
    decreases j - i,
{
    if i < j {
        ends_grow(t, i, j - 1);
        assert(t[j - 1].byte_range.1 == t[j].byte_range.0);
    }
}

/// Requiring names succeeds exactly if the manifest has a tensor for each.
pub proof fn requirement_met_iff(m: SafetensorsManifest, required: Seq<Seq<char>>, i: int)
    requires
        0 <= i <= required.len(),
    ensures
        first_missing(m, required, i) is None <==> forall|k: int|
            i <= k < required.len() ==> has_tensor(m, #[trigger] required[k]),
        first_missing(m, required, i) matches Some(j) ==> i <= j < required.len() && !has_tensor(
            m,
            required[j],
        ) && forall|k: int| i <= k < j ==> has_tensor(m, #[trigger] required[k]),
    decreases required.len() - i,
{
    if i < required.len() && has_tensor(m, required[i]) {
        requirement_met_iff(m, required, i + 1);
    }
}

/// Two ends of the same data section are the same.
pub proof fn data_end_is_unique(tensors: Map<Seq<char>, InfoView>, a: nat, b: nat)
    requires
        data_end(tensors, a),
        data_end(tensors, b),
    ensures
        a == b,
{
}

/// Whether the data that a file's header declares fits behind the header in
/// the address space. A file without a valid header declares nothing.
pub fn tensor_section_fits(bytes: &[u8]) -> (r: bool)
    ensures
        r ==> crate::safetensors_values::section_fits(bytes@),
        !r ==> crate::safetensors_values::file_tensors(bytes@) is None,
{
    let total: usize = bytes.len();
    let n: usize = match safetensors_header_len("", bytes, total as u64) {
        Ok(n) => n,
        Err(_) => return true,
    };
    let header: &[u8] = vstd::slice::slice_subrange(bytes, 8, 8 + n);
    let text: String = match string_from_utf8(header) {
        Ok(s) => s,
        Err(_) => return true,
    };
    let m: safetensors::tensor::Metadata = match parse_metadata(text.as_str()) {
        Ok(m) => m,
        Err(_) => return true,
    };
    let end: usize = metadata_data_len(&m);
    proof {
        assert forall|e: nat| #[trigger] data_end(tensors_of(m), e) implies e == end by {
            data_end_is_unique(tensors_of(m), e, end as nat);
        }
    }
    end <= usize::MAX - 8 - n
}

} // verus!
