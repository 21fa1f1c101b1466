use vstd::prelude::*;

use crate::bytes::{read_le, string_from_utf8};
use crate::error::{InvalidModelError, OcelotlError, UnsupportedError};
use crate::text::{same_text, FloatText, Text};
use vstd::std_specs::cmp::PartialEqSpecImpl;

verus! {

/// The format version that is understood.
pub const SUPPORTED_GGUF_VERSION: u32 = 3;

/// The alignment of tensor data where the metadata does not give one.
pub const DEFAULT_ALIGNMENT: u64 = 32;

pub const MAX_METADATA_ENTRIES: u64 = 200_000;

pub const MAX_TENSORS: u64 = 2_000_000;

pub const MAX_METADATA_STRING_BYTES: u64 = 16_777_216;

pub const MAX_KEY_BYTES: u64 = 65_535;

pub const MAX_TENSOR_NAME_BYTES: u64 = 65_535;

pub const MAX_ARRAY_ELEMENTS: u64 = 2_000_000;

pub const MAX_ARRAY_DEPTH: usize = 4;

pub const MAX_TENSOR_DIMS: u32 = 8;

/// The type tag of a metadata value.
#[derive(Debug, Clone, Copy, PartialEq, Eq, Structural)]
pub enum GgufMetadataType {
    U8,
    I8,
    U16,
    I16,
    U32,
    I32,
    F32,
    Bool,
    String,
    Array,
    U64,
    I64,
    F64,
}

/// A metadata value. Floating-point values are kept as their IEEE 754 bit
/// patterns; of an array only the element type and the length are kept.
#[derive(Debug, Clone)]
pub enum GgufMetadataValue {
    U8(u8),
    I8(i8),
    U16(u16),
    I16(i16),
    U32(u32),
    I32(i32),
    F32(u32),
    Bool(bool),
    String(String),
    Array { element_type: GgufMetadataType, len: u64 },
    U64(u64),
    I64(i64),
    F64(u64),
}

/// What a metadata value says.
pub enum ValueView {
    U8(u8),
    I8(i8),
    U16(u16),
    I16(i16),
    U32(u32),
    I32(i32),
    F32(u32),
    Bool(bool),
    String(Seq<char>),
    Array { element_type: GgufMetadataType, len: u64 },
    U64(u64),
    I64(i64),
    F64(u64),
}

impl View for GgufMetadataValue {
    type V = ValueView;

    open spec fn view(&self) -> ValueView {
        match *self {
            GgufMetadataValue::U8(v) => ValueView::U8(v),
            GgufMetadataValue::I8(v) => ValueView::I8(v),
            GgufMetadataValue::U16(v) => ValueView::U16(v),
            GgufMetadataValue::I16(v) => ValueView::I16(v),
            GgufMetadataValue::U32(v) => ValueView::U32(v),
            GgufMetadataValue::I32(v) => ValueView::I32(v),
            GgufMetadataValue::F32(v) => ValueView::F32(v),
            GgufMetadataValue::Bool(v) => ValueView::Bool(v),
            GgufMetadataValue::String(v) => ValueView::String(v@),
            GgufMetadataValue::Array { element_type, len } => ValueView::Array {
                element_type,
                len,
            },
            GgufMetadataValue::U64(v) => ValueView::U64(v),
            GgufMetadataValue::I64(v) => ValueView::I64(v),
            GgufMetadataValue::F64(v) => ValueView::F64(v),
        }
    }
}

/// Whether two single-precision bit patterns are equal numbers: not-a-number
/// equals nothing, and the two zeros are equal.
pub open spec fn same_single(a: u32, b: u32) -> bool {
    &&& a % 0x8000_0000 <= 0x7f80_0000
    &&& b % 0x8000_0000 <= 0x7f80_0000
    &&& a == b || (a % 0x8000_0000 == 0 && b % 0x8000_0000 == 0)
}

/// Whether two double-precision bit patterns are equal numbers.
pub open spec fn same_double(a: u64, b: u64) -> bool {
    &&& a % 0x8000_0000_0000_0000 <= 0x7ff0_0000_0000_0000
    &&& b % 0x8000_0000_0000_0000 <= 0x7ff0_0000_0000_0000
    &&& a == b || (a % 0x8000_0000_0000_0000 == 0 && b % 0x8000_0000_0000_0000 == 0)
}

/// Whether two values are equal: of one type, and equal as what they are.
pub open spec fn same_value(a: ValueView, b: ValueView) -> bool {
    match (a, b) {
        (ValueView::F32(x), ValueView::F32(y)) => same_single(x, y),
        (ValueView::F64(x), ValueView::F64(y)) => same_double(x, y),
        _ => a == b,
    }
}

impl PartialEq for GgufMetadataValue {
    fn eq(&self, other: &Self) -> (r: bool) {
        match (self, other) {
            (GgufMetadataValue::U8(x), GgufMetadataValue::U8(y)) => *x == *y,
            (GgufMetadataValue::I8(x), GgufMetadataValue::I8(y)) => *x == *y,
            (GgufMetadataValue::U16(x), GgufMetadataValue::U16(y)) => *x == *y,
            (GgufMetadataValue::I16(x), GgufMetadataValue::I16(y)) => *x == *y,
            (GgufMetadataValue::U32(x), GgufMetadataValue::U32(y)) => *x == *y,
            (GgufMetadataValue::I32(x), GgufMetadataValue::I32(y)) => *x == *y,
            (GgufMetadataValue::F32(x), GgufMetadataValue::F32(y)) => {
                *x % 0x8000_0000 <= 0x7f80_0000 && *y % 0x8000_0000 <= 0x7f80_0000 && (*x == *y || (
                *x % 0x8000_0000 == 0 && *y % 0x8000_0000 == 0))
            },
            (GgufMetadataValue::Bool(x), GgufMetadataValue::Bool(y)) => *x == *y,
            (GgufMetadataValue::String(x), GgufMetadataValue::String(y)) => same_text(
                x.as_str(),
                y.as_str(),
            ),
            (
                GgufMetadataValue::Array { element_type: s, len: m },
                GgufMetadataValue::Array { element_type: t, len: n },
            ) => *s == *t && *m == *n,
            (GgufMetadataValue::U64(x), GgufMetadataValue::U64(y)) => *x == *y,
            (GgufMetadataValue::I64(x), GgufMetadataValue::I64(y)) => *x == *y,
            (GgufMetadataValue::F64(x), GgufMetadataValue::F64(y)) => {
                *x % 0x8000_0000_0000_0000 <= 0x7ff0_0000_0000_0000 && *y % 0x8000_0000_0000_0000
                    <= 0x7ff0_0000_0000_0000 && (*x == *y || (*x % 0x8000_0000_0000_0000 == 0 && *y
                    % 0x8000_0000_0000_0000 == 0))
            },
            _ => false,
        }
    }
}

impl PartialEqSpecImpl for GgufMetadataValue {
    open spec fn obeys_eq_spec() -> bool {
        true
    }

    open spec fn eq_spec(&self, other: &Self) -> bool {
        same_value(self@, other@)
    }
}

/// One key of the metadata, with its value.
#[derive(Debug, Clone, PartialEq)]
pub struct GgufMetadataEntry {
    pub key: String,
    pub value: GgufMetadataValue,
}

impl View for GgufMetadataEntry {
    type V = (Seq<char>, ValueView);

    open spec fn view(&self) -> (Seq<char>, ValueView) {
        (self.key@, self.value@)
    }
}

/// The element encoding of a tensor.
#[derive(Debug, Clone, Copy, PartialEq, Eq, Structural)]
#[allow(non_camel_case_types)]
pub enum GgmlTensorType {
    F32,
    F16,
    Q4_0,
    Q4_1,
    Q5_0,
    Q5_1,
    Q8_0,
    Q8_1,
    Q2K,
    Q3K,
    Q4K,
    Q5K,
    Q6K,
    Q8K,
    Iq2Xxs,
    Iq2Xs,
    Iq3Xxs,
    Iq1S,
    Iq4Nl,
    Iq3S,
    Iq2S,
    Iq4Xs,
    I8,
    I16,
    I32,
    I64,
    F64,
    Iq1M,
    BF16,
    Tq1_0,
    Tq2_0,
    MXFP4,
    Unknown(u32),
}

impl GgmlTensorType {
    /// The encoding of a type tag.
    pub open spec fn of_raw(raw: u32) -> GgmlTensorType {
        match raw {
            0u32 => GgmlTensorType::F32,
            1u32 => GgmlTensorType::F16,
            2u32 => GgmlTensorType::Q4_0,
            3u32 => GgmlTensorType::Q4_1,
            6u32 => GgmlTensorType::Q5_0,
            7u32 => GgmlTensorType::Q5_1,
            8u32 => GgmlTensorType::Q8_0,
            9u32 => GgmlTensorType::Q8_1,
            10u32 => GgmlTensorType::Q2K,
            11u32 => GgmlTensorType::Q3K,
            12u32 => GgmlTensorType::Q4K,
            13u32 => GgmlTensorType::Q5K,
            14u32 => GgmlTensorType::Q6K,
            15u32 => GgmlTensorType::Q8K,
            16u32 => GgmlTensorType::Iq2Xxs,
            17u32 => GgmlTensorType::Iq2Xs,
            18u32 => GgmlTensorType::Iq3Xxs,
            19u32 => GgmlTensorType::Iq1S,
            20u32 => GgmlTensorType::Iq4Nl,
            21u32 => GgmlTensorType::Iq3S,
            22u32 => GgmlTensorType::Iq2S,
            23u32 => GgmlTensorType::Iq4Xs,
            24u32 => GgmlTensorType::I8,
            25u32 => GgmlTensorType::I16,
            26u32 => GgmlTensorType::I32,
            27u32 => GgmlTensorType::I64,
            28u32 => GgmlTensorType::F64,
            29u32 => GgmlTensorType::Iq1M,
            30u32 => GgmlTensorType::BF16,
            34u32 => GgmlTensorType::Tq1_0,
            35u32 => GgmlTensorType::Tq2_0,
            39u32 => GgmlTensorType::MXFP4,
            other => GgmlTensorType::Unknown(other),
        }
    }

    /// The encoding of a type tag; a tag that is not known is kept as it is.
    pub fn from_raw(raw: u32) -> (r: Self)
        ensures
            r == Self::of_raw(raw),
    {
        match raw {
            0 => GgmlTensorType::F32,
            1 => GgmlTensorType::F16,
            2 => GgmlTensorType::Q4_0,
            3 => GgmlTensorType::Q4_1,
            6 => GgmlTensorType::Q5_0,
            7 => GgmlTensorType::Q5_1,
            8 => GgmlTensorType::Q8_0,
            9 => GgmlTensorType::Q8_1,
            10 => GgmlTensorType::Q2K,
            11 => GgmlTensorType::Q3K,
            12 => GgmlTensorType::Q4K,
            13 => GgmlTensorType::Q5K,
            14 => GgmlTensorType::Q6K,
            15 => GgmlTensorType::Q8K,
            16 => GgmlTensorType::Iq2Xxs,
            17 => GgmlTensorType::Iq2Xs,
            18 => GgmlTensorType::Iq3Xxs,
            19 => GgmlTensorType::Iq1S,
            20 => GgmlTensorType::Iq4Nl,
            21 => GgmlTensorType::Iq3S,
            22 => GgmlTensorType::Iq2S,
            23 => GgmlTensorType::Iq4Xs,
            24 => GgmlTensorType::I8,
            25 => GgmlTensorType::I16,
            26 => GgmlTensorType::I32,
            27 => GgmlTensorType::I64,
            28 => GgmlTensorType::F64,
            29 => GgmlTensorType::Iq1M,
            30 => GgmlTensorType::BF16,
            34 => GgmlTensorType::Tq1_0,
            35 => GgmlTensorType::Tq2_0,
            39 => GgmlTensorType::MXFP4,
            other => GgmlTensorType::Unknown(other),
        }
    }

    /// The bytes of one element, for the encodings that have a fixed size per element.
    pub open spec fn element_size(self) -> Option<u64> {
        match self {
            GgmlTensorType::F32 | GgmlTensorType::I32 => Some(4),
            GgmlTensorType::F16 | GgmlTensorType::BF16 | GgmlTensorType::I16 => Some(2),
            GgmlTensorType::I8 => Some(1),
            GgmlTensorType::I64 | GgmlTensorType::F64 => Some(8),
            _ => None,
        }
    }

    /// The bytes of one element; none for the block encodings.
    pub fn fixed_element_size(self) -> (r: Option<u64>)
        ensures
            r == self.element_size(),
    {
        match self {
            GgmlTensorType::F32 | GgmlTensorType::I32 => Some(4),
            GgmlTensorType::F16 | GgmlTensorType::BF16 | GgmlTensorType::I16 => Some(2),
            GgmlTensorType::I8 => Some(1),
            GgmlTensorType::I64 | GgmlTensorType::F64 => Some(8),
            _ => None,
        }
    }
}

/// The description of one tensor.
#[derive(Debug, Clone, PartialEq, Eq)]
pub struct GgufTensorEntry {
    pub name: String,
    pub shape: Vec<usize>,
    pub tensor_type: GgmlTensorType,
    /// Offset relative to the tensor-data section.
    pub offset: u64,
    /// Absolute byte offset in the file.
    pub file_offset: u64,
    /// Byte length, where the encoding has a fixed size per element.
    pub byte_len: Option<u64>,
}

/// What the description of a tensor says.
pub struct TensorView {
    pub name: Seq<char>,
    pub shape: Seq<usize>,
    pub tensor_type: GgmlTensorType,
    pub offset: u64,
    pub file_offset: u64,
    pub byte_len: Option<u64>,
}

impl View for GgufTensorEntry {
    type V = TensorView;

    open spec fn view(&self) -> TensorView {
        TensorView {
            name: self.name@,
            shape: self.shape@,
            tensor_type: self.tensor_type,
            offset: self.offset,
            file_offset: self.file_offset,
            byte_len: self.byte_len,
        }
    }
}

/// The header of an artifact: metadata and tensor descriptions.
#[derive(Debug, Clone, PartialEq)]
pub struct GgufManifest {
    pub version: u32,
    pub metadata: Vec<GgufMetadataEntry>,
    pub tensors: Vec<GgufTensorEntry>,
    pub alignment: u64,
    pub data_start: u64,
    pub file_len: u64,
}

/// What a header says.
pub struct ManifestView {
    pub version: u32,
    pub metadata: Seq<(Seq<char>, ValueView)>,
    pub tensors: Seq<TensorView>,
    pub alignment: u64,
    pub data_start: u64,
    pub file_len: u64,
}

pub open spec fn entry_views(v: Seq<GgufMetadataEntry>) -> Seq<(Seq<char>, ValueView)> {
    v.map_values(|e: GgufMetadataEntry| e@)
}

pub open spec fn tensor_views(v: Seq<GgufTensorEntry>) -> Seq<TensorView> {
    v.map_values(|t: GgufTensorEntry| t@)
}

impl View for GgufManifest {
    type V = ManifestView;

    open spec fn view(&self) -> ManifestView {
        ManifestView {
            version: self.version,
            metadata: entry_views(self.metadata@),
            tensors: tensor_views(self.tensors@),
            alignment: self.alignment,
            data_start: self.data_start,
            file_len: self.file_len,
        }
    }
}

/// The value of the first entry with the given key.
pub open spec fn find_value(metadata: Seq<(Seq<char>, ValueView)>, key: Seq<char>) -> Option<
    ValueView,
>
    decreases metadata.len(),
{
    if metadata.len() == 0 {
        None
    } else if metadata[0].0 == key {
        Some(metadata[0].1)
    } else {
        find_value(metadata.drop_first(), key)
    }
}

/// The first entry with the given key.
fn find_entry<'a>(metadata: &'a Vec<GgufMetadataEntry>, key: &str) -> (r: Option<
    &'a GgufMetadataValue,
>)
    ensures
        (match r {
            Some(v) => Some(v@),
            None => None,
        }) == find_value(entry_views(metadata@), key@),
{
    let mut i: usize = 0;
    proof {
        assert(entry_views(metadata@).skip(0) =~= entry_views(metadata@));
    }
    while i < metadata.len()
        invariant
            i <= metadata@.len(),
            find_value(entry_views(metadata@), key@) == find_value(
                entry_views(metadata@).skip(i as int),
                key@,
            ),
        decreases metadata@.len() - i,
    {
        let ghost rest = entry_views(metadata@).skip(i as int);
        proof {
            assert(rest.drop_first() =~= entry_views(metadata@).skip(i + 1));
            assert(rest[0] == metadata@[i as int]@);
        }
        if same_text(metadata[i].key.as_str(), key) {
            return Some(&metadata[i].value);
        }
        i = i + 1;
    }
    None
}

impl GgufManifest {
    /// The value of a metadata key; the first one where the key is repeated.
    pub fn metadata_value(&self, key: &str) -> (r: Option<&GgufMetadataValue>)
        ensures
            (match r {
                Some(v) => Some(v@),
                None => None,
            }) == find_value(self@.metadata, key@),
    {
        find_entry(&self.metadata, key)
    }
}

/// The start of an artifact, and the length of the whole of it.
pub struct GgufFile<'a> {
    pub path: &'a str,
    pub prefix: &'a [u8],
    pub file_len: u64,
}

/// The start of an artifact, and the length of the whole of it.
pub struct FileView {
    pub path: Seq<char>,
    pub prefix: Seq<u8>,
    pub file_len: u64,
}

impl<'a> View for GgufFile<'a> {
    type V = FileView;

    open spec fn view(&self) -> FileView {
        FileView { path: self.path@, prefix: self.prefix@, file_len: self.file_len }
    }
}

impl FileView {
    /// What is here is not longer than the whole.
    pub open spec fn wf(self) -> bool {
        self.prefix.len() <= self.file_len
    }
}

/// Why the inspection of a prefix stopped.
#[derive(Debug)]
pub enum GgufStop {
    /// The artifact is refused.
    Refused(OcelotlError),
    /// The header goes on: that many bytes of the file have to be here.
    NeedBytes(u64),
    /// The alignment is a single-precision number with that bit pattern, and the
    /// artifact is refused with a text that shows it.
    SingleAlignment(u32),
    /// The alignment is a double-precision number with that bit pattern, and the
    /// artifact is refused with a text that shows it.
    DoubleAlignment(u64),
}

/// Why the inspection of a prefix stopped.
#[verifier::ext_equal]
pub enum StopView {
    Refused(crate::error::ErrorView),
    NeedBytes(u64),
    SingleAlignment(u32),
    DoubleAlignment(u64),
}

impl View for GgufStop {
    type V = StopView;

    open spec fn view(&self) -> StopView {
        match *self {
            GgufStop::Refused(e) => StopView::Refused(e@),
            GgufStop::NeedBytes(n) => StopView::NeedBytes(n),
            GgufStop::SingleAlignment(b) => StopView::SingleAlignment(b),
            GgufStop::DoubleAlignment(b) => StopView::DoubleAlignment(b),
        }
    }
}

/// A refusal that names the artifact and the field.
pub open spec fn invalid(path: Seq<char>, field: Seq<char>, message: Seq<char>) -> StopView {
    StopView::Refused(
        crate::error::ErrorView::InvalidModel { path: Some(path), field: Some(field), message },
    )
}

/// A result with its refusal replaced by what the refusal says.
pub open spec fn stopped<T>(r: Result<T, GgufStop>) -> Result<T, StopView> {
    match r {
        Ok(t) => Ok(t),
        Err(e) => Err(e@),
    }
}

fn invalid_gguf(path: &str, field: &str, message: String) -> (e: GgufStop)
    ensures
        e@ == invalid(path@, field@, message@),
{
    GgufStop::Refused(
        OcelotlError::InvalidModel(
            InvalidModelError {
                path: Some(String::from_str(path)),
                field: Some(String::from_str(field)),
                message,
            },
        ),
    )
}

/// Whether `n` bytes can be read at `pos`: a file that ends before is refused,
/// a prefix that ends before has to grow.
pub open spec fn need(f: FileView, pos: nat, n: nat) -> Option<StopView> {
    if pos + n > f.file_len {
        Some(invalid(f.path, "header"@, "GGUF header is truncated"@))
    } else if pos + n > f.prefix.len() {
        Some(StopView::NeedBytes((pos + n) as u64))
    } else {
        None
    }
}

/// The `n`-byte number at `pos`.
pub open spec fn number(f: FileView, pos: nat, n: nat) -> Result<(nat, nat), StopView> {
    match need(f, pos, n) {
        Some(e) => Err(e),
        None => Ok(
            (crate::bytes::le_value(f.prefix.subrange(pos as int, (pos + n) as int)), pos + n),
        ),
    }
}

fn check_bytes(f: &GgufFile, pos: u64, n: u64) -> (r: Option<GgufStop>)
    requires
        f@.wf(),
        pos <= f.file_len,
    ensures
        (match r {
            Some(e) => Some(e@),
            None => None,
        }) == need(f@, pos as nat, n as nat),
{
    if n > f.file_len - pos {
        return Some(
            invalid_gguf(f.path, "header", String::from_str("GGUF header is truncated")),
        );
    }
    if pos + n > f.prefix.len() as u64 {
        return Some(GgufStop::NeedBytes(pos + n));
    }
    None
}

/// The view of a parsed item and the position behind it.
pub open spec fn at<T>(r: Result<(T, u64), GgufStop>) -> Result<(T, nat), StopView> {
    match r {
        Ok((t, p)) => Ok((t, p as nat)),
        Err(e) => Err(e@),
    }
}

fn read_number(f: &GgufFile, pos: u64, n: usize) -> (r: Result<(u64, u64), GgufStop>)
    requires
        f@.wf(),
        pos <= f.file_len,
        n <= 8,
    ensures
        (match at(r) {
            Ok((v, p)) => Ok((v as nat, p)),
            Err(e) => Err(e),
        }) == number(f@, pos as nat, n as nat),
        r matches Ok((v, p)) ==> {
            &&& p == pos + n <= f.file_len
            &&& n == 1 ==> v <= u8::MAX
            &&& n == 2 ==> v <= u16::MAX
            &&& n == 4 ==> v <= u32::MAX
        },
{
    match check_bytes(f, pos, n as u64) {
        Some(e) => Err(e),
        None => {
            let total: usize = f.prefix.len();
            assert(pos <= total);
            let start: usize = pos as usize;
            proof {
                crate::bytes::le_value_widths(f.prefix@.subrange(pos as int, pos + n));
            }
            Ok((read_le(f.prefix, start, n), pos + n as u64))
        },
    }
}

/// The number that `n` bits in two's complement stand for; `v` is below 2 to
/// the power of `n`, and `half` is 2 to the power of `n - 1`.
pub open spec fn signed(v: int, half: int) -> int {
    if v < half {
        v
    } else {
        v - 2 * half
    }
}

impl GgufMetadataType {
    /// The type of a tag, or a refusal under the given field.
    pub open spec fn of_raw(raw: nat, path: Seq<char>, field: Seq<char>) -> Result<
        GgufMetadataType,
        StopView,
    > {
        if raw == 0 {
            Ok(GgufMetadataType::U8)
        } else if raw == 1 {
            Ok(GgufMetadataType::I8)
        } else if raw == 2 {
            Ok(GgufMetadataType::U16)
        } else if raw == 3 {
            Ok(GgufMetadataType::I16)
        } else if raw == 4 {
            Ok(GgufMetadataType::U32)
        } else if raw == 5 {
            Ok(GgufMetadataType::I32)
        } else if raw == 6 {
            Ok(GgufMetadataType::F32)
        } else if raw == 7 {
            Ok(GgufMetadataType::Bool)
        } else if raw == 8 {
            Ok(GgufMetadataType::String)
        } else if raw == 9 {
            Ok(GgufMetadataType::Array)
        } else if raw == 10 {
            Ok(GgufMetadataType::U64)
        } else if raw == 11 {
            Ok(GgufMetadataType::I64)
        } else if raw == 12 {
            Ok(GgufMetadataType::F64)
        } else {
            Err(invalid(path, field, "unknown GGUF metadata value type "@ + crate::text::dec(raw)))
        }
    }

    fn from_raw(raw: u64, path: &str, field: &str) -> (r: Result<Self, GgufStop>)
        ensures
            stopped(r) == Self::of_raw(raw as nat, path@, field@),
    {
        Ok(
            if raw == 0 {
                GgufMetadataType::U8
            } else if raw == 1 {
                GgufMetadataType::I8
            } else if raw == 2 {
                GgufMetadataType::U16
            } else if raw == 3 {
                GgufMetadataType::I16
            } else if raw == 4 {
                GgufMetadataType::U32
            } else if raw == 5 {
                GgufMetadataType::I32
            } else if raw == 6 {
                GgufMetadataType::F32
            } else if raw == 7 {
                GgufMetadataType::Bool
            } else if raw == 8 {
                GgufMetadataType::String
            } else if raw == 9 {
                GgufMetadataType::Array
            } else if raw == 10 {
                GgufMetadataType::U64
            } else if raw == 11 {
                GgufMetadataType::I64
            } else if raw == 12 {
                GgufMetadataType::F64
            } else {
                return Err(
                    invalid_gguf(
                        path,
                        field,
                        Text::new("unknown GGUF metadata value type ").n64(raw).done(),
                    ),
                );
            },
        )
    }
}

/// The refusal of a string that is too long, if it is.
pub open spec fn string_limit(f: FileView, field: Seq<char>, max_len: nat, len: nat) -> Option<
    StopView,
> {
    if len > max_len || len > MAX_METADATA_STRING_BYTES {
        Some(
            invalid(
                f.path,
                field,
                "GGUF "@ + field + " length "@ + crate::text::dec(len) + " exceeds max "@
                    + crate::text::dec(max_len),
            ),
        )
    } else {
        None
    }
}

/// The string at `pos`: its length in eight bytes, then that many bytes of UTF-8.
pub open spec fn string_at(f: FileView, pos: nat, field: Seq<char>, max_len: nat) -> Result<
    (Seq<char>, nat),
    StopView,
> {
    match number(f, pos, 8) {
        Err(e) => Err(e),
        Ok((len, p)) => match string_limit(f, field, max_len, len) {
            Some(e) => Err(e),
            None => match need(f, p, len) {
                Some(e) => Err(e),
                None => {
                    let bytes = f.prefix.subrange(p as int, (p + len) as int);
                    if vstd::utf8::valid_utf8(bytes) {
                        Ok((vstd::utf8::decode_utf8(bytes), p + len))
                    } else {
                        Err(
                            invalid(
                                f.path,
                                field,
                                "GGUF "@ + field + " is not UTF-8: "@
                                    + crate::bytes::utf8_error_text(bytes),
                            ),
                        )
                    }
                },
            },
        },
    }
}

fn check_string_limit(f: &GgufFile, field: &str, max_len: u64, len: u64) -> (r: Option<GgufStop>)
    ensures
        (match r {
            Some(e) => Some(e@),
            None => None,
        }) == string_limit(f@, field@, max_len as nat, len as nat),
{
    if len > max_len || len > MAX_METADATA_STRING_BYTES {
        Some(
            invalid_gguf(
                f.path,
                field,
                Text::new("GGUF ").s(field).s(" length ").n64(len).s(" exceeds max ").n64(
                    max_len,
                ).done(),
            ),
        )
    } else {
        None
    }
}

fn read_string(f: &GgufFile, pos: u64, field: &str, max_len: u64) -> (r: Result<
    (String, u64),
    GgufStop,
>)
    requires
        f@.wf(),
        pos <= f.file_len,
    ensures
        (match at(r) {
            Ok((s, p)) => Ok((s@, p)),
            Err(e) => Err(e),
        }) == string_at(f@, pos as nat, field@, max_len as nat),
        r matches Ok((_, p)) ==> p <= f.file_len,
{
    let (len, p): (u64, u64) = match read_number(f, pos, 8) {
        Ok(v) => v,
        Err(e) => return Err(e),
    };
    match check_string_limit(f, field, max_len, len) {
        Some(e) => return Err(e),
        None => {},
    }
    match check_bytes(f, p, len) {
        Some(e) => return Err(e),
        None => {},
    }
    let total: usize = f.prefix.len();
    assert(p + len <= total);
    let bytes: &[u8] = vstd::slice::slice_subrange(f.prefix, p as usize, (p + len) as usize);
    match string_from_utf8(bytes) {
        Ok(s) => Ok((s, p + len)),
        Err(t) => Err(
            invalid_gguf(
                f.path,
                field,
                Text::new("GGUF ").s(field).s(" is not UTF-8: ").s(t.as_str()).done(),
            ),
        ),
    }
}

/// The position `len` bytes further on; nothing is read.
pub open spec fn skip(f: FileView, pos: nat, len: nat) -> Result<nat, StopView> {
    if pos + len > u64::MAX {
        Err(
            invalid(
                f.path,
                "header"@,
                "GGUF skip length "@ + crate::text::dec(len) + " overflows file offset"@,
            ),
        )
    } else if pos + len > f.file_len {
        Err(
            invalid(
                f.path,
                "header"@,
                "GGUF metadata/tensor-info region is truncated: attempted to seek to "@
                    + crate::text::dec(pos + len) + ", file length is "@ + crate::text::dec(
                    f.file_len as nat,
                ),
            ),
        )
    } else {
        Ok(pos + len)
    }
}

fn skip_bytes(f: &GgufFile, pos: u64, len: u64) -> (r: Result<u64, GgufStop>)
    ensures
        (match stopped(r) {
            Ok(p) => Ok(p as nat),
            Err(e) => Err(e),
        }) == skip(f@, pos as nat, len as nat),
        r matches Ok(p) ==> p <= f.file_len,
{
    match pos.checked_add(len) {
        None => Err(
            invalid_gguf(
                f.path,
                "header",
                Text::new("GGUF skip length ").n64(len).s(" overflows file offset").done(),
            ),
        ),
        Some(end) => if end > f.file_len {
            Err(
                invalid_gguf(
                    f.path,
                    "header",
                    Text::new(
                        "GGUF metadata/tensor-info region is truncated: attempted to seek to ",
                    ).n64(end).s(", file length is ").n64(f.file_len).done(),
                ),
            )
        } else {
            Ok(end)
        },
    }
}

/// The refusal of an array that is too long.
pub open spec fn array_len_error(f: FileView, len: nat) -> StopView {
    invalid(
        f.path,
        "metadata array"@,
        "GGUF metadata array length "@ + crate::text::dec(len) + " exceeds max "@
            + crate::text::dec(MAX_ARRAY_ELEMENTS as nat),
    )
}

/// The refusal of arrays that are nested too deeply.
pub open spec fn array_depth_error(f: FileView) -> StopView {
    invalid(
        f.path,
        "metadata array"@,
        "GGUF metadata array nesting exceeds max depth "@ + crate::text::dec(
            MAX_ARRAY_DEPTH as nat,
        ),
    )
}

fn array_len_refusal(f: &GgufFile, len: u64) -> (e: GgufStop)
    ensures
        e@ == array_len_error(f@, len as nat),
{
    invalid_gguf(
        f.path,
        "metadata array",
        Text::new("GGUF metadata array length ").n64(len).s(" exceeds max ").n64(
            MAX_ARRAY_ELEMENTS,
        ).done(),
    )
}

fn array_depth_refusal(f: &GgufFile) -> (e: GgufStop)
    ensures
        e@ == array_depth_error(f@),
{
    invalid_gguf(
        f.path,
        "metadata array",
        Text::new("GGUF metadata array nesting exceeds max depth ").n(MAX_ARRAY_DEPTH).done(),
    )
}

/// The tag of an array's elements and the number of them.
pub open spec fn array_head(f: FileView, pos: nat) -> Result<
    ((GgufMetadataType, nat), nat),
    StopView,
> {
    match number(f, pos, 4) {
        Err(e) => Err(e),
        Ok((raw, p)) => match GgufMetadataType::of_raw(raw, f.path, "metadata array"@) {
            Err(e) => Err(e),
            Ok(t) => match number(f, p, 8) {
                Err(e) => Err(e),
                Ok((len, q)) => Ok(((t, len), q)),
            },
        },
    }
}

fn read_array_head(f: &GgufFile, pos: u64) -> (r: Result<
    ((GgufMetadataType, u64), u64),
    GgufStop,
>)
    requires
        f@.wf(),
        pos <= f.file_len,
    ensures
        (match at(r) {
            Ok(((t, len), p)) => Ok(((t, len as nat), p)),
            Err(e) => Err(e),
        }) == array_head(f@, pos as nat),
        r matches Ok((_, p)) ==> p <= f.file_len,
{
    let (raw, p): (u64, u64) = match read_number(f, pos, 4) {
        Ok(v) => v,
        Err(e) => return Err(e),
    };
    let t: GgufMetadataType = match GgufMetadataType::from_raw(raw, f.path, "metadata array") {
        Ok(t) => t,
        Err(e) => return Err(e),
    };
    match read_number(f, p, 8) {
        Ok((len, q)) => Ok(((t, len), q)),
        Err(e) => Err(e),
    }
}

/// The position behind a value that is passed over.
pub open spec fn skip_value(f: FileView, t: GgufMetadataType, depth: nat, pos: nat) -> Result<
    nat,
    StopView,
>
    decreases MAX_ARRAY_DEPTH + 1 - depth, 0nat,
{
    match t {
        GgufMetadataType::U8 | GgufMetadataType::I8 | GgufMetadataType::Bool => skip(f, pos, 1),
        GgufMetadataType::U16 | GgufMetadataType::I16 => skip(f, pos, 2),
        GgufMetadataType::U32 | GgufMetadataType::I32 | GgufMetadataType::F32 => skip(f, pos, 4),
        GgufMetadataType::U64 | GgufMetadataType::I64 | GgufMetadataType::F64 => skip(f, pos, 8),
        GgufMetadataType::String => match number(f, pos, 8) {
            Err(e) => Err(e),
            Ok((len, p)) => match string_limit(
                f,
                "metadata string"@,
                MAX_METADATA_STRING_BYTES as nat,
                len,
            ) {
                Some(e) => Err(e),
                None => skip(f, p, len),
            },
        },
        GgufMetadataType::Array => if depth >= MAX_ARRAY_DEPTH {
            Err(array_depth_error(f))
        } else {
            match array_head(f, pos) {
                Err(e) => Err(e),
                Ok(((et, len), p)) => if len > MAX_ARRAY_ELEMENTS {
                    Err(array_len_error(f, len))
                } else {
                    skip_values(f, et, depth + 1, p, len)
                },
            }
        },
    }
}

/// The position behind `n` values that are passed over.
pub open spec fn skip_values(
    f: FileView,
    t: GgufMetadataType,
    depth: nat,
    pos: nat,
    n: nat,
) -> Result<nat, StopView>
    decreases MAX_ARRAY_DEPTH + 1 - depth, n + 1,
{
    if n == 0 {
        Ok(pos)
    } else {
        match skip_values(f, t, depth, pos, (n - 1) as nat) {
            Err(e) => Err(e),
            Ok(p) => skip_value(f, t, depth, p),
        }
    }
}

proof fn skip_values_error(
    f: FileView,
    t: GgufMetadataType,
    depth: nat,
    pos: nat,
    k: nat,
    n: nat,
)
    requires
        k <= n,
        skip_values(f, t, depth, pos, k) is Err,
    ensures
        skip_values(f, t, depth, pos, n) == skip_values(f, t, depth, pos, k),
    decreases n,
{
    if k < n {
        skip_values_error(f, t, depth, pos, k, (n - 1) as nat);
    }
}

fn skip_metadata_value(f: &GgufFile, t: GgufMetadataType, depth: usize, pos: u64) -> (r: Result<
    u64,
    GgufStop,
>)
    requires
        f@.wf(),
        pos <= f.file_len,
        depth <= MAX_ARRAY_DEPTH,
    ensures
        (match stopped(r) {
            Ok(p) => Ok(p as nat),
            Err(e) => Err(e),
        }) == skip_value(f@, t, depth as nat, pos as nat),
        r matches Ok(p) ==> p <= f.file_len,
    decreases MAX_ARRAY_DEPTH + 1 - depth, 0nat,
{
    match t {
        GgufMetadataType::U8 | GgufMetadataType::I8 | GgufMetadataType::Bool => skip_bytes(
            f,
            pos,
            1,
        ),
        GgufMetadataType::U16 | GgufMetadataType::I16 => skip_bytes(f, pos, 2),
        GgufMetadataType::U32 | GgufMetadataType::I32 | GgufMetadataType::F32 => skip_bytes(
            f,
            pos,
            4,
        ),
        GgufMetadataType::U64 | GgufMetadataType::I64 | GgufMetadataType::F64 => skip_bytes(
            f,
            pos,
            8,
        ),
        GgufMetadataType::String => {
            let (len, p): (u64, u64) = match read_number(f, pos, 8) {
                Ok(v) => v,
                Err(e) => return Err(e),
            };
            match check_string_limit(f, "metadata string", MAX_METADATA_STRING_BYTES, len) {
                Some(e) => Err(e),
                None => skip_bytes(f, p, len),
            }
        },
        GgufMetadataType::Array => {
            if depth >= MAX_ARRAY_DEPTH {
                return Err(array_depth_refusal(f));
            }
            let ((et, len), p): ((GgufMetadataType, u64), u64) = match read_array_head(f, pos) {
                Ok(v) => v,
                Err(e) => return Err(e),
            };
            if len > MAX_ARRAY_ELEMENTS {
                return Err(array_len_refusal(f, len));
            }
            skip_metadata_values(f, et, depth + 1, p, len)
        },
    }
}

fn skip_metadata_values(
    f: &GgufFile,
    t: GgufMetadataType,
    depth: usize,
    pos: u64,
    n: u64,
) -> (r: Result<u64, GgufStop>)
    requires
        f@.wf(),
        pos <= f.file_len,
        depth <= MAX_ARRAY_DEPTH,
    ensures
        (match stopped(r) {
            Ok(p) => Ok(p as nat),
            Err(e) => Err(e),
        }) == skip_values(f@, t, depth as nat, pos as nat, n as nat),
        r matches Ok(p) ==> p <= f.file_len,
    decreases MAX_ARRAY_DEPTH + 1 - depth, 1nat,
{
    let mut p: u64 = pos;
    let mut i: u64 = 0;
    while i < n
        invariant
            f@.wf(),
            p <= f.file_len,
            depth <= MAX_ARRAY_DEPTH,
            i <= n,
            skip_values(f@, t, depth as nat, pos as nat, i as nat) == Ok::<nat, StopView>(
                p as nat,
            ),
        decreases n - i,
    {
        match skip_metadata_value(f, t, depth, p) {
            Ok(q) => {
                p = q;
            },
            Err(e) => {
                proof {
                    skip_values_error(f@, t, depth as nat, pos as nat, i as nat + 1, n as nat);
                }
                return Err(e);
            },
        }
        i = i + 1;
    }
    Ok(p)
}

/// The view of an integer read as a metadata value of type `t`.
pub open spec fn int_value(t: GgufMetadataType, v: nat) -> ValueView {
    match t {
        GgufMetadataType::U8 => ValueView::U8(v as u8),
        GgufMetadataType::I8 => ValueView::I8(signed(v as int, 0x80) as i8),
        GgufMetadataType::U16 => ValueView::U16(v as u16),
        GgufMetadataType::I16 => ValueView::I16(signed(v as int, 0x8000) as i16),
        GgufMetadataType::U32 => ValueView::U32(v as u32),
        GgufMetadataType::I32 => ValueView::I32(signed(v as int, 0x8000_0000) as i32),
        GgufMetadataType::F32 => ValueView::F32(v as u32),
        GgufMetadataType::U64 => ValueView::U64(v as u64),
        GgufMetadataType::I64 => ValueView::I64(signed(v as int, 0x8000_0000_0000_0000) as i64),
        GgufMetadataType::F64 => ValueView::F64(v as u64),
        _ => ValueView::Bool(v != 0),
    }
}

/// The bytes that a number of type `t` takes up.
pub open spec fn int_width(t: GgufMetadataType) -> nat {
    match t {
        GgufMetadataType::U8 | GgufMetadataType::I8 | GgufMetadataType::Bool => 1,
        GgufMetadataType::U16 | GgufMetadataType::I16 => 2,
        GgufMetadataType::U32 | GgufMetadataType::I32 | GgufMetadataType::F32 => 4,
        _ => 8,
    }
}

/// The metadata value at `pos`.
pub open spec fn value_at(f: FileView, t: GgufMetadataType, pos: nat) -> Result<
    (ValueView, nat),
    StopView,
> {
    match t {
        GgufMetadataType::String => match string_at(
            f,
            pos,
            "metadata string"@,
            MAX_METADATA_STRING_BYTES as nat,
        ) {
            Err(e) => Err(e),
            Ok((s, p)) => Ok((ValueView::String(s), p)),
        },
        GgufMetadataType::Array => match array_head(f, pos) {
            Err(e) => Err(e),
            Ok(((et, len), p)) => if len > MAX_ARRAY_ELEMENTS {
                Err(array_len_error(f, len))
            } else {
                match skip_values(f, et, 1, p, len) {
                    Err(e) => Err(e),
                    Ok(q) => Ok((ValueView::Array { element_type: et, len: len as u64 }, q)),
                }
            },
        },
        _ => match number(f, pos, int_width(t)) {
            Err(e) => Err(e),
            Ok((v, p)) => if t == GgufMetadataType::Bool && v > 1 {
                Err(
                    invalid(
                        f.path,
                        "bool"@,
                        "GGUF bool value must be 0 or 1, got "@ + crate::text::dec(v),
                    ),
                )
            } else {
                Ok((int_value(t, v), p))
            },
        },
    }
}

fn read_metadata_value(f: &GgufFile, t: GgufMetadataType, pos: u64) -> (r: Result<
    (GgufMetadataValue, u64),
    GgufStop,
>)
    requires
        f@.wf(),
        pos <= f.file_len,
    ensures
        (match at(r) {
            Ok((v, p)) => Ok((v@, p)),
            Err(e) => Err(e),
        }) == value_at(f@, t, pos as nat),
        r matches Ok((_, p)) ==> p <= f.file_len,
{
    match t {
        GgufMetadataType::String => match read_string(
            f,
            pos,
            "metadata string",
            MAX_METADATA_STRING_BYTES,
        ) {
            Ok((s, p)) => Ok((GgufMetadataValue::String(s), p)),
            Err(e) => Err(e),
        },
        GgufMetadataType::Array => {
            let ((et, len), p): ((GgufMetadataType, u64), u64) = match read_array_head(f, pos) {
                Ok(v) => v,
                Err(e) => return Err(e),
            };
            if len > MAX_ARRAY_ELEMENTS {
                return Err(array_len_refusal(f, len));
            }
            match skip_metadata_values(f, et, 1, p, len) {
                Ok(q) => Ok((GgufMetadataValue::Array { element_type: et, len }, q)),
                Err(e) => Err(e),
            }
        },
        GgufMetadataType::U8 | GgufMetadataType::I8 | GgufMetadataType::Bool => {
            let (v, p): (u64, u64) = match read_number(f, pos, 1) {
                Ok(v) => v,
                Err(e) => return Err(e),
            };
            match t {
                GgufMetadataType::U8 => Ok((GgufMetadataValue::U8(v as u8), p)),
                GgufMetadataType::I8 => Ok(
                    (
                        GgufMetadataValue::I8(
                            if v < 0x80 {
                                v as i8
                            } else {
                                (v as i64 - 0x100) as i8
                            },
                        ),
                        p,
                    ),
                ),
                _ => if v > 1 {
                    Err(
                        invalid_gguf(
                            f.path,
                            "bool",
                            Text::new("GGUF bool value must be 0 or 1, got ").n64(v).done(),
                        ),
                    )
                } else {
                    Ok((GgufMetadataValue::Bool(v != 0), p))
                },
            }
        },
        GgufMetadataType::U16 | GgufMetadataType::I16 => {
            let (v, p): (u64, u64) = match read_number(f, pos, 2) {
                Ok(v) => v,
                Err(e) => return Err(e),
            };
            match t {
                GgufMetadataType::U16 => Ok((GgufMetadataValue::U16(v as u16), p)),
                _ => Ok(
                    (
                        GgufMetadataValue::I16(
                            if v < 0x8000 {
                                v as i16
                            } else {
                                (v as i64 - 0x1_0000) as i16
                            },
                        ),
                        p,
                    ),
                ),
            }
        },
        GgufMetadataType::U32 | GgufMetadataType::I32 | GgufMetadataType::F32 => {
            let (v, p): (u64, u64) = match read_number(f, pos, 4) {
                Ok(v) => v,
                Err(e) => return Err(e),
            };
            match t {
                GgufMetadataType::U32 => Ok((GgufMetadataValue::U32(v as u32), p)),
                GgufMetadataType::F32 => Ok((GgufMetadataValue::F32(v as u32), p)),
                _ => Ok(
                    (
                        GgufMetadataValue::I32(
                            if v < 0x8000_0000 {
                                v as i32
                            } else {
                                (v as i64 - 0x1_0000_0000) as i32
                            },
                        ),
                        p,
                    ),
                ),
            }
        },
        GgufMetadataType::U64 | GgufMetadataType::I64 | GgufMetadataType::F64 => {
            let (v, p): (u64, u64) = match read_number(f, pos, 8) {
                Ok(v) => v,
                Err(e) => return Err(e),
            };
            match t {
                GgufMetadataType::U64 => Ok((GgufMetadataValue::U64(v), p)),
                GgufMetadataType::F64 => Ok((GgufMetadataValue::F64(v), p)),
                _ => Ok(
                    (
                        GgufMetadataValue::I64(
                            if v < 0x8000_0000_0000_0000 {
                                v as i64
                            } else {
                                (v as i128 - 0x1_0000_0000_0000_0000) as i64
                            },
                        ),
                        p,
                    ),
                ),
            }
        },
    }
}

/// The metadata entry at `pos`: key, type tag, value.
pub open spec fn entry_at(f: FileView, pos: nat) -> Result<((Seq<char>, ValueView), nat), StopView> {
    match string_at(f, pos, "metadata key"@, MAX_KEY_BYTES as nat) {
        Err(e) => Err(e),
        Ok((key, p)) => match number(f, p, 4) {
            Err(e) => Err(e),
            Ok((raw, q)) => match GgufMetadataType::of_raw(raw, f.path, key) {
                Err(e) => Err(e),
                Ok(t) => match value_at(f, t, q) {
                    Err(e) => Err(e),
                    Ok((v, end)) => Ok(((key, v), end)),
                },
            },
        },
    }
}

fn read_entry(f: &GgufFile, pos: u64) -> (r: Result<(GgufMetadataEntry, u64), GgufStop>)
    requires
        f@.wf(),
        pos <= f.file_len,
    ensures
        (match at(r) {
            Ok((v, p)) => Ok((v@, p)),
            Err(e) => Err(e),
        }) == entry_at(f@, pos as nat),
        r matches Ok((_, p)) ==> p <= f.file_len,
{
    let (key, p): (String, u64) = match read_string(f, pos, "metadata key", MAX_KEY_BYTES) {
        Ok(v) => v,
        Err(e) => return Err(e),
    };
    let (raw, q): (u64, u64) = match read_number(f, p, 4) {
        Ok(v) => v,
        Err(e) => return Err(e),
    };
    let t: GgufMetadataType = match GgufMetadataType::from_raw(raw, f.path, key.as_str()) {
        Ok(t) => t,
        Err(e) => return Err(e),
    };
    match read_metadata_value(f, t, q) {
        Ok((value, end)) => Ok((GgufMetadataEntry { key, value }, end)),
        Err(e) => Err(e),
    }
}

/// The `n` metadata entries from `pos` on.
pub open spec fn entries_at(f: FileView, pos: nat, n: nat) -> Result<
    (Seq<(Seq<char>, ValueView)>, nat),
    StopView,
>
    decreases n,
{
    if n == 0 {
        Ok((Seq::empty(), pos))
    } else {
        match entries_at(f, pos, (n - 1) as nat) {
            Err(e) => Err(e),
            Ok((s, p)) => match entry_at(f, p) {
                Err(e) => Err(e),
                Ok((x, q)) => Ok((s.push(x), q)),
            },
        }
    }
}

proof fn entries_error(f: FileView, pos: nat, k: nat, n: nat)
    requires
        k <= n,
        entries_at(f, pos, k) is Err,
    ensures
        entries_at(f, pos, n) == entries_at(f, pos, k),
    decreases n,
{
    if k < n {
        entries_error(f, pos, k, (n - 1) as nat);
    }
}

fn read_entries(f: &GgufFile, pos: u64, n: u64) -> (r: Result<
    (Vec<GgufMetadataEntry>, u64),
    GgufStop,
>)
    requires
        f@.wf(),
        pos <= f.file_len,
    ensures
        (match at(r) {
            Ok((v, p)) => Ok((entry_views(v@), p)),
            Err(e) => Err(e),
        }) == entries_at(f@, pos as nat, n as nat),
        r matches Ok((_, p)) ==> p <= f.file_len,
{
    let mut v: Vec<GgufMetadataEntry> = Vec::new();
    let mut p: u64 = pos;
    let mut i: u64 = 0;
    proof {
        assert(entry_views(v@) =~= Seq::empty());
    }
    while i < n
        invariant
            f@.wf(),
            p <= f.file_len,
            i <= n,
            entries_at(f@, pos as nat, i as nat) == Ok::<_, StopView>(
                (entry_views(v@), p as nat),
            ),
        decreases n - i,
    {
        match read_entry(f, p) {
            Ok((x, q)) => {
                let ghost before = v@;
                v.push(x);
                p = q;
                proof {
                    assert(entry_views(v@) =~= entry_views(before).push(x@));
                }
            },
            Err(e) => {
                proof {
                    entries_error(f@, pos as nat, i as nat + 1, n as nat);
                }
                return Err(e);
            },
        }
        i = i + 1;
    }
    Ok((v, p))
}

/// The quoted and escaped form of a string.
pub uninterp spec fn quoted_text(s: Seq<char>) -> Seq<char>;

/// The `Debug` form of `str`: the same characters give the same text.
#[verifier::external_body]
fn debug_str(s: &str) -> (r: String)
    ensures
        r@ == quoted_text(s@),
{
    format!("{s:?}")
}

/// The name of a type tag.
pub open spec fn tag_name(t: GgufMetadataType) -> Seq<char> {
    match t {
        GgufMetadataType::U8 => "U8"@,
        GgufMetadataType::I8 => "I8"@,
        GgufMetadataType::U16 => "U16"@,
        GgufMetadataType::I16 => "I16"@,
        GgufMetadataType::U32 => "U32"@,
        GgufMetadataType::I32 => "I32"@,
        GgufMetadataType::F32 => "F32"@,
        GgufMetadataType::Bool => "Bool"@,
        GgufMetadataType::String => "String"@,
        GgufMetadataType::Array => "Array"@,
        GgufMetadataType::U64 => "U64"@,
        GgufMetadataType::I64 => "I64"@,
        GgufMetadataType::F64 => "F64"@,
    }
}

fn type_text(t: GgufMetadataType) -> (r: &'static str)
    ensures
        r@ == tag_name(t),
{
    match t {
        GgufMetadataType::U8 => "U8",
        GgufMetadataType::I8 => "I8",
        GgufMetadataType::U16 => "U16",
        GgufMetadataType::I16 => "I16",
        GgufMetadataType::U32 => "U32",
        GgufMetadataType::I32 => "I32",
        GgufMetadataType::F32 => "F32",
        GgufMetadataType::Bool => "Bool",
        GgufMetadataType::String => "String",
        GgufMetadataType::Array => "Array",
        GgufMetadataType::U64 => "U64",
        GgufMetadataType::I64 => "I64",
        GgufMetadataType::F64 => "F64",
    }
}

/// A value as an error message shows it: its type, and its contents in brackets.
/// The text of a floating-point number is given.
pub open spec fn shown(v: ValueView, float: Seq<char>) -> Seq<char> {
    match v {
        ValueView::U8(n) => "U8("@ + crate::text::dec_int(n as int) + ")"@,
        ValueView::I8(n) => "I8("@ + crate::text::dec_int(n as int) + ")"@,
        ValueView::U16(n) => "U16("@ + crate::text::dec_int(n as int) + ")"@,
        ValueView::I16(n) => "I16("@ + crate::text::dec_int(n as int) + ")"@,
        ValueView::U32(n) => "U32("@ + crate::text::dec_int(n as int) + ")"@,
        ValueView::I32(n) => "I32("@ + crate::text::dec_int(n as int) + ")"@,
        ValueView::F32(_) => "F32("@ + float + ")"@,
        ValueView::Bool(b) => "Bool("@ + (if b {
            "true"@
        } else {
            "false"@
        }) + ")"@,
        ValueView::String(s) => "String("@ + quoted_text(s) + ")"@,
        ValueView::Array { element_type, len } => "Array { element_type: "@ + tag_name(
            element_type,
        ) + ", len: "@ + crate::text::dec_int(len as int) + " }"@,
        ValueView::U64(n) => "U64("@ + crate::text::dec_int(n as int) + ")"@,
        ValueView::I64(n) => "I64("@ + crate::text::dec_int(n as int) + ")"@,
        ValueView::F64(_) => "F64("@ + float + ")"@,
    }
}

fn show(v: &GgufMetadataValue, float: &str) -> (r: String)
    ensures
        r@ == shown(v@, float@),
{
    match v {
        GgufMetadataValue::U8(n) => Text::new("U8(").i(*n as i128).s(")").done(),
        GgufMetadataValue::I8(n) => Text::new("I8(").i(*n as i128).s(")").done(),
        GgufMetadataValue::U16(n) => Text::new("U16(").i(*n as i128).s(")").done(),
        GgufMetadataValue::I16(n) => Text::new("I16(").i(*n as i128).s(")").done(),
        GgufMetadataValue::U32(n) => Text::new("U32(").i(*n as i128).s(")").done(),
        GgufMetadataValue::I32(n) => Text::new("I32(").i(*n as i128).s(")").done(),
        GgufMetadataValue::F32(_) => Text::new("F32(").s(float).s(")").done(),
        GgufMetadataValue::Bool(b) => Text::new("Bool(").s(
            if *b {
                "true"
            } else {
                "false"
            },
        ).s(")").done(),
        GgufMetadataValue::String(s) => Text::new("String(").s(
            debug_str(s.as_str()).as_str(),
        ).s(")").done(),
        GgufMetadataValue::Array { element_type, len } => Text::new("Array { element_type: ").s(
            type_text(*element_type),
        ).s(", len: ").i(*len as i128).s(" }").done(),
        GgufMetadataValue::U64(n) => Text::new("U64(").i(*n as i128).s(")").done(),
        GgufMetadataValue::I64(n) => Text::new("I64(").i(*n as i128).s(")").done(),
        GgufMetadataValue::F64(_) => Text::new("F64(").s(float).s(")").done(),
    }
}

/// The refusal of an alignment that is not an unsigned integer.
pub open spec fn alignment_error(path: Seq<char>, value: Seq<char>) -> crate::error::ErrorView {
    crate::error::ErrorView::InvalidModel {
        path: Some(path),
        field: Some("general.alignment"@),
        message: "GGUF general.alignment must be uint32 or uint64, got "@ + value,
    }
}

/// `e` may be what an artifact is refused with, where its inspection stopped.
pub open spec fn stop_error<F: FloatText>(
    text: &F,
    path: Seq<char>,
    stop: StopView,
    e: crate::error::ErrorView,
) -> bool {
    match stop {
        StopView::Refused(refusal) => e == refusal,
        StopView::SingleAlignment(bits) => exists|s: String| #[trigger]
            crate::text::prints_single(text, bits, s) && e == alignment_error(
                path,
                shown(ValueView::F32(bits), s@),
            ),
        StopView::DoubleAlignment(bits) => exists|s: String| #[trigger]
            crate::text::prints_double(text, bits, s) && e == alignment_error(
                path,
                shown(ValueView::F64(bits), s@),
            ),
        StopView::NeedBytes(_) => false,
    }
}

fn alignment_refusal(path: &str, value: String) -> (e: OcelotlError)
    ensures
        e@ == alignment_error(path@, value@),
{
    OcelotlError::InvalidModel(
        InvalidModelError {
            path: Some(String::from_str(path)),
            field: Some(String::from_str("general.alignment")),
            message: Text::new("GGUF general.alignment must be uint32 or uint64, got ").s(
                value.as_str(),
            ).done(),
        },
    )
}

/// What an artifact is refused with, where its inspection stopped for another
/// reason than that more bytes are needed.
pub fn refusal_of<F: FloatText>(text: &F, path: &str, stop: GgufStop) -> (e: OcelotlError)
    requires
        !(stop is NeedBytes),
    ensures
        stop_error(text, path@, stop@, e@),
{
    match stop {
        GgufStop::Refused(e) => e,
        GgufStop::SingleAlignment(bits) => {
            let s: String = text.single(bits);
            assert(crate::text::prints_single(text, bits, s));
            alignment_refusal(path, show(&GgufMetadataValue::F32(bits), s.as_str()))
        },
        GgufStop::DoubleAlignment(bits) => {
            let s: String = text.double(bits);
            assert(crate::text::prints_double(text, bits, s));
            alignment_refusal(path, show(&GgufMetadataValue::F64(bits), s.as_str()))
        },
        GgufStop::NeedBytes(_) => OcelotlError::Runtime(
            crate::error::RuntimeError { message: String::new() },
        ),
    }
}

/// The alignment of the tensor data: `general.alignment`, or the default.
pub open spec fn alignment_of(path: Seq<char>, metadata: Seq<(Seq<char>, ValueView)>) -> Result<
    u64,
    StopView,
> {
    let declared: Result<u64, StopView> = match find_value(metadata, "general.alignment"@) {
        Some(ValueView::U32(v)) => Ok(v as u64),
        Some(ValueView::U64(v)) => Ok(v),
        Some(ValueView::F32(bits)) => Err(StopView::SingleAlignment(bits)),
        Some(ValueView::F64(bits)) => Err(StopView::DoubleAlignment(bits)),
        Some(other) => Err(StopView::Refused(alignment_error(path, shown(other, ""@)))),
        None => Ok(DEFAULT_ALIGNMENT),
    };
    match declared {
        Err(e) => Err(e),
        Ok(a) => if a == 0 || a % 8 != 0 {
            Err(
                invalid(
                    path,
                    "general.alignment"@,
                    "GGUF alignment must be a positive multiple of 8, got "@ + crate::text::dec(
                        a as nat,
                    ),
                ),
            )
        } else {
            Ok(a)
        },
    }
}

/// The alignment of the tensor data that the metadata asks for.
pub fn alignment_from_metadata(path: &str, metadata: &Vec<GgufMetadataEntry>) -> (r: Result<
    u64,
    GgufStop,
>)
    ensures
        stopped(r) == alignment_of(path@, entry_views(metadata@)),
        r matches Ok(a) ==> a > 0,
{
    let alignment: u64 = match find_entry(metadata, "general.alignment") {
        Some(GgufMetadataValue::U32(v)) => *v as u64,
        Some(GgufMetadataValue::U64(v)) => *v,
        Some(GgufMetadataValue::F32(bits)) => return Err(GgufStop::SingleAlignment(*bits)),
        Some(GgufMetadataValue::F64(bits)) => return Err(GgufStop::DoubleAlignment(*bits)),
        Some(other) => return Err(GgufStop::Refused(alignment_refusal(path, show(other, "")))),
        None => DEFAULT_ALIGNMENT,
    };
    if alignment == 0 || alignment % 8 != 0 {
        return Err(
            invalid_gguf(
                path,
                "general.alignment",
                Text::new("GGUF alignment must be a positive multiple of 8, got ").n64(
                    alignment,
                ).done(),
            ),
        );
    }
    Ok(alignment)
}

/// A refusal that starts with the name of a tensor.
pub open spec fn tensor_error(f: FileView, name: Seq<char>, rest: Seq<char>) -> StopView {
    invalid(f.path, name, "GGUF tensor `"@ + name + rest)
}

fn tensor_refusal(f: &GgufFile, name: &str, rest: String) -> (e: GgufStop)
    ensures
        e@ == tensor_error(f@, name@, rest@),
{
    invalid_gguf(f.path, name, Text::new("GGUF tensor `").s(name).s(rest.as_str()).done())
}

/// The `n` dimensions from `pos` on, and the number of elements.
pub open spec fn dims_at(f: FileView, name: Seq<char>, pos: nat, n: nat) -> Result<
    ((Seq<usize>, nat), nat),
    StopView,
>
    decreases n,
{
    if n == 0 {
        Ok(((Seq::empty(), 1), pos))
    } else {
        match dims_at(f, name, pos, (n - 1) as nat) {
            Err(e) => Err(e),
            Ok(((shape, count), p)) => match number(f, p, 8) {
                Err(e) => Err(e),
                Ok((dim, q)) => if dim == 0 {
                    Err(tensor_error(f, name, "` has a zero dimension"@))
                } else if dim > usize::MAX {
                    Err(
                        tensor_error(
                            f,
                            name,
                            "` dimension "@ + crate::text::dec(dim) + " does not fit in usize"@,
                        ),
                    )
                } else if count * dim > u64::MAX {
                    Err(tensor_error(f, name, "` element count overflows u64"@))
                } else {
                    Ok(((shape.push(dim as usize), count * dim), q))
                },
            },
        }
    }
}

proof fn dims_error(f: FileView, name: Seq<char>, pos: nat, k: nat, n: nat)
    requires
        k <= n,
        dims_at(f, name, pos, k) is Err,
    ensures
        dims_at(f, name, pos, n) == dims_at(f, name, pos, k),
    decreases n,
{
    if k < n {
        dims_error(f, name, pos, k, (n - 1) as nat);
    }
}

fn read_dims(f: &GgufFile, name: &str, pos: u64, n: u64) -> (r: Result<
    ((Vec<usize>, u64), u64),
    GgufStop,
>)
    requires
        f@.wf(),
        pos <= f.file_len,
    ensures
        (match at(r) {
            Ok(((v, c), p)) => Ok(((v@, c as nat), p)),
            Err(e) => Err(e),
        }) == dims_at(f@, name@, pos as nat, n as nat),
        r matches Ok((_, p)) ==> p <= f.file_len,
{
    let mut shape: Vec<usize> = Vec::new();
    let mut count: u64 = 1;
    let mut p: u64 = pos;
    let mut i: u64 = 0;
    while i < n
        invariant
            f@.wf(),
            p <= f.file_len,
            i <= n,
            dims_at(f@, name@, pos as nat, i as nat) == Ok::<_, StopView>(
                ((shape@, count as nat), p as nat),
            ),
        decreases n - i,
    {
        let ghost next = dims_at(f@, name@, pos as nat, (i + 1) as nat);
        proof {
            if next is Err {
                dims_error(f@, name@, pos as nat, (i + 1) as nat, n as nat);
            }
        }
        let (dim, q): (u64, u64) = match read_number(f, p, 8) {
            Ok(v) => v,
            Err(e) => return Err(e),
        };
        if dim == 0 {
            return Err(tensor_refusal(f, name, String::from_str("` has a zero dimension")));
        }
        if dim > usize::MAX as u64 {
            return Err(
                tensor_refusal(
                    f,
                    name,
                    Text::new("` dimension ").n64(dim).s(" does not fit in usize").done(),
                ),
            );
        }
        match count.checked_mul(dim) {
            Some(c) => {
                count = c;
            },
            None => {
                return Err(
                    tensor_refusal(f, name, String::from_str("` element count overflows u64")),
                );
            },
        }
        shape.push(dim as usize);
        p = q;
        i = i + 1;
    }
    Ok(((shape, count), p))
}

/// The tensor description at `pos`, with its place in the file still open.
pub open spec fn tensor_at(f: FileView, alignment: u64, pos: nat) -> Result<
    (TensorView, nat),
    StopView,
> {
    match string_at(f, pos, "tensor name"@, MAX_TENSOR_NAME_BYTES as nat) {
        Err(e) => Err(e),
        Ok((name, p1)) => match number(f, p1, 4) {
            Err(e) => Err(e),
            Ok((n, p2)) => if n == 0 || n > MAX_TENSOR_DIMS {
                Err(
                    tensor_error(
                        f,
                        name,
                        "` has unsupported dimension count "@ + crate::text::dec(n),
                    ),
                )
            } else {
                match dims_at(f, name, p2, n) {
                    Err(e) => Err(e),
                    Ok(((shape, count), p3)) => match number(f, p3, 4) {
                        Err(e) => Err(e),
                        Ok((raw, p4)) => match number(f, p4, 8) {
                            Err(e) => Err(e),
                            Ok((offset, p5)) => tensor_of(
                                f,
                                alignment,
                                name,
                                shape,
                                count,
                                GgmlTensorType::of_raw(raw as u32),
                                offset,
                                p5,
                            ),
                        },
                    },
                }
            },
        },
    }
}

/// A tensor description from its parts.
pub open spec fn tensor_of(
    f: FileView,
    alignment: u64,
    name: Seq<char>,
    shape: Seq<usize>,
    count: nat,
    tensor_type: GgmlTensorType,
    offset: nat,
    end: nat,
) -> Result<(TensorView, nat), StopView> {
    if offset % (alignment as nat) != 0 {
        Err(
            tensor_error(
                f,
                name,
                "` offset "@ + crate::text::dec(offset) + " is not aligned to "@
                    + crate::text::dec(alignment as nat) + " bytes"@,
            ),
        )
    } else {
        match tensor_type.element_size() {
            Some(size) if count * size > u64::MAX => Err(
                tensor_error(f, name, "` byte length overflows u64"@),
            ),
            size => Ok(
                (
                    TensorView {
                        name,
                        shape,
                        tensor_type,
                        offset: offset as u64,
                        file_offset: 0,
                        byte_len: match size {
                            Some(s) => Some((count * s) as u64),
                            None => None,
                        },
                    },
                    end,
                ),
            ),
        }
    }
}

fn read_tensor(f: &GgufFile, alignment: u64, pos: u64) -> (r: Result<
    (GgufTensorEntry, u64),
    GgufStop,
>)
    requires
        f@.wf(),
        pos <= f.file_len,
        alignment > 0,
    ensures
        (match at(r) {
            Ok((t, p)) => Ok((t@, p)),
            Err(e) => Err(e),
        }) == tensor_at(f@, alignment, pos as nat),
        r matches Ok((_, p)) ==> p <= f.file_len,
{
    let (name, p1): (String, u64) = match read_string(
        f,
        pos,
        "tensor name",
        MAX_TENSOR_NAME_BYTES,
    ) {
        Ok(v) => v,
        Err(e) => return Err(e),
    };
    let (n, p2): (u64, u64) = match read_number(f, p1, 4) {
        Ok(v) => v,
        Err(e) => return Err(e),
    };
    if n == 0 || n > MAX_TENSOR_DIMS as u64 {
        return Err(
            tensor_refusal(
                f,
                name.as_str(),
                Text::new("` has unsupported dimension count ").n64(n).done(),
            ),
        );
    }
    let ((shape, count), p3): ((Vec<usize>, u64), u64) = match read_dims(f, name.as_str(), p2, n) {
        Ok(v) => v,
        Err(e) => return Err(e),
    };
    let (raw, p4): (u64, u64) = match read_number(f, p3, 4) {
        Ok(v) => v,
        Err(e) => return Err(e),
    };
    let tensor_type: GgmlTensorType = GgmlTensorType::from_raw(raw as u32);
    let (offset, p5): (u64, u64) = match read_number(f, p4, 8) {
        Ok(v) => v,
        Err(e) => return Err(e),
    };
    if offset % alignment != 0 {
        return Err(
            tensor_refusal(
                f,
                name.as_str(),
                Text::new("` offset ").n64(offset).s(" is not aligned to ").n64(alignment).s(
                    " bytes",
                ).done(),
            ),
        );
    }
    let byte_len: Option<u64> = match tensor_type.fixed_element_size() {
        None => None,
        Some(size) => match count.checked_mul(size) {
            Some(b) => Some(b),
            None => {
                return Err(
                    tensor_refusal(
                        f,
                        name.as_str(),
                        String::from_str("` byte length overflows u64"),
                    ),
                );
            },
        },
    };
    Ok((GgufTensorEntry { name, shape, tensor_type, offset, file_offset: 0, byte_len }, p5))
}

/// The `n` tensor descriptions from `pos` on.
pub open spec fn tensors_at(f: FileView, alignment: u64, pos: nat, n: nat) -> Result<
    (Seq<TensorView>, nat),
    StopView,
>
    decreases n,
{
    if n == 0 {
        Ok((Seq::empty(), pos))
    } else {
        match tensors_at(f, alignment, pos, (n - 1) as nat) {
            Err(e) => Err(e),
            Ok((s, p)) => match tensor_at(f, alignment, p) {
                Err(e) => Err(e),
                Ok((x, q)) => Ok((s.push(x), q)),
            },
        }
    }
}

proof fn tensors_error(f: FileView, alignment: u64, pos: nat, k: nat, n: nat)
    requires
        k <= n,
        tensors_at(f, alignment, pos, k) is Err,
    ensures
        tensors_at(f, alignment, pos, n) == tensors_at(f, alignment, pos, k),
    decreases n,
{
    if k < n {
        tensors_error(f, alignment, pos, k, (n - 1) as nat);
    }
}

fn read_tensors(f: &GgufFile, alignment: u64, pos: u64, n: u64) -> (r: Result<
    (Vec<GgufTensorEntry>, u64),
    GgufStop,
>)
    requires
        f@.wf(),
        pos <= f.file_len,
        alignment > 0,
    ensures
        (match at(r) {
            Ok((v, p)) => Ok((tensor_views(v@), p)),
            Err(e) => Err(e),
        }) == tensors_at(f@, alignment, pos as nat, n as nat),
        r matches Ok((_, p)) ==> p <= f.file_len,
{
    let mut v: Vec<GgufTensorEntry> = Vec::new();
    let mut p: u64 = pos;
    let mut i: u64 = 0;
    proof {
        assert(tensor_views(v@) =~= Seq::empty());
    }
    while i < n
        invariant
            f@.wf(),
            p <= f.file_len,
            alignment > 0,
            i <= n,
            tensors_at(f@, alignment, pos as nat, i as nat) == Ok::<_, StopView>(
                (tensor_views(v@), p as nat),
            ),
        decreases n - i,
    {
        match read_tensor(f, alignment, p) {
            Ok((x, q)) => {
                let ghost before = v@;
                v.push(x);
                p = q;
                proof {
                    assert(tensor_views(v@) =~= tensor_views(before).push(x@));
                }
            },
            Err(e) => {
                proof {
                    tensors_error(f@, alignment, pos as nat, i as nat + 1, n as nat);
                }
                return Err(e);
            },
        }
        i = i + 1;
    }
    Ok((v, p))
}

/// The least multiple of `alignment` that is not below `offset`.
pub open spec fn aligned(path: Seq<char>, offset: nat, alignment: nat) -> Result<nat, StopView> {
    if offset % alignment == 0 {
        Ok(offset)
    } else if offset + (alignment - offset % alignment) > u64::MAX {
        Err(invalid(path, "alignment"@, "GGUF aligned offset overflows u64"@))
    } else {
        Ok((offset + (alignment - offset % alignment)) as nat)
    }
}

/// Rounds an offset up to a multiple of the alignment.
pub fn align_offset(path: &str, offset: u64, alignment: u64) -> (r: Result<u64, GgufStop>)
    requires
        alignment > 0,
    ensures
        (match stopped(r) {
            Ok(p) => Ok(p as nat),
            Err(e) => Err(e),
        }) == aligned(path@, offset as nat, alignment as nat),
{
    let remainder: u64 = offset % alignment;
    if remainder == 0 {
        return Ok(offset);
    }
    match offset.checked_add(alignment - remainder) {
        Some(o) => Ok(o),
        None => Err(
            invalid_gguf(
                path,
                "alignment",
                String::from_str("GGUF aligned offset overflows u64"),
            ),
        ),
    }
}

/// A tensor put into the file; it may not reach beyond the end.
pub open spec fn placed(f: FileView, data_start: nat, t: TensorView) -> Result<
    TensorView,
    StopView,
> {
    let start = data_start + t.offset;
    if start > u64::MAX {
        Err(tensor_error(f, t.name, "` file offset overflows u64"@))
    } else if start > f.file_len {
        Err(
            tensor_error(
                f,
                t.name,
                "` starts at file offset "@ + crate::text::dec(start as nat)
                    + ", beyond file length "@ + crate::text::dec(f.file_len as nat),
            ),
        )
    } else {
        match t.byte_len {
            Some(len) if start + len > u64::MAX => Err(
                tensor_error(f, t.name, "` end offset overflows u64"@),
            ),
            Some(len) if start + len > f.file_len => Err(
                tensor_error(
                    f,
                    t.name,
                    "` byte range "@ + crate::text::dec(start as nat) + ".."@ + crate::text::dec(
                        (start + len) as nat,
                    ) + " exceeds file length "@ + crate::text::dec(f.file_len as nat),
                ),
            ),
            _ => Ok(TensorView { file_offset: start as u64, ..t }),
        }
    }
}

fn place(f: &GgufFile, data_start: u64, t: &GgufTensorEntry) -> (r: Result<u64, GgufStop>)
    ensures
        (match stopped(r) {
            Ok(o) => Ok((TensorView { file_offset: o, ..t@ })),
            Err(e) => Err(e),
        }) == placed(f@, data_start as nat, t@),
{
    let start: u64 = match data_start.checked_add(t.offset) {
        Some(s) => s,
        None => {
            return Err(
                tensor_refusal(
                    f,
                    t.name.as_str(),
                    String::from_str("` file offset overflows u64"),
                ),
            );
        },
    };
    if start > f.file_len {
        return Err(
            tensor_refusal(
                f,
                t.name.as_str(),
                Text::new("` starts at file offset ").n64(start).s(", beyond file length ").n64(
                    f.file_len,
                ).done(),
            ),
        );
    }
    match t.byte_len {
        None => Ok(start),
        Some(len) => match start.checked_add(len) {
            None => Err(
                tensor_refusal(f, t.name.as_str(), String::from_str("` end offset overflows u64")),
            ),
            Some(end) => if end > f.file_len {
                Err(
                    tensor_refusal(
                        f,
                        t.name.as_str(),
                        Text::new("` byte range ").n64(start).s("..").n64(end).s(
                            " exceeds file length ",
                        ).n64(f.file_len).done(),
                    ),
                )
            } else {
                Ok(start)
            },
        },
    }
}

/// The first `n` tensors put into the file.
pub open spec fn all_placed(f: FileView, data_start: nat, v: Seq<TensorView>, n: nat) -> Result<
    Seq<TensorView>,
    StopView,
>
    decreases n,
{
    if n == 0 {
        Ok(Seq::empty())
    } else {
        match all_placed(f, data_start, v, (n - 1) as nat) {
            Err(e) => Err(e),
            Ok(s) => match placed(f, data_start, v[n - 1]) {
                Err(e) => Err(e),
                Ok(t) => Ok(s.push(t)),
            },
        }
    }
}

proof fn all_placed_error(f: FileView, data_start: nat, v: Seq<TensorView>, k: nat, n: nat)
    requires
        k <= n,
        all_placed(f, data_start, v, k) is Err,
    ensures
        all_placed(f, data_start, v, n) == all_placed(f, data_start, v, k),
    decreases n,
{
    if k < n {
        all_placed_error(f, data_start, v, k, (n - 1) as nat);
    }
}

fn place_all(f: &GgufFile, data_start: u64, tensors: Vec<GgufTensorEntry>) -> (r: Result<
    Vec<GgufTensorEntry>,
    GgufStop,
>)
    ensures
        (match stopped(r) {
            Ok(v) => Ok(tensor_views(v@)),
            Err(e) => Err(e),
        }) == all_placed(
            f@,
            data_start as nat,
            tensor_views(tensors@),
            tensors@.len(),
        ),
{
    let ghost before = tensor_views(tensors@);
    let mut out = tensors;
    let n: usize = out.len();
    let mut i: usize = 0;
    proof {
        assert(tensor_views(out@).take(0) =~= Seq::empty());
    }
    while i < n
        invariant
            i <= n == out@.len() == before.len(),
            n == tensors@.len(),
            before == tensor_views(tensors@),
            all_placed(f@, data_start as nat, before, i as nat) == Ok::<_, StopView>(
                tensor_views(out@).take(i as int),
            ),
            forall|k: int| i <= k < n ==> #[trigger] out@[k]@ == before[k],
        decreases n - i,
    {
        let ghost was = out@;
        match place(f, data_start, &out[i]) {
            Ok(o) => {
                out[i].file_offset = o;
                proof {
                    let t = TensorView { file_offset: o, ..was[i as int]@ };
                    assert(out@[i as int]@ == t);
                    assert(tensor_views(out@).take(i + 1) =~= tensor_views(was).take(
                        i as int,
                    ).push(t));
                }
            },
            Err(e) => {
                proof {
                    all_placed_error(f@, data_start as nat, before, i as nat + 1, n as nat);
                }
                return Err(e);
            },
        }
        i = i + 1;
    }
    proof {
        assert(tensor_views(out@).take(n as int) =~= tensor_views(out@));
    }
    Ok(out)
}

/// The head of an artifact: magic, version, and the two counts.
pub open spec fn head(f: FileView) -> Result<((nat, nat), nat), StopView> {
    match need(f, 0, 4) {
        Some(e) => Err(e),
        None => {
            let magic = f.prefix.subrange(0, 4);
            if magic != seq![0x47u8, 0x47u8, 0x55u8, 0x46u8] {
                Err(
                    invalid(
                        f.path,
                        "magic"@,
                        "invalid GGUF magic bytes: "@ + ("["@ + crate::text::dec_list(
                            magic.map_values(|b: u8| b as usize),
                        ) + "]"@),
                    ),
                )
            } else {
                match number(f, 4, 4) {
                    Err(e) => Err(e),
                    Ok((version, _)) => if version != SUPPORTED_GGUF_VERSION {
                        Err(
                            StopView::Refused(
                                crate::error::ErrorView::Unsupported {
                                    feature: "gguf_version"@,
                                    requested: Some(crate::text::dec(version)),
                                    supported: seq![
                                        crate::text::dec(SUPPORTED_GGUF_VERSION as nat),
                                    ],
                                },
                            ),
                        )
                    } else {
                        match number(f, 8, 8) {
                            Err(e) => Err(e),
                            Ok((tensors, _)) => match number(f, 16, 8) {
                                Err(e) => Err(e),
                                Ok((entries, _)) => counts(f, tensors, entries),
                            },
                        }
                    },
                }
            }
        },
    }
}

/// The two counts, if neither is too large.
pub open spec fn counts(f: FileView, tensors: nat, entries: nat) -> Result<
    ((nat, nat), nat),
    StopView,
> {
    if tensors > MAX_TENSORS {
        Err(
            invalid(
                f.path,
                "tensor_count"@,
                "GGUF tensor_count "@ + crate::text::dec(tensors) + " exceeds max "@
                    + crate::text::dec(MAX_TENSORS as nat),
            ),
        )
    } else if entries > MAX_METADATA_ENTRIES {
        Err(
            invalid(
                f.path,
                "metadata_kv_count"@,
                "GGUF metadata_kv_count "@ + crate::text::dec(entries) + " exceeds max "@
                    + crate::text::dec(MAX_METADATA_ENTRIES as nat),
            ),
        )
    } else {
        Ok(((tensors, entries), 24))
    }
}

fn read_head(f: &GgufFile) -> (r: Result<((u64, u64), u64), GgufStop>)
    requires
        f@.wf(),
    ensures
        (match at(r) {
            Ok(((t, n), p)) => Ok(((t as nat, n as nat), p)),
            Err(e) => Err(e),
        }) == head(f@),
        r matches Ok((_, p)) ==> p <= f.file_len,
{
    match check_bytes(f, 0, 4) {
        Some(e) => return Err(e),
        None => {},
    }
    let ghost magic = f@.prefix.subrange(0, 4);
    let b: [u8; 4] = [f.prefix[0], f.prefix[1], f.prefix[2], f.prefix[3]];
    proof {
        assert(b@ =~= magic);
    }
    if b[0] != 0x47 || b[1] != 0x47 || b[2] != 0x55 || b[3] != 0x46 {
        let shown: [usize; 4] = [b[0] as usize, b[1] as usize, b[2] as usize, b[3] as usize];
        proof {
            assert(shown@ =~= magic.map_values(|b: u8| b as usize));
            let wanted = seq![0x47u8, 0x47u8, 0x55u8, 0x46u8];
            assert(b@[0] != wanted[0] || b@[1] != wanted[1] || b@[2] != wanted[2] || b@[3]
                != wanted[3]);
        }
        return Err(
            invalid_gguf(
                f.path,
                "magic",
                Text::new("invalid GGUF magic bytes: ").list(&shown).done(),
            ),
        );
    }
    proof {
        assert(magic =~= seq![0x47u8, 0x47u8, 0x55u8, 0x46u8]);
    }
    let (version, _): (u64, u64) = match read_number(f, 4, 4) {
        Ok(v) => v,
        Err(e) => return Err(e),
    };
    if version != SUPPORTED_GGUF_VERSION as u64 {
        let mut supported: Vec<String> = Vec::new();
        supported.push(Text::new("").n64(SUPPORTED_GGUF_VERSION as u64).done());
        let requested: String = Text::new("").n64(version).done();
        proof {
            reveal_strlit("");
            let three = crate::text::dec(SUPPORTED_GGUF_VERSION as nat);
            assert(""@ + three =~= three);
            assert(""@ + crate::text::dec(version as nat) =~= crate::text::dec(version as nat));
            assert(crate::text::words(supported@) =~= seq![three]);
        }
        return Err(
            GgufStop::Refused(
                OcelotlError::Unsupported(
                    UnsupportedError {
                        feature: String::from_str("gguf_version"),
                        requested: Some(requested),
                        supported,
                    },
                ),
            ),
        );
    }
    let (tensors, _): (u64, u64) = match read_number(f, 8, 8) {
        Ok(v) => v,
        Err(e) => return Err(e),
    };
    let (entries, _): (u64, u64) = match read_number(f, 16, 8) {
        Ok(v) => v,
        Err(e) => return Err(e),
    };
    if tensors > MAX_TENSORS {
        return Err(
            invalid_gguf(
                f.path,
                "tensor_count",
                Text::new("GGUF tensor_count ").n64(tensors).s(" exceeds max ").n64(
                    MAX_TENSORS,
                ).done(),
            ),
        );
    }
    if entries > MAX_METADATA_ENTRIES {
        return Err(
            invalid_gguf(
                f.path,
                "metadata_kv_count",
                Text::new("GGUF metadata_kv_count ").n64(entries).s(" exceeds max ").n64(
                    MAX_METADATA_ENTRIES,
                ).done(),
            ),
        );
    }
    Ok(((tensors, entries), 24))
}

/// The refusal of an artifact that ends before its tensor data starts.
pub open spec fn data_start_error(f: FileView, data_start: nat) -> StopView {
    invalid(
        f.path,
        "tensor_data"@,
        "GGUF tensor data section starts at "@ + crate::text::dec(data_start)
            + ", beyond file length "@ + crate::text::dec(f.file_len as nat),
    )
}

/// The header of an artifact.
pub open spec fn manifest_of(f: FileView) -> Result<ManifestView, StopView> {
    match head(f) {
        Err(e) => Err(e),
        Ok(((tensor_count, entry_count), p0)) => match entries_at(f, p0, entry_count) {
            Err(e) => Err(e),
            Ok((metadata, p1)) => match alignment_of(f.path, metadata) {
                Err(e) => Err(e),
                Ok(alignment) => match tensors_at(f, alignment, p1, tensor_count) {
                    Err(e) => Err(e),
                    Ok((tensors, p2)) => match aligned(f.path, p2, alignment as nat) {
                        Err(e) => Err(e),
                        Ok(data_start) => if data_start > f.file_len {
                            Err(data_start_error(f, data_start))
                        } else {
                            match all_placed(f, data_start, tensors, tensors.len()) {
                                Err(e) => Err(e),
                                Ok(tensors) => Ok(
                                    ManifestView {
                                        version: SUPPORTED_GGUF_VERSION,
                                        metadata,
                                        tensors,
                                        alignment,
                                        data_start: data_start as u64,
                                        file_len: f.file_len,
                                    },
                                ),
                            }
                        },
                    },
                },
            },
        },
    }
}

/// Inspects an artifact of which only the start is here. Tensor data is never
/// looked at: the result asks for more bytes only up to the end of the header.
pub fn inspect_gguf_prefix(f: &GgufFile) -> (r: Result<GgufManifest, GgufStop>)
    requires
        f@.wf(),
    ensures
        (match stopped(r) {
            Ok(m) => Ok(m@),
            Err(e) => Err(e),
        }) == manifest_of(f@),
{
    let ((tensor_count, entry_count), p0): ((u64, u64), u64) = match read_head(f) {
        Ok(v) => v,
        Err(e) => return Err(e),
    };
    let (metadata, p1): (Vec<GgufMetadataEntry>, u64) = match read_entries(f, p0, entry_count) {
        Ok(v) => v,
        Err(e) => return Err(e),
    };
    let alignment: u64 = match alignment_from_metadata(f.path, &metadata) {
        Ok(a) => a,
        Err(e) => return Err(e),
    };
    let (tensors, p2): (Vec<GgufTensorEntry>, u64) = match read_tensors(
        f,
        alignment,
        p1,
        tensor_count,
    ) {
        Ok(v) => v,
        Err(e) => return Err(e),
    };
    let data_start: u64 = match align_offset(f.path, p2, alignment) {
        Ok(d) => d,
        Err(e) => return Err(e),
    };
    if data_start > f.file_len {
        return Err(
            invalid_gguf(
                f.path,
                "tensor_data",
                Text::new("GGUF tensor data section starts at ").n64(data_start).s(
                    ", beyond file length ",
                ).n64(f.file_len).done(),
            ),
        );
    }
    let placed_tensors: Vec<GgufTensorEntry> = match place_all(f, data_start, tensors) {
        Ok(v) => v,
        Err(e) => return Err(e),
    };
    Ok(
        GgufManifest {
            version: SUPPORTED_GGUF_VERSION,
            metadata,
            tensors: placed_tensors,
            alignment,
            data_start,
            file_len: f.file_len,
        },
    )
}

/// Inspects an artifact that is here as a whole.
pub fn inspect_gguf<F: FloatText>(text: &F, path: &str, bytes: &[u8]) -> (r: Result<
    GgufManifest,
    OcelotlError,
>)
    ensures
        match manifest_of(
            FileView { path: path@, prefix: bytes@, file_len: bytes@.len() as u64 },
        ) {
            Ok(m) => r matches Ok(found) && found@ == m,
            Err(stop) => r matches Err(e) && stop_error(text, path@, stop, e@),
        },
{
    let file = GgufFile { path, prefix: bytes, file_len: bytes.len() as u64 };
    proof {
        crate::gguf_laws::whole_files_suffice(file@);
    }
    match inspect_gguf_prefix(&file) {
        Ok(m) => Ok(m),
        Err(stop) => Err(refusal_of(text, path, stop)),
    }
}

} // verus!
