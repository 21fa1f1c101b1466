use vstd::prelude::*;

use crate::gguf::{FileView, GgmlTensorType, ManifestView, StopView, TensorView, ValueView};

verus! {

/// The `n` bytes of a number, the low ones first.
pub open spec fn le_bytes(v: nat, n: nat) -> Seq<u8>
    decreases n,
{
    if n == 0 {
        Seq::empty()
    } else {
        seq![(v % 256) as u8] + le_bytes(v / 256, (n - 1) as nat)
    }
}

/// A number comes back from its bytes.
pub proof fn numbers_round_trip(v: nat, n: nat)
    requires
        v < crate::bytes::pow256(n),
    ensures
        le_bytes(v, n).len() == n,
        crate::bytes::le_value(le_bytes(v, n)) == v,
    decreases n,
{
    if n > 0 {
        let k = (n - 1) as nat;
        let p = crate::bytes::pow256(k);
        assert(v / 256 < p) by (nonlinear_arith)
            requires
                v < 256 * p,
        ;
        numbers_round_trip(v / 256, k);
        let s = le_bytes(v, n);
        assert(s.drop_first() =~= le_bytes(v / 256, k));
        assert(s[0] == (v % 256) as u8);
    }
}

proof fn widths()
    ensures
        crate::bytes::pow256(1) == 0x100,
        crate::bytes::pow256(2) == 0x1_0000,
        crate::bytes::pow256(4) == 0x1_0000_0000,
        crate::bytes::pow256(8) == 0x1_0000_0000_0000_0000,
{
    reveal_with_fuel(crate::bytes::pow256, 9);
}

/// The file holds these bytes at `pos`.
pub open spec fn holds(f: FileView, pos: int, bytes: Seq<u8>) -> bool {
    &&& 0 <= pos
    &&& pos + bytes.len() <= f.prefix.len()
    &&& f.prefix.subrange(pos, pos + bytes.len()) == bytes
}

proof fn holds_parts(f: FileView, pos: int, a: Seq<u8>, b: Seq<u8>)
    requires
        holds(f, pos, a + b),
    ensures
        holds(f, pos, a),
        holds(f, pos + a.len(), b),
{
    let whole = f.prefix.subrange(pos, pos + (a + b).len());
    assert forall|i: int| 0 <= i < a.len() implies f.prefix[pos + i] == a[i] by {
        assert(whole[i] == (a + b)[i]);
    }
    assert forall|i: int| 0 <= i < b.len() implies f.prefix[pos + a.len() + i] == b[i] by {
        assert(whole[a.len() + i] == (a + b)[a.len() + i]);
    }
    assert(f.prefix.subrange(pos, pos + a.len()) =~= a);
    assert(f.prefix.subrange(pos + a.len(), pos + a.len() + b.len()) =~= b);
}

proof fn number_reads(f: FileView, pos: nat, v: nat, n: nat)
    requires
        f.wf(),
        v < crate::bytes::pow256(n),
        holds(f, pos as int, le_bytes(v, n)),
    ensures
        crate::gguf::number(f, pos, n) == Ok::<(nat, nat), StopView>((v, pos + n)),
        le_bytes(v, n).len() == n,
{
    numbers_round_trip(v, n);
}

/// A string: the number of its bytes in eight bytes, and its bytes.
pub open spec fn written_string(s: Seq<char>) -> Seq<u8> {
    le_bytes(vstd::utf8::encode_utf8(s).len(), 8) + vstd::utf8::encode_utf8(s)
}

proof fn string_reads(f: FileView, pos: nat, field: Seq<char>, max_len: nat, s: Seq<char>)
    requires
        f.wf(),
        vstd::utf8::encode_utf8(s).len() <= max_len,
        vstd::utf8::encode_utf8(s).len() <= 16_777_216,
        holds(f, pos as int, written_string(s)),
    ensures
        crate::gguf::string_at(f, pos, field, max_len) == Ok::<(Seq<char>, nat), StopView>(
            (s, pos + written_string(s).len()),
        ),
{
    let bytes = vstd::utf8::encode_utf8(s);
    widths();
    holds_parts(f, pos as int, le_bytes(bytes.len(), 8), bytes);
    number_reads(f, pos, bytes.len(), 8);
    vstd::utf8::encode_utf8_valid_utf8(s);
    vstd::utf8::encode_utf8_decode_utf8(s);
}

/// The tag of a value's type.
pub open spec fn written_tag(v: ValueView) -> nat {
    match v {
        ValueView::U8(_) => 0,
        ValueView::I8(_) => 1,
        ValueView::U16(_) => 2,
        ValueView::I16(_) => 3,
        ValueView::U32(_) => 4,
        ValueView::I32(_) => 5,
        ValueView::F32(_) => 6,
        ValueView::Bool(_) => 7,
        ValueView::String(_) => 8,
        ValueView::Array { .. } => 9,
        ValueView::U64(_) => 10,
        ValueView::I64(_) => 11,
        ValueView::F64(_) => 12,
    }
}

/// A signed number in two's complement: a negative one is written as the number
/// that is greater by `full`.
pub open spec fn complement(x: int, full: int) -> nat {
    if x < 0 {
        (x + full) as nat
    } else {
        x as nat
    }
}

/// The bytes of a value that is no array.
pub open spec fn written_value(v: ValueView) -> Seq<u8> {
    match v {
        ValueView::U8(x) => le_bytes(x as nat, 1),
        ValueView::I8(x) => le_bytes(complement(x as int, 0x100), 1),
        ValueView::U16(x) => le_bytes(x as nat, 2),
        ValueView::I16(x) => le_bytes(complement(x as int, 0x1_0000), 2),
        ValueView::U32(x) => le_bytes(x as nat, 4),
        ValueView::I32(x) => le_bytes(complement(x as int, 0x1_0000_0000), 4),
        ValueView::F32(bits) => le_bytes(bits as nat, 4),
        ValueView::Bool(b) => le_bytes(
            if b {
                1
            } else {
                0
            },
            1,
        ),
        ValueView::String(s) => written_string(s),
        ValueView::Array { .. } => Seq::empty(),
        ValueView::U64(x) => le_bytes(x as nat, 8),
        ValueView::I64(x) => le_bytes(complement(x as int, 0x1_0000_0000_0000_0000), 8),
        ValueView::F64(bits) => le_bytes(bits as nat, 8),
    }
}

/// A value that can be written: no array, and no string above the limit.
pub open spec fn writable(v: ValueView) -> bool {
    match v {
        ValueView::Array { .. } => false,
        ValueView::String(s) => vstd::utf8::encode_utf8(s).len() <= 16_777_216,
        _ => true,
    }
}

/// A value comes back from its tag and its bytes.
pub proof fn values_round_trip(f: FileView, pos: nat, field: Seq<char>, v: ValueView)
    requires
        f.wf(),
        writable(v),
        holds(f, pos as int, written_value(v)),
    ensures
        crate::gguf::GgufMetadataType::of_raw(written_tag(v), f.path, field) matches Ok(t)
            && crate::gguf::value_at(f, t, pos) == Ok::<(ValueView, nat), StopView>(
            (v, pos + written_value(v).len()),
        ),
{
    widths();
    match v {
        ValueView::U8(x) => number_reads(f, pos, x as nat, 1),
        ValueView::I8(x) => number_reads(f, pos, complement(x as int, 0x100), 1),
        ValueView::U16(x) => number_reads(f, pos, x as nat, 2),
        ValueView::I16(x) => number_reads(f, pos, complement(x as int, 0x1_0000), 2),
        ValueView::U32(x) => number_reads(f, pos, x as nat, 4),
        ValueView::I32(x) => number_reads(f, pos, complement(x as int, 0x1_0000_0000), 4),
        ValueView::F32(bits) => number_reads(f, pos, bits as nat, 4),
        ValueView::Bool(b) => number_reads(
            f,
            pos,
            if b {
                1
            } else {
                0
            },
            1,
        ),
        ValueView::String(s) => string_reads(f, pos, "metadata string"@, 16_777_216, s),
        ValueView::Array { .. } => {},
        ValueView::U64(x) => number_reads(f, pos, x as nat, 8),
        ValueView::I64(x) => number_reads(
            f,
            pos,
            complement(x as int, 0x1_0000_0000_0000_0000),
            8,
        ),
        ValueView::F64(bits) => number_reads(f, pos, bits as nat, 8),
    }
}

/// A metadata entry: key, tag and value.
pub open spec fn written_entry(e: (Seq<char>, ValueView)) -> Seq<u8> {
    written_string(e.0) + (le_bytes(written_tag(e.1), 4) + written_value(e.1))
}

/// An entry that can be written.
pub open spec fn entry_writable(e: (Seq<char>, ValueView)) -> bool {
    writable(e.1) && vstd::utf8::encode_utf8(e.0).len() <= 65_535
}

proof fn entry_reads(f: FileView, pos: nat, e: (Seq<char>, ValueView))
    requires
        f.wf(),
        entry_writable(e),
        holds(f, pos as int, written_entry(e)),
    ensures
        crate::gguf::entry_at(f, pos) == Ok::<((Seq<char>, ValueView), nat), StopView>(
            (e, pos + written_entry(e).len()),
        ),
{
    widths();
    let (key, tag, value) = (
        written_string(e.0),
        le_bytes(written_tag(e.1), 4),
        written_value(e.1),
    );
    holds_parts(f, pos as int, key, tag + value);
    holds_parts(f, (pos + key.len()) as int, tag, value);
    string_reads(f, pos, "metadata key"@, 65_535, e.0);
    number_reads(f, pos + key.len(), written_tag(e.1), 4);
    values_round_trip(f, pos + key.len() + 4, e.0, e.1);
}

/// Metadata entries, one after the other.
pub open spec fn written_entries(s: Seq<(Seq<char>, ValueView)>) -> Seq<u8>
    decreases s.len(),
{
    if s.len() == 0 {
        Seq::empty()
    } else {
        written_entries(s.drop_last()) + written_entry(s.last())
    }
}

proof fn entries_read(f: FileView, pos: nat, s: Seq<(Seq<char>, ValueView)>)
    requires
        f.wf(),
        forall|i: int| 0 <= i < s.len() ==> entry_writable(#[trigger] s[i]),
        holds(f, pos as int, written_entries(s)),
    ensures
        crate::gguf::entries_at(f, pos, s.len()) == Ok::<
            (Seq<(Seq<char>, ValueView)>, nat),
            StopView,
        >((s, pos + written_entries(s).len())),
    decreases s.len(),
{
    if s.len() == 0 {
        assert(s =~= Seq::empty());
    } else {
        let rest = s.drop_last();
        holds_parts(f, pos as int, written_entries(rest), written_entry(s.last()));
        entries_read(f, pos, rest);
        entry_reads(f, pos + written_entries(rest).len(), s.last());
        assert(rest.push(s.last()) =~= s);
    }
}

/// What the header says of a tensor.
pub struct TensorLine {
    pub name: Seq<char>,
    pub shape: Seq<usize>,
    pub raw: u32,
    pub offset: u64,
}

/// The extents of a tensor, eight bytes each.
pub open spec fn written_dims(shape: Seq<usize>) -> Seq<u8>
    decreases shape.len(),
{
    if shape.len() == 0 {
        Seq::empty()
    } else {
        written_dims(shape.drop_last()) + le_bytes(shape.last() as nat, 8)
    }
}

proof fn dims_read(f: FileView, name: Seq<char>, pos: nat, shape: Seq<usize>)
    requires
        f.wf(),
        forall|i: int| 0 <= i < shape.len() ==> #[trigger] shape[i] > 0,
        crate::kv_cache::product(shape) <= u64::MAX,
        holds(f, pos as int, written_dims(shape)),
    ensures
        crate::gguf::dims_at(f, name, pos, shape.len()) == Ok::<
            ((Seq<usize>, nat), nat),
            StopView,
        >(((shape, crate::kv_cache::product(shape)), pos + written_dims(shape).len())),
    decreases shape.len(),
{
    if shape.len() == 0 {
        assert(shape =~= Seq::empty());
    } else {
        widths();
        let rest = shape.drop_last();
        let (a, b) = (crate::kv_cache::product(rest) as int, shape.last() as int);
        assert(shape[shape.len() - 1] > 0);
        assert(a <= a * b) by (nonlinear_arith)
            requires
                a >= 0,
                b >= 1,
        ;
        holds_parts(f, pos as int, written_dims(rest), le_bytes(shape.last() as nat, 8));
        assert forall|i: int| 0 <= i < rest.len() implies #[trigger] rest[i] > 0 by {
            assert(shape[i] > 0);
        }
        dims_read(f, name, pos, rest);
        number_reads(f, pos + written_dims(rest).len(), shape.last() as nat, 8);
        assert(rest.push(shape.last()) =~= shape);
    }
}

/// The description of a tensor: name, number of extents, extents, type tag, and
/// offset in the tensor data.
pub open spec fn written_tensor(t: TensorLine) -> Seq<u8> {
    written_string(t.name) + (le_bytes(t.shape.len(), 4) + (written_dims(t.shape) + (le_bytes(
        t.raw as nat,
        4,
    ) + le_bytes(t.offset as nat, 8))))
}

/// A description that can be written, with the given alignment.
pub open spec fn tensor_writable(t: TensorLine, alignment: u64) -> bool {
    &&& vstd::utf8::encode_utf8(t.name).len() <= 65_535
    &&& 1 <= t.shape.len() <= 8
    &&& forall|i: int| 0 <= i < t.shape.len() ==> #[trigger] t.shape[i] > 0
    &&& crate::kv_cache::product(t.shape) <= u64::MAX
    &&& t.offset as nat % alignment as nat == 0
    &&& GgmlTensorType::of_raw(t.raw).element_size() matches Some(size)
        ==> crate::kv_cache::product(t.shape) * size <= u64::MAX
}

/// The tensor that a line describes, not yet put into the file.
pub open spec fn described(t: TensorLine) -> TensorView {
    TensorView {
        name: t.name,
        shape: t.shape,
        tensor_type: GgmlTensorType::of_raw(t.raw),
        offset: t.offset,
        file_offset: 0,
        byte_len: match GgmlTensorType::of_raw(t.raw).element_size() {
            Some(size) => Some((crate::kv_cache::product(t.shape) * size) as u64),
            None => None,
        },
    }
}

proof fn tensor_reads(f: FileView, alignment: u64, pos: nat, t: TensorLine)
    requires
        f.wf(),
        tensor_writable(t, alignment),
        holds(f, pos as int, written_tensor(t)),
    ensures
        crate::gguf::tensor_at(f, alignment, pos) == Ok::<(TensorView, nat), StopView>(
            (described(t), pos + written_tensor(t).len()),
        ),
{
    widths();
    let (name, count, dims, tag, offset) = (
        written_string(t.name),
        le_bytes(t.shape.len(), 4),
        written_dims(t.shape),
        le_bytes(t.raw as nat, 4),
        le_bytes(t.offset as nat, 8),
    );
    holds_parts(f, pos as int, name, count + (dims + (tag + offset)));
    let p1 = pos + name.len();
    holds_parts(f, p1 as int, count, dims + (tag + offset));
    string_reads(f, pos, "tensor name"@, 65_535, t.name);
    number_reads(f, p1, t.shape.len(), 4);
    let p2 = p1 + 4;
    holds_parts(f, p2 as int, dims, tag + offset);
    dims_read(f, t.name, p2, t.shape);
    let p3 = p2 + dims.len();
    holds_parts(f, p3 as int, tag, offset);
    number_reads(f, p3, t.raw as nat, 4);
    number_reads(f, p3 + 4, t.offset as nat, 8);
}

/// Descriptions of tensors, one after the other.
pub open spec fn written_tensors(s: Seq<TensorLine>) -> Seq<u8>
    decreases s.len(),
{
    if s.len() == 0 {
        Seq::empty()
    } else {
        written_tensors(s.drop_last()) + written_tensor(s.last())
    }
}

proof fn tensors_read(f: FileView, alignment: u64, pos: nat, s: Seq<TensorLine>)
    requires
        f.wf(),
        forall|i: int| 0 <= i < s.len() ==> tensor_writable(#[trigger] s[i], alignment),
        holds(f, pos as int, written_tensors(s)),
    ensures
        crate::gguf::tensors_at(f, alignment, pos, s.len()) == Ok::<
            (Seq<TensorView>, nat),
            StopView,
        >((s.map_values(|t: TensorLine| described(t)), pos + written_tensors(s).len())),
    decreases s.len(),
{
    let all = s.map_values(|t: TensorLine| described(t));
    if s.len() == 0 {
        assert(all =~= Seq::empty());
    } else {
        let rest = s.drop_last();
        holds_parts(f, pos as int, written_tensors(rest), written_tensor(s.last()));
        assert forall|i: int| 0 <= i < rest.len() implies tensor_writable(
            #[trigger] rest[i],
            alignment,
        ) by {
            assert(tensor_writable(s[i], alignment));
        }
        tensors_read(f, alignment, pos, rest);
        assert(tensor_writable(s[s.len() - 1], alignment));
        tensor_reads(f, alignment, pos + written_tensors(rest).len(), s.last());
        assert(rest.map_values(|t: TensorLine| described(t)).push(described(s.last())) =~= all);
    }
}

/// The header of an artifact: `GGUF`, version three, the numbers of tensors and of
/// metadata entries, the entries and the descriptions of the tensors.
pub open spec fn written_header(
    metadata: Seq<(Seq<char>, ValueView)>,
    tensors: Seq<TensorLine>,
) -> Seq<u8> {
    seq![0x47u8, 0x47u8, 0x55u8, 0x46u8] + (le_bytes(3, 4) + (le_bytes(tensors.len(), 8) + (le_bytes(
        metadata.len(),
        8,
    ) + (written_entries(metadata) + written_tensors(tensors)))))
}

proof fn places_keep_order(f: FileView, data_start: nat, v: Seq<TensorView>, n: nat)
    requires
        n <= v.len(),
        crate::gguf::all_placed(f, data_start, v, n) is Ok,
    ensures
        crate::gguf::all_placed(f, data_start, v, n)->Ok_0.len() == n,
        forall|i: int|
            0 <= i < n ==> #[trigger] crate::gguf::all_placed(f, data_start, v, n)->Ok_0[i] == (
            TensorView { file_offset: (data_start + v[i].offset) as u64, ..v[i] }),
    decreases n,
{
    if n > 0 {
        places_keep_order(f, data_start, v, (n - 1) as nat);
    }
}

proof fn all_fit(f: FileView, data_start: nat, v: Seq<TensorView>, n: nat)
    requires
        n <= v.len(),
        forall|i: int|
            0 <= i < n ==> data_start + (#[trigger] v[i]).offset + (match v[i].byte_len {
                Some(len) => len as int,
                None => 0,
            }) <= f.file_len,
    ensures
        crate::gguf::all_placed(f, data_start, v, n) is Ok,
    decreases n,
{
    if n > 0 {
        all_fit(f, data_start, v, (n - 1) as nat);
        let t = v[n - 1];
        assert(data_start + t.offset <= f.file_len);
    }
}

proof fn head_reads(f: FileView, tensors: nat, entries: nat, rest: Seq<u8>)
    requires
        f.wf(),
        tensors <= 2_000_000,
        entries <= 200_000,
        holds(
            f,
            0,
            seq![0x47u8, 0x47u8, 0x55u8, 0x46u8] + (le_bytes(3, 4) + (le_bytes(tensors, 8) + (
            le_bytes(entries, 8) + rest))),
        ),
    ensures
        crate::gguf::head(f) == Ok::<((nat, nat), nat), StopView>(((tensors, entries), 24)),
        holds(f, 24, rest),
{
    widths();
    let magic = seq![0x47u8, 0x47u8, 0x55u8, 0x46u8];
    let (version, t, e) = (le_bytes(3, 4), le_bytes(tensors, 8), le_bytes(entries, 8));
    holds_parts(f, 0, magic, version + (t + (e + rest)));
    holds_parts(f, 4, version, t + (e + rest));
    number_reads(f, 4, 3, 4);
    holds_parts(f, 8, t, e + rest);
    number_reads(f, 8, tensors, 8);
    holds_parts(f, 16, e, rest);
    number_reads(f, 16, entries, 8);
}

/// What is written into a header is read out of it: a file that starts with the
/// header of some metadata and tensors, and that holds every tensor, has a manifest
/// with that metadata and those tensors, each at its offset from where the tensor
/// data starts: at the first multiple of the alignment behind the header. The
/// metadata holds no arrays, and nothing is above its limit.
pub proof fn headers_round_trip(
    f: FileView,
    metadata: Seq<(Seq<char>, ValueView)>,
    tensors: Seq<TensorLine>,
    alignment: u64,
    data_start: nat,
)
    requires
        f.wf(),
        metadata.len() <= 200_000,
        tensors.len() <= 2_000_000,
        forall|i: int| 0 <= i < metadata.len() ==> entry_writable(#[trigger] metadata[i]),
        crate::gguf::alignment_of(f.path, metadata) == Ok::<u64, StopView>(alignment),
        forall|i: int| 0 <= i < tensors.len() ==> tensor_writable(#[trigger] tensors[i], alignment),
        holds(f, 0, written_header(metadata, tensors)),
        data_start % alignment as nat == 0,
        written_header(metadata, tensors).len() <= data_start < written_header(
            metadata,
            tensors,
        ).len() + alignment,
        data_start <= f.file_len,
        forall|i: int|
            0 <= i < tensors.len() ==> data_start + (#[trigger] tensors[i]).offset + (
            match described(tensors[i]).byte_len {
                Some(len) => len as int,
                None => 0,
            }) <= f.file_len,
    ensures
        crate::gguf::manifest_of(f) matches Ok(m) && m.version == 3 && m.metadata == metadata
            && m.alignment == alignment && m.data_start == data_start && m.file_len == f.file_len
            && m.tensors.len() == tensors.len() && forall|i: int|
            0 <= i < tensors.len() ==> {
                let t = #[trigger] m.tensors[i];
                &&& t.name == tensors[i].name
                &&& t.shape == tensors[i].shape
                &&& t.tensor_type == GgmlTensorType::of_raw(tensors[i].raw)
                &&& t.offset == tensors[i].offset
                &&& t.file_offset == data_start + tensors[i].offset
            },
{
    widths();
    let body = written_entries(metadata) + written_tensors(tensors);
    head_reads(f, tensors.len(), metadata.len(), body);
    holds_parts(f, 24, written_entries(metadata), written_tensors(tensors));
    entries_read(f, 24, metadata);
    let p1 = 24 + written_entries(metadata).len();
    tensors_read(f, alignment, p1, tensors);
    let p2 = p1 + written_tensors(tensors).len();
    numbers_round_trip(3, 4);
    numbers_round_trip(tensors.len(), 8);
    numbers_round_trip(metadata.len(), 8);
    assert(written_header(metadata, tensors).len() == p2);
    first_multiple(f.path, p2, alignment as nat, data_start);
    let v = tensors.map_values(|t: TensorLine| described(t));
    assert forall|i: int| 0 <= i < v.len() implies data_start + (#[trigger] v[i]).offset + (
    match v[i].byte_len {
        Some(len) => len as int,
        None => 0,
    }) <= f.file_len by {
        assert(v[i] == described(tensors[i]));
    }
    all_fit(f, data_start, v, v.len());
    places_keep_order(f, data_start, v, v.len());
    let m = crate::gguf::manifest_of(f)->Ok_0;
    assert forall|i: int| 0 <= i < tensors.len() implies {
        let t = #[trigger] m.tensors[i];
        &&& t.name == tensors[i].name
        &&& t.shape == tensors[i].shape
        &&& t.tensor_type == GgmlTensorType::of_raw(tensors[i].raw)
        &&& t.offset == tensors[i].offset
        &&& t.file_offset == data_start + tensors[i].offset
    } by {
        assert(v[i] == described(tensors[i]));
        assert(data_start + v[i].offset <= f.file_len);
    }
}

/// Aligning gives the first multiple at or behind an offset.
pub proof fn first_multiple(path: Seq<char>, offset: nat, alignment: nat, up: nat)
    requires
        alignment > 0,
        up % alignment == 0,
        offset <= up < offset + alignment,
        up <= u64::MAX,
    ensures
        crate::gguf::aligned(path, offset, alignment) == Ok::<nat, StopView>(up),
{
    let a = alignment as int;
    crate::grid::index(offset as int, a);
    crate::grid::index(up as int, a);
    let (q, r, p) = (offset as int / a, offset as int % a, up as int / a);
    assert(up == p * a);
    assert(offset == q * a + r);
    if r == 0 {
        assert(p == q) by (nonlinear_arith)
            requires
                q * a <= p * a,
                p * a < q * a + a,
                a > 0,
        ;
    } else {
        assert(p == q + 1) by (nonlinear_arith)
            requires
                q * a + r <= p * a,
                p * a < q * a + r + a,
                0 < r < a,
        ;
        assert((q + 1) * a == q * a + a) by (nonlinear_arith);
    }
}

/// The block encodings with the tags twelve, thirteen and fourteen are those that
/// can be decoded; they take four, five and six bits, and a fraction of a bit, for
/// each number.
pub proof fn tags_of_blocks(raw: u32)
    ensures
        GgmlTensorType::of_raw(raw).k_kind() is Some <==> 12 <= raw <= 14,
        GgmlTensorType::of_raw(raw).k_kind() matches Some(kind) ==> kind.block_len() * 8 / 256
            == raw - 8,
{
}

/// The dense encodings that can be decoded have the tags zero, one and thirty, and
/// their elements take up as many bytes in the file as they are decoded from.
pub proof fn tags_of_dense_values(raw: u32)
    ensures
        GgmlTensorType::of_raw(raw).dense() is Some <==> raw == 0 || raw == 1 || raw == 30,
        GgmlTensorType::of_raw(raw).dense() matches Some(d) ==> GgmlTensorType::of_raw(
            raw,
        ).element_size() == Some(d.width() as u64) && (d == crate::values::SupportedDtype::F16 <==> raw
            == 1) && (d == crate::values::SupportedDtype::BF16 <==> raw == 30),
{
}

/// Different tags are different encodings.
pub proof fn tags_are_distinct(a: u32, b: u32)
    requires
        GgmlTensorType::of_raw(a) == GgmlTensorType::of_raw(b),
    ensures
        a == b,
{
}

} // verus!
