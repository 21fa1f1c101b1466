use vstd::prelude::*;

use crate::gguf::{FileView, GgmlTensorType, GgufMetadataType, ManifestView, StopView, TensorView};

verus! {

/// `g` holds at least the bytes of the same file that `f` holds.
pub open spec fn extends(f: FileView, g: FileView) -> bool {
    &&& f.wf()
    &&& g.wf()
    &&& f.path == g.path
    &&& f.file_len == g.file_len
    &&& f.prefix.len() <= g.prefix.len()
    &&& f.prefix == g.prefix.take(f.prefix.len() as int)
}

/// The result asks for bytes that are in the file and not yet here.
pub open spec fn asks<T>(f: FileView, r: Result<T, StopView>) -> bool {
    r matches Err(StopView::NeedBytes(n)) && f.prefix.len() < n <= f.file_len
}

/// More bytes change a result only if it asked for them, and it asks only for
/// bytes that exist.
pub open spec fn stable<T>(f: FileView, r: Result<T, StopView>, s: Result<T, StopView>) -> bool {
    &&& asks(f, r) || r == s
    &&& r matches Err(StopView::NeedBytes(_)) ==> asks(f, r)
}

proof fn number_stable(f: FileView, g: FileView, pos: nat, n: nat)
    requires
        extends(f, g),
    ensures
        stable(f, crate::gguf::number(f, pos, n), crate::gguf::number(g, pos, n)),
{
    if pos + n <= f.prefix.len() {
        assert(f.prefix.subrange(pos as int, (pos + n) as int) =~= g.prefix.subrange(
            pos as int,
            (pos + n) as int,
        ));
    }
}

proof fn string_stable(f: FileView, g: FileView, pos: nat, field: Seq<char>, max_len: nat)
    requires
        extends(f, g),
    ensures
        stable(
            f,
            crate::gguf::string_at(f, pos, field, max_len),
            crate::gguf::string_at(g, pos, field, max_len),
        ),
{
    number_stable(f, g, pos, 8);
    if let Ok((len, p)) = crate::gguf::number(f, pos, 8) {
        if p + len <= f.prefix.len() {
            assert(f.prefix.subrange(p as int, (p + len) as int) =~= g.prefix.subrange(
                p as int,
                (p + len) as int,
            ));
        }
    }
}

proof fn array_head_stable(f: FileView, g: FileView, pos: nat)
    requires
        extends(f, g),
    ensures
        stable(f, crate::gguf::array_head(f, pos), crate::gguf::array_head(g, pos)),
{
    number_stable(f, g, pos, 4);
    if let Ok((raw, p)) = crate::gguf::number(f, pos, 4) {
        number_stable(f, g, p, 8);
    }
}

proof fn skip_value_stable(f: FileView, g: FileView, t: GgufMetadataType, depth: nat, pos: nat)
    requires
        extends(f, g),
    ensures
        stable(
            f,
            crate::gguf::skip_value(f, t, depth, pos),
            crate::gguf::skip_value(g, t, depth, pos),
        ),
    decreases crate::gguf::MAX_ARRAY_DEPTH + 1 - depth, 0nat,
{
    match t {
        GgufMetadataType::String => {
            number_stable(f, g, pos, 8);
        },
        GgufMetadataType::Array => {
            if depth < crate::gguf::MAX_ARRAY_DEPTH {
                array_head_stable(f, g, pos);
                if let Ok(((et, len), p)) = crate::gguf::array_head(f, pos) {
                    skip_values_stable(f, g, et, depth + 1, p, len);
                }
            }
        },
        _ => {},
    }
}

proof fn skip_values_stable(
    f: FileView,
    g: FileView,
    t: GgufMetadataType,
    depth: nat,
    pos: nat,
    n: nat,
)
    requires
        extends(f, g),
    ensures
        stable(
            f,
            crate::gguf::skip_values(f, t, depth, pos, n),
            crate::gguf::skip_values(g, t, depth, pos, n),
        ),
    decreases crate::gguf::MAX_ARRAY_DEPTH + 1 - depth, n + 1,
{
    if n > 0 {
        skip_values_stable(f, g, t, depth, pos, (n - 1) as nat);
        if let Ok(p) = crate::gguf::skip_values(f, t, depth, pos, (n - 1) as nat) {
            skip_value_stable(f, g, t, depth, p);
        }
    }
}

proof fn entry_stable(f: FileView, g: FileView, pos: nat)
    requires
        extends(f, g),
    ensures
        stable(f, crate::gguf::entry_at(f, pos), crate::gguf::entry_at(g, pos)),
{
    string_stable(f, g, pos, "metadata key"@, crate::gguf::MAX_KEY_BYTES as nat);
    if let Ok((key, p)) = crate::gguf::string_at(
        f,
        pos,
        "metadata key"@,
        crate::gguf::MAX_KEY_BYTES as nat,
    ) {
        number_stable(f, g, p, 4);
        if let Ok((raw, q)) = crate::gguf::number(f, p, 4) {
            if let Ok(t) = GgufMetadataType::of_raw(raw, f.path, key) {
                value_stable(f, g, t, q);
            }
        }
    }
}

proof fn value_stable(f: FileView, g: FileView, t: GgufMetadataType, pos: nat)
    requires
        extends(f, g),
    ensures
        stable(f, crate::gguf::value_at(f, t, pos), crate::gguf::value_at(g, t, pos)),
{
    match t {
        GgufMetadataType::String => {
            string_stable(
                f,
                g,
                pos,
                "metadata string"@,
                crate::gguf::MAX_METADATA_STRING_BYTES as nat,
            );
        },
        GgufMetadataType::Array => {
            array_head_stable(f, g, pos);
            if let Ok(((et, len), p)) = crate::gguf::array_head(f, pos) {
                skip_values_stable(f, g, et, 1, p, len);
            }
        },
        _ => {
            number_stable(f, g, pos, crate::gguf::int_width(t));
        },
    }
}

proof fn entries_stable(f: FileView, g: FileView, pos: nat, n: nat)
    requires
        extends(f, g),
    ensures
        stable(f, crate::gguf::entries_at(f, pos, n), crate::gguf::entries_at(g, pos, n)),
    decreases n,
{
    if n > 0 {
        entries_stable(f, g, pos, (n - 1) as nat);
        if let Ok((s, p)) = crate::gguf::entries_at(f, pos, (n - 1) as nat) {
            entry_stable(f, g, p);
        }
    }
}

proof fn dims_stable(f: FileView, g: FileView, name: Seq<char>, pos: nat, n: nat)
    requires
        extends(f, g),
    ensures
        stable(f, crate::gguf::dims_at(f, name, pos, n), crate::gguf::dims_at(g, name, pos, n)),
    decreases n,
{
    if n > 0 {
        dims_stable(f, g, name, pos, (n - 1) as nat);
        if let Ok((s, p)) = crate::gguf::dims_at(f, name, pos, (n - 1) as nat) {
            number_stable(f, g, p, 8);
        }
    }
}

proof fn tensor_stable(f: FileView, g: FileView, alignment: u64, pos: nat)
    requires
        extends(f, g),
    ensures
        stable(
            f,
            crate::gguf::tensor_at(f, alignment, pos),
            crate::gguf::tensor_at(g, alignment, pos),
        ),
{
    let max = crate::gguf::MAX_TENSOR_NAME_BYTES as nat;
    string_stable(f, g, pos, "tensor name"@, max);
    if let Ok((name, p1)) = crate::gguf::string_at(f, pos, "tensor name"@, max) {
        number_stable(f, g, p1, 4);
        if let Ok((n, p2)) = crate::gguf::number(f, p1, 4) {
            dims_stable(f, g, name, p2, n);
            if let Ok((_, p3)) = crate::gguf::dims_at(f, name, p2, n) {
                number_stable(f, g, p3, 4);
                if let Ok((_, p4)) = crate::gguf::number(f, p3, 4) {
                    number_stable(f, g, p4, 8);
                }
            }
        }
    }
}

proof fn tensors_stable(f: FileView, g: FileView, alignment: u64, pos: nat, n: nat)
    requires
        extends(f, g),
    ensures
        stable(
            f,
            crate::gguf::tensors_at(f, alignment, pos, n),
            crate::gguf::tensors_at(g, alignment, pos, n),
        ),
    decreases n,
{
    if n > 0 {
        tensors_stable(f, g, alignment, pos, (n - 1) as nat);
        if let Ok((s, p)) = crate::gguf::tensors_at(f, alignment, pos, (n - 1) as nat) {
            tensor_stable(f, g, alignment, p);
        }
    }
}

proof fn placed_stable(f: FileView, g: FileView, data_start: nat, v: Seq<TensorView>, n: nat)
    requires
        extends(f, g),
    ensures
        crate::gguf::all_placed(f, data_start, v, n) == crate::gguf::all_placed(
            g,
            data_start,
            v,
            n,
        ),
        !(crate::gguf::all_placed(f, data_start, v, n) matches Err(StopView::NeedBytes(_))),
    decreases n,
{
    if n > 0 {
        placed_stable(f, g, data_start, v, (n - 1) as nat);
    }
}

proof fn head_stable(f: FileView, g: FileView)
    requires
        extends(f, g),
    ensures
        stable(f, crate::gguf::head(f), crate::gguf::head(g)),
{
    if f.prefix.len() >= 4 {
        assert(f.prefix.subrange(0, 4) =~= g.prefix.subrange(0, 4));
    }
    number_stable(f, g, 4, 4);
    number_stable(f, g, 8, 8);
    number_stable(f, g, 16, 8);
}

/// Inspecting a longer prefix of the same file gives the same result, unless the
/// shorter one asked for more bytes; what is asked for is in the file and was
/// not yet there, so asking ends.
pub proof fn inspection_is_stable(f: FileView, g: FileView)
    requires
        extends(f, g),
    ensures
        stable(f, crate::gguf::manifest_of(f), crate::gguf::manifest_of(g)),
{
    head_stable(f, g);
    if let Ok(((tensor_count, entry_count), p0)) = crate::gguf::head(f) {
        entries_stable(f, g, p0, entry_count);
        if let Ok((metadata, p1)) = crate::gguf::entries_at(f, p0, entry_count) {
            if let Ok(alignment) = crate::gguf::alignment_of(f.path, metadata) {
                tensors_stable(f, g, alignment, p1, tensor_count);
                if let Ok((tensors, p2)) = crate::gguf::tensors_at(f, alignment, p1, tensor_count) {
                    if let Ok(data_start) = crate::gguf::aligned(f.path, p2, alignment as nat) {
                        placed_stable(f, g, data_start, tensors, tensors.len());
                    }
                }
            }
        }
    }
}

/// Of a file that is here as a whole no more bytes are asked for.
pub proof fn whole_files_suffice(f: FileView)
    requires
        f.prefix.len() == f.file_len,
    ensures
        !(crate::gguf::manifest_of(f) matches Err(StopView::NeedBytes(_))),
{
    assert(f.prefix.take(f.prefix.len() as int) =~= f.prefix);
    inspection_is_stable(f, f);
}

/// `f` holds no more than the first bytes that `g` holds, and the whole of both
/// is of one length. Their paths may differ.
pub open spec fn holds_start_of(f: FileView, g: FileView) -> bool {
    &&& f.wf()
    &&& g.wf()
    &&& f.file_len == g.file_len
    &&& f.prefix.len() <= g.prefix.len()
    &&& f.prefix == g.prefix.take(f.prefix.len() as int)
}

proof fn number_covered(f: FileView, g: FileView, pos: nat, n: nat)
    requires
        holds_start_of(f, g),
    ensures
        crate::gguf::number(g, pos, n) matches Ok((_, p)) ==> {
            &&& pos <= p
            &&& p <= f.prefix.len() ==> crate::gguf::number(f, pos, n) == crate::gguf::number(
                g,
                pos,
                n,
            )
        },
{
    if pos + n <= f.prefix.len() {
        assert(f.prefix.subrange(pos as int, (pos + n) as int) =~= g.prefix.subrange(
            pos as int,
            (pos + n) as int,
        ));
    }
}

proof fn string_covered(f: FileView, g: FileView, pos: nat, field: Seq<char>, max_len: nat)
    requires
        holds_start_of(f, g),
    ensures
        crate::gguf::string_at(g, pos, field, max_len) matches Ok((_, p)) ==> {
            &&& pos <= p
            &&& p <= f.prefix.len() ==> crate::gguf::string_at(f, pos, field, max_len)
                == crate::gguf::string_at(g, pos, field, max_len)
        },
{
    number_covered(f, g, pos, 8);
    if let Ok((len, p)) = crate::gguf::number(g, pos, 8) {
        if p + len <= f.prefix.len() {
            assert(f.prefix.subrange(p as int, (p + len) as int) =~= g.prefix.subrange(
                p as int,
                (p + len) as int,
            ));
        }
    }
}

proof fn array_head_covered(f: FileView, g: FileView, pos: nat)
    requires
        holds_start_of(f, g),
    ensures
        crate::gguf::array_head(g, pos) matches Ok((_, p)) ==> {
            &&& pos <= p
            &&& p <= f.prefix.len() ==> crate::gguf::array_head(f, pos) == crate::gguf::array_head(
                g,
                pos,
            )
        },
{
    number_covered(f, g, pos, 4);
    if let Ok((raw, p)) = crate::gguf::number(g, pos, 4) {
        number_covered(f, g, p, 8);
    }
}

proof fn skip_value_covered(f: FileView, g: FileView, t: GgufMetadataType, depth: nat, pos: nat)
    requires
        holds_start_of(f, g),
    ensures
        crate::gguf::skip_value(g, t, depth, pos) matches Ok(p) ==> {
            &&& pos <= p
            &&& p <= f.prefix.len() ==> crate::gguf::skip_value(f, t, depth, pos)
                == crate::gguf::skip_value(g, t, depth, pos)
        },
    decreases crate::gguf::MAX_ARRAY_DEPTH + 1 - depth, 0nat,
{
    match t {
        GgufMetadataType::String => {
            number_covered(f, g, pos, 8);
        },
        GgufMetadataType::Array => {
            if depth < crate::gguf::MAX_ARRAY_DEPTH {
                array_head_covered(f, g, pos);
                if let Ok(((et, len), p)) = crate::gguf::array_head(g, pos) {
                    skip_values_covered(f, g, et, depth + 1, p, len);
                }
            }
        },
        _ => {},
    }
}

proof fn skip_values_covered(
    f: FileView,
    g: FileView,
    t: GgufMetadataType,
    depth: nat,
    pos: nat,
    n: nat,
)
    requires
        holds_start_of(f, g),
    ensures
        crate::gguf::skip_values(g, t, depth, pos, n) matches Ok(p) ==> {
            &&& pos <= p
            &&& p <= f.prefix.len() ==> crate::gguf::skip_values(f, t, depth, pos, n)
                == crate::gguf::skip_values(g, t, depth, pos, n)
        },
    decreases crate::gguf::MAX_ARRAY_DEPTH + 1 - depth, n + 1,
{
    if n > 0 {
        skip_values_covered(f, g, t, depth, pos, (n - 1) as nat);
        if let Ok(p) = crate::gguf::skip_values(g, t, depth, pos, (n - 1) as nat) {
            skip_value_covered(f, g, t, depth, p);
        }
    }
}

proof fn value_covered(f: FileView, g: FileView, t: GgufMetadataType, pos: nat)
    requires
        holds_start_of(f, g),
    ensures
        crate::gguf::value_at(g, t, pos) matches Ok((_, p)) ==> {
            &&& pos <= p
            &&& p <= f.prefix.len() ==> crate::gguf::value_at(f, t, pos) == crate::gguf::value_at(
                g,
                t,
                pos,
            )
        },
{
    match t {
        GgufMetadataType::String => {
            string_covered(
                f,
                g,
                pos,
                "metadata string"@,
                crate::gguf::MAX_METADATA_STRING_BYTES as nat,
            );
        },
        GgufMetadataType::Array => {
            array_head_covered(f, g, pos);
            if let Ok(((et, len), p)) = crate::gguf::array_head(g, pos) {
                skip_values_covered(f, g, et, 1, p, len);
            }
        },
        _ => {
            number_covered(f, g, pos, crate::gguf::int_width(t));
        },
    }
}

proof fn entry_covered(f: FileView, g: FileView, pos: nat)
    requires
        holds_start_of(f, g),
    ensures
        crate::gguf::entry_at(g, pos) matches Ok((_, p)) ==> {
            &&& pos <= p
            &&& p <= f.prefix.len() ==> crate::gguf::entry_at(f, pos) == crate::gguf::entry_at(
                g,
                pos,
            )
        },
{
    let max = crate::gguf::MAX_KEY_BYTES as nat;
    string_covered(f, g, pos, "metadata key"@, max);
    if let Ok((key, p)) = crate::gguf::string_at(g, pos, "metadata key"@, max) {
        number_covered(f, g, p, 4);
        if let Ok((raw, q)) = crate::gguf::number(g, p, 4) {
            if let Ok(t) = GgufMetadataType::of_raw(raw, g.path, key) {
                value_covered(f, g, t, q);
            }
        }
    }
}

proof fn entries_covered(f: FileView, g: FileView, pos: nat, n: nat)
    requires
        holds_start_of(f, g),
    ensures
        crate::gguf::entries_at(g, pos, n) matches Ok((_, p)) ==> {
            &&& pos <= p
            &&& p <= f.prefix.len() ==> crate::gguf::entries_at(f, pos, n)
                == crate::gguf::entries_at(g, pos, n)
        },
    decreases n,
{
    if n > 0 {
        entries_covered(f, g, pos, (n - 1) as nat);
        if let Ok((s, p)) = crate::gguf::entries_at(g, pos, (n - 1) as nat) {
            entry_covered(f, g, p);
        }
    }
}

proof fn dims_covered(f: FileView, g: FileView, name: Seq<char>, pos: nat, n: nat)
    requires
        holds_start_of(f, g),
    ensures
        crate::gguf::dims_at(g, name, pos, n) matches Ok((_, p)) ==> {
            &&& pos <= p
            &&& p <= f.prefix.len() ==> crate::gguf::dims_at(f, name, pos, n)
                == crate::gguf::dims_at(g, name, pos, n)
        },
    decreases n,
{
    if n > 0 {
        dims_covered(f, g, name, pos, (n - 1) as nat);
        if let Ok((s, p)) = crate::gguf::dims_at(g, name, pos, (n - 1) as nat) {
            number_covered(f, g, p, 8);
        }
    }
}

proof fn tensor_covered(f: FileView, g: FileView, alignment: u64, pos: nat)
    requires
        holds_start_of(f, g),
    ensures
        crate::gguf::tensor_at(g, alignment, pos) matches Ok((_, p)) ==> {
            &&& pos <= p
            &&& p <= f.prefix.len() ==> crate::gguf::tensor_at(f, alignment, pos)
                == crate::gguf::tensor_at(g, alignment, pos)
        },
{
    let max = crate::gguf::MAX_TENSOR_NAME_BYTES as nat;
    string_covered(f, g, pos, "tensor name"@, max);
    if let Ok((name, p1)) = crate::gguf::string_at(g, pos, "tensor name"@, max) {
        number_covered(f, g, p1, 4);
        if let Ok((n, p2)) = crate::gguf::number(g, p1, 4) {
            dims_covered(f, g, name, p2, n);
            if let Ok((_, p3)) = crate::gguf::dims_at(g, name, p2, n) {
                number_covered(f, g, p3, 4);
                if let Ok((_, p4)) = crate::gguf::number(g, p3, 4) {
                    number_covered(f, g, p4, 8);
                }
            }
        }
    }
}

proof fn tensors_covered(f: FileView, g: FileView, alignment: u64, pos: nat, n: nat)
    requires
        holds_start_of(f, g),
    ensures
        crate::gguf::tensors_at(g, alignment, pos, n) matches Ok((_, p)) ==> {
            &&& pos <= p
            &&& p <= f.prefix.len() ==> crate::gguf::tensors_at(f, alignment, pos, n)
                == crate::gguf::tensors_at(g, alignment, pos, n)
        },
    decreases n,
{
    if n > 0 {
        tensors_covered(f, g, alignment, pos, (n - 1) as nat);
        if let Ok((s, p)) = crate::gguf::tensors_at(g, alignment, pos, (n - 1) as nat) {
            tensor_covered(f, g, alignment, p);
        }
    }
}

proof fn placed_covered(f: FileView, g: FileView, data_start: nat, v: Seq<TensorView>, n: nat)
    requires
        f.file_len == g.file_len,
    ensures
        crate::gguf::all_placed(g, data_start, v, n) is Ok ==> crate::gguf::all_placed(
            f,
            data_start,
            v,
            n,
        ) == crate::gguf::all_placed(g, data_start, v, n),
    decreases n,
{
    if n > 0 {
        placed_covered(f, g, data_start, v, (n - 1) as nat);
    }
}

proof fn head_covered(f: FileView, g: FileView)
    requires
        holds_start_of(f, g),
    ensures
        crate::gguf::head(g) matches Ok((_, p)) && p <= f.prefix.len() ==> crate::gguf::head(f)
            == crate::gguf::head(g),
{
    if f.prefix.len() >= 24 {
        assert(f.prefix.subrange(0, 4) =~= g.prefix.subrange(0, 4));
    }
    number_covered(f, g, 4, 4);
    number_covered(f, g, 8, 8);
    number_covered(f, g, 16, 8);
}

/// The bytes before the tensor data are enough for a manifest: it is found with
/// no other bytes of the file here, under whatever path.
pub proof fn headers_suffice(f: FileView, g: FileView)
    requires
        holds_start_of(f, g),
        crate::gguf::manifest_of(g) matches Ok(m) && m.data_start <= f.prefix.len(),
    ensures
        crate::gguf::manifest_of(f) == crate::gguf::manifest_of(g),
{
    let ((tensor_count, entry_count), p0) = crate::gguf::head(g)->Ok_0;
    entries_covered(f, g, p0, entry_count);
    let (metadata, p1) = crate::gguf::entries_at(g, p0, entry_count)->Ok_0;
    let alignment = crate::gguf::alignment_of(g.path, metadata)->Ok_0;
    tensors_covered(f, g, alignment, p1, tensor_count);
    let (tensors, p2) = crate::gguf::tensors_at(g, alignment, p1, tensor_count)->Ok_0;
    let data_start = crate::gguf::aligned(g.path, p2, alignment as nat)->Ok_0;
    assert(p2 <= data_start) by {
        vstd::arithmetic::div_mod::lemma_mod_bound(p2 as int, alignment as int);
    }
    assert(data_start <= g.file_len);
    head_covered(f, g);
    placed_covered(f, g, data_start, tensors, tensors.len());
}

/// The inspection of a file does not look at tensor data: two files of one
/// length that agree on every byte before the tensor data of the first have the
/// same manifest, wherever they lie.
pub proof fn tensor_data_is_not_inspected(f: FileView, g: FileView, m: ManifestView)
    requires
        f.wf(),
        g.wf(),
        f.file_len == g.file_len,
        crate::gguf::manifest_of(f) == Ok::<ManifestView, StopView>(m),
        m.data_start <= f.prefix.len(),
        m.data_start <= g.prefix.len(),
        f.prefix.take(m.data_start as int) == g.prefix.take(m.data_start as int),
    ensures
        crate::gguf::manifest_of(g) == Ok::<ManifestView, StopView>(m),
{
    let h = FileView {
        path: g.path,
        prefix: g.prefix.take(m.data_start as int),
        file_len: g.file_len,
    };
    headers_suffice(h, f);
    inspection_is_stable(h, g);
}

/// A tensor whose description and place a manifest vouches for.
pub open spec fn tensor_is_sound(m: ManifestView, t: TensorView) -> bool {
    &&& 1 <= t.shape.len() <= crate::gguf::MAX_TENSOR_DIMS
    &&& forall|i: int| 0 <= i < t.shape.len() ==> #[trigger] t.shape[i] > 0
    &&& t.offset % m.alignment == 0
    &&& t.file_offset == m.data_start + t.offset
    &&& t.file_offset <= m.file_len
    &&& match t.tensor_type.element_size() {
        Some(size) => t.byte_len == Some(
            (crate::kv_cache::product(t.shape) * size) as u64,
        ) && t.file_offset + crate::kv_cache::product(t.shape) * size <= m.file_len,
        None => t.byte_len is None,
    }
}

/// What a manifest says of the file: the alignment is a positive multiple of
/// eight, the tensor data starts aligned inside the file, every tensor starts
/// aligned, and where its length is known it ends inside the file.
pub proof fn manifests_are_sound(f: FileView)
    requires
        f.wf(),
    ensures
        crate::gguf::manifest_of(f) matches Ok(m) ==> {
            &&& m.version == crate::gguf::SUPPORTED_GGUF_VERSION
            &&& m.file_len == f.file_len
            &&& m.alignment > 0
            &&& m.alignment % 8 == 0
            &&& m.data_start % m.alignment == 0
            &&& m.data_start <= m.file_len
            &&& forall|i: int| 0 <= i < m.tensors.len() ==> tensor_is_sound(m, #[trigger] m.tensors[i])
        },
{
    if let Ok(m) = crate::gguf::manifest_of(f) {
        if let Ok(((tensor_count, entry_count), p0)) = crate::gguf::head(f) {
            if let Ok((metadata, p1)) = crate::gguf::entries_at(f, p0, entry_count) {
                if let Ok(alignment) = crate::gguf::alignment_of(f.path, metadata) {
                    if let Ok((tensors, p2)) = crate::gguf::tensors_at(
                        f,
                        alignment,
                        p1,
                        tensor_count,
                    ) {
                        tensors_sound(f, alignment, p1, tensor_count);
                        if let Ok(data_start) = crate::gguf::aligned(
                            f.path,
                            p2,
                            alignment as nat,
                        ) {
                            aligned_is_multiple(p2, alignment as nat);
                            assert(data_start as u64 % alignment == 0);
                            places_sound(f, data_start, tensors, tensors.len());
                            assert forall|i: int| 0 <= i < m.tensors.len() implies tensor_is_sound(
                                m,
                                #[trigger] m.tensors[i],
                            ) by {
                                assert(described(alignment, tensors[i]));
                            }
                        }
                    }
                }
            }
        }
    }
}

proof fn aligned_is_multiple(offset: nat, alignment: nat)
    requires
        alignment > 0,
    ensures
        offset % alignment != 0 ==> (offset + (alignment - offset % alignment)) as nat % alignment
            == 0,
{
    let r = offset % alignment;
    let q = offset / alignment;
    vstd::arithmetic::div_mod::lemma_fundamental_div_mod(offset as int, alignment as int);
    let up = offset + (alignment - r);
    assert(up == (q + 1) * alignment) by (nonlinear_arith)
        requires
            offset == alignment * q + r,
            up == offset + (alignment - r),
    ;
    vstd::arithmetic::div_mod::lemma_mod_multiples_basic(q as int + 1, alignment as int);
}

/// What a description says before the tensor is put into the file.
spec fn described(alignment: u64, t: TensorView) -> bool {
    &&& 1 <= t.shape.len() <= crate::gguf::MAX_TENSOR_DIMS
    &&& forall|i: int| 0 <= i < t.shape.len() ==> #[trigger] t.shape[i] > 0
    &&& t.offset % alignment == 0
    &&& match t.tensor_type.element_size() {
        Some(size) => crate::kv_cache::product(t.shape) * size <= u64::MAX && t.byte_len == Some(
            (crate::kv_cache::product(t.shape) * size) as u64,
        ),
        None => t.byte_len is None,
    }
}

proof fn dims_sound(f: FileView, name: Seq<char>, pos: nat, n: nat)
    ensures
        crate::gguf::dims_at(f, name, pos, n) matches Ok(((shape, count), _)) ==> {
            &&& shape.len() == n
            &&& count == crate::kv_cache::product(shape)
            &&& forall|i: int| 0 <= i < shape.len() ==> #[trigger] shape[i] > 0
        },
    decreases n,
{
    if n > 0 {
        dims_sound(f, name, pos, (n - 1) as nat);
        if let Ok(((before, count), p)) = crate::gguf::dims_at(f, name, pos, (n - 1) as nat) {
            if let Ok(((shape, _), _)) = crate::gguf::dims_at(f, name, pos, n) {
                assert(shape.drop_last() =~= before);
            }
        }
    }
}

proof fn tensors_sound(f: FileView, alignment: u64, pos: nat, n: nat)
    requires
        alignment > 0,
    ensures
        crate::gguf::tensors_at(f, alignment, pos, n) matches Ok((v, _)) ==> forall|i: int|
            0 <= i < v.len() ==> described(alignment, #[trigger] v[i]),
    decreases n,
{
    if n > 0 {
        tensors_sound(f, alignment, pos, (n - 1) as nat);
        if let Ok((s, p)) = crate::gguf::tensors_at(f, alignment, pos, (n - 1) as nat) {
            let max = crate::gguf::MAX_TENSOR_NAME_BYTES as nat;
            if let Ok((t, _)) = crate::gguf::tensor_at(f, alignment, p) {
                if let Ok((name, p1)) = crate::gguf::string_at(f, p, "tensor name"@, max) {
                    if let Ok((dims, p2)) = crate::gguf::number(f, p1, 4) {
                        dims_sound(f, name, p2, dims);
                        if let Ok((_, p3)) = crate::gguf::dims_at(f, name, p2, dims) {
                            if let Ok((_, p4)) = crate::gguf::number(f, p3, 4) {
                                if let Ok((offset, _)) = crate::gguf::number(f, p4, 8) {
                                    crate::bytes::le_value_widths(
                                        f.prefix.subrange(p4 as int, (p4 + 8) as int),
                                    );
                                    assert(t.offset == offset);
                                }
                            }
                        }
                    }
                }
                assert(described(alignment, t));
            }
        }
    }
}

proof fn places_sound(f: FileView, data_start: nat, v: Seq<TensorView>, n: nat)
    requires
        n <= v.len(),
    ensures
        crate::gguf::all_placed(f, data_start, v, n) matches Ok(s) ==> {
            &&& s.len() == n
            &&& forall|i: int|
                0 <= i < n ==> crate::gguf::placed(f, data_start, v[i]) == Ok::<
                    TensorView,
                    StopView,
                >(#[trigger] s[i])
        },
    decreases n,
{
    if n > 0 {
        places_sound(f, data_start, v, (n - 1) as nat);
    }
}

/// A key is looked up where it occurs first.
pub proof fn first_key_wins(
    metadata: Seq<(Seq<char>, crate::gguf::ValueView)>,
    key: Seq<char>,
    i: int,
)
    requires
        0 <= i < metadata.len(),
        metadata[i].0 == key,
        forall|j: int| 0 <= j < i ==> (#[trigger] metadata[j]).0 != key,
    ensures
        crate::gguf::find_value(metadata, key) == Some(metadata[i].1),
    decreases i,
{
    if i > 0 {
        let rest = metadata.drop_first();
        assert(rest[i - 1] == metadata[i]);
        assert forall|j: int| 0 <= j < i - 1 implies (#[trigger] rest[j]).0 != key by {
            assert(rest[j] == metadata[j + 1]);
        }
        first_key_wins(rest, key, i - 1);
    }
}

} // verus!
