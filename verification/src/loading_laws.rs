use vstd::prelude::*;

use crate::arith::Arith;
use crate::gguf_values::GgufValueMode;
use crate::safetensors_header::SafetensorsManifest;
use crate::text::FloatText;
use crate::values::LoadedTensor;

verus! {

/// A GGUF file that is here as a whole.
pub open spec fn whole(path: Seq<char>, bytes: Seq<u8>) -> crate::gguf::FileView {
    crate::gguf::FileView { path, prefix: bytes, file_len: bytes.len() as u64 }
}

/// Loading dense values never takes the blocks of an encoded tensor for them:
/// the tensor is refused by its type.
pub proof fn blocks_are_not_dense<T, A: Arith<T> + FloatText>(
    ar: &A,
    path: Seq<char>,
    bytes: Seq<u8>,
    m: crate::gguf::ManifestView,
    t: crate::gguf::TensorView,
    r: Result<LoadedTensor<T>, crate::error::ErrorView>,
)
    requires
        crate::gguf::manifest_of(whole(path, bytes)) == Ok::<_, crate::gguf::StopView>(m),
        crate::gguf_values::find_view(m.tensors, t.name) == Some(t),
        t.tensor_type.k_kind() is Some,
        crate::gguf_values::file_outcome(
            ar,
            path,
            bytes,
            t.name,
            GgufValueMode::DenseOnly,
            r,
        ),
    ensures
        r == Err::<LoadedTensor<T>, _>(
            crate::gguf_values::unsupported_type(
                t.tensor_type,
                t.name,
                GgufValueMode::DenseOnly,
            ),
        ),
{
}

proof fn found(v: Seq<crate::gguf::TensorView>, name: Seq<char>)
    ensures
        crate::gguf_values::find_view(v, name) matches Some(t) ==> v.contains(t) && t.name == name,
    decreases v.len(),
{
    if v.len() > 0 && v[0].name != name {
        let rest = v.drop_first();
        found(rest, name);
        if let Some(t) = crate::gguf_values::find_view(rest, name) {
            let i = choose|i: int| 0 <= i < rest.len() && rest[i] == t;
            assert(v[i + 1] == t);
        }
    }
}

/// Every dense tensor that the inspection of a file lists can be loaded, in
/// either mode, and has the listed name, shape and element type, and as many
/// values as its shape says.
pub proof fn listed_dense_tensors_load<T, A: Arith<T> + FloatText>(
    ar: &A,
    path: Seq<char>,
    bytes: Seq<u8>,
    m: crate::gguf::ManifestView,
    t: crate::gguf::TensorView,
    mode: GgufValueMode,
    r: Result<LoadedTensor<T>, crate::error::ErrorView>,
)
    requires
        bytes.len() <= usize::MAX,
        crate::gguf::manifest_of(whole(path, bytes)) == Ok::<_, crate::gguf::StopView>(m),
        crate::gguf_values::find_view(m.tensors, t.name) == Some(t),
        t.tensor_type.dense() is Some,
        crate::gguf_values::file_outcome(ar, path, bytes, t.name, mode, r),
    ensures
        r matches Ok(l) && l.name@ == t.name && l.shape@ == t.shape && Some(l.dtype)
            == t.tensor_type.dense() && l.values@.len() == crate::kv_cache::product(t.shape),
{
    found(m.tensors, t.name);
    crate::gguf_laws::manifests_are_sound(whole(path, bytes));
    let i = choose|i: int| 0 <= i < m.tensors.len() && m.tensors[i] == t;
    assert(crate::gguf_laws::tensor_is_sound(m, m.tensors[i]));
    let dtype = t.tensor_type.dense().unwrap();
    let n = crate::kv_cache::product(t.shape);
    let w = dtype.width();
    assert(t.tensor_type.element_size() == Some(w as u64));
    assert(t.byte_len == Some((n * w) as u64));
    assert(n * w <= usize::MAX);
    vstd::arithmetic::div_mod::lemma_mod_multiples_basic(n as int, w as int);
    let l = r->Ok_0;
    assert(l.values@.len() * w == n * w);
    assert(l.values@.len() == n) by (nonlinear_arith)
        requires
            l.values@.len() * w == n * w,
            w > 0,
    ;
}

/// Loading several tensors gives what loading each of them gives.
pub proof fn several_are_each<T, A: Arith<T> + FloatText>(
    ar: &A,
    path: Seq<char>,
    bytes: Seq<u8>,
    names: Seq<Seq<char>>,
    mode: GgufValueMode,
    v: Seq<LoadedTensor<T>>,
    i: int,
)
    requires
        crate::gguf_values::many_outcome(
            ar,
            path,
            bytes,
            names,
            mode,
            Ok::<Seq<LoadedTensor<T>>, crate::error::ErrorView>(v),
        ),
        0 <= i < names.len(),
    ensures
        v.len() == names.len(),
        crate::gguf_values::file_outcome(
            ar,
            path,
            bytes,
            names[i],
            mode,
            Ok::<LoadedTensor<T>, crate::error::ErrorView>(v[i]),
        ),
{
}

/// The inspection of a safetensors file does not depend on the bytes of its
/// tensors: only on its header and its length.
pub proof fn tensor_bytes_are_not_inspected(
    path: Seq<char>,
    a: Seq<u8>,
    b: Seq<u8>,
    r: Result<SafetensorsManifest, crate::error::ErrorView>,
)
    requires
        a.len() == b.len(),
        a.take(8) == b.take(8),
        crate::safetensors_header::header_len(path, a, a.len() as u64) matches Ok(n) ==> a.subrange(
            8,
            8 + n as int,
        ) == b.subrange(8, 8 + n as int),
    ensures
        crate::safetensors_header::artifact_outcome(path, a, r)
            <==> crate::safetensors_header::artifact_outcome(path, b, r),
{
}

/// Every tensor that the inspection of a safetensors file lists can be loaded,
/// and has the listed shape and element type, and as many values as its shape
/// says.
pub proof fn listed_tensors_load<T, A: Arith<T>>(
    ar: &A,
    path: Seq<char>,
    bytes: Seq<u8>,
    m: SafetensorsManifest,
    i: int,
    r: Result<LoadedTensor<T>, crate::error::ErrorView>,
)
    requires
        bytes.len() <= usize::MAX,
        crate::safetensors_header::artifact_outcome(path, bytes, Ok(m)),
        0 <= i < m.tensors@.len(),
        crate::safetensors_values::load_outcome(ar, path, bytes, m.tensors@[i].name@, r),
    ensures
        r matches Ok(l) && l.name@ == m.tensors@[i].name@ && l.shape@ == m.tensors@[i].shape@
            && l.dtype == m.tensors@[i].dtype && l.values@.len() == crate::kv_cache::product(
            m.tensors@[i].shape@,
        ),
{
    crate::safetensors_header::accepted_artifacts_are_covered(path, bytes, m);
    let o = Ok::<SafetensorsManifest, crate::error::ErrorView>(m);
    let n = crate::safetensors_header::header_len(path, bytes, bytes.len() as u64)->Ok_0;
    let header = bytes.subrange(8, 8 + n as int);
    assert(!crate::safetensors_header::is_parse_error(
        path,
        "failed to parse safetensors header: "@,
        o,
    ));
    let tensors = crate::safetensors_header::parsed_header(
        vstd::utf8::decode_utf8(header),
    ).unwrap();
    let (v, len) = choose|v: Seq<crate::safetensors_header::HeaderTensor>, n: usize|
        #![trigger crate::safetensors_header::lists(tensors, v), crate::safetensors_header::data_end(tensors, n as nat)]
        crate::safetensors_header::lists(tensors, v) && crate::safetensors_header::data_end(
            tensors,
            n as nat,
        ) && crate::safetensors_header::manifest_outcome(
            path,
            8 + header.len(),
            bytes.len(),
            n,
            v,
            o,
        );
    assert(crate::safetensors_header::first_unsupported(v, 0) is None);
    let e = m.tensors@[i];
    assert(crate::safetensors_header::entry_of(e, v[i]));
    assert(v[i].info() == tensors[v[i].name@]);
    let names = crate::safetensors_header::header_names(v);
    assert(names[i] == e.name@);
    assert(names.contains(e.name@));
    assert(tensors.dom().contains(e.name@));
    assert(crate::safetensors_values::file_tensors(bytes) is Some);
    let raw = crate::safetensors_values::file_tensors(bytes).unwrap()[e.name@];
    let w = e.dtype.width();
    let count = crate::kv_cache::product(e.shape@);
    assert(raw.2.len() == w * count);
    assert(w * count == count * w) by (nonlinear_arith);
    vstd::arithmetic::div_mod::lemma_mod_multiples_basic(count as int, w as int);
    let l = r->Ok_0;
    assert(l.values@.len() == count) by (nonlinear_arith)
        requires
            l.values@.len() * w == count * w,
            w > 0,
    ;
}

/// A configuration whose architecture or element type is not supported is
/// refused for that, whatever else it says.
pub proof fn unsupported_comes_first(
    path: Seq<char>,
    other_path: Seq<char>,
    cfg: crate::config::HfConfig,
    other: crate::config::HfConfig,
)
    requires
        other.model_type@ == cfg.model_type@,
        other.torch_dtype@ == cfg.torch_dtype@,
        crate::config::hf_gate_outcome(cfg.model_type@, cfg.torch_dtype@) is Err,
    ensures
        crate::config::hf_refusal(path, cfg) == crate::config::hf_refusal(other_path, other),
        crate::config::hf_refusal(path, cfg) matches Some(
            crate::error::ErrorView::Unsupported { .. },
        ),
{
}

} // verus!
