use vstd::prelude::*;

use crate::error::{InvalidModelError, OcelotlError, UnsupportedError};
use crate::text::{chars_vec, same_text, Text};
use crate::types::{DType, ModelMetadata};

verus! {

/// The index at or after `i` where `needle` starts for the first time.
pub open spec fn first_match(text: Seq<char>, needle: Seq<char>, i: int) -> Option<int>
    decreases text.len() + 1 - i,
{
    if i < 0 || i + needle.len() > text.len() {
        None
    } else if text.subrange(i, i + needle.len()) == needle {
        Some(i)
    } else {
        first_match(text, needle, i + 1)
    }
}

/// The name between back quotes in "missing field `<name>`".
pub open spec fn missing_field(message: Seq<char>) -> Option<Seq<char>> {
    match first_match(message, "missing field `"@, 0) {
        None => None,
        Some(i) => {
            let start = i + "missing field `"@.len();
            match first_match(message, "`"@, start) {
                None => None,
                Some(end) => Some(message.subrange(start, end)),
            }
        },
    }
}

fn find_from(text: &Vec<char>, needle: &Vec<char>, from: usize) -> (r: Option<usize>)
    ensures
        (match r {
            Some(i) => Some(i as int),
            None => None,
        }) == first_match(text@, needle@, from as int),
        r matches Some(i) ==> from <= i && i + needle@.len() <= text@.len(),
{
    if needle.len() > text.len() {
        return None;
    }
    let last: usize = text.len() - needle.len();
    let mut i: usize = from;
    while i <= last
        invariant
            last + needle@.len() == text@.len(),
            last < text@.len() || needle@.len() == 0,
            text@.len() <= usize::MAX,
            from <= i,
            first_match(text@, needle@, from as int) == first_match(text@, needle@, i as int),
        decreases last + 1 - i,
    {
        let mut k: usize = 0;
        while k < needle.len() && text[i + k] == needle[k]
            invariant
                i <= last,
                last + needle@.len() == text@.len(),
                text@.len() <= usize::MAX,
                k <= needle@.len(),
                forall|j: int| 0 <= j < k ==> text@[i + j] == #[trigger] needle@[j],
            decreases needle@.len() - k,
        {
            k = k + 1;
        }
        if k == needle.len() {
            proof {
                assert(text@.subrange(i as int, i + needle@.len()) =~= needle@);
            }
            return Some(i);
        }
        proof {
            assert(text@.subrange(i as int, i + needle@.len())[k as int] == text@[i + k]);
        }
        if i == last {
            assert(first_match(text@, needle@, i + 1) is None);
            return None;
        }
        i = i + 1;
    }
    None
}

/// The field name in a "missing field" message; nothing where the message is
/// another one.
pub fn extract_missing_field(message: &str) -> (r: Option<String>)
    ensures
        crate::text::opt_chars(r) == missing_field(message@),
{
    let text: Vec<char> = chars_vec(message);
    let needle: Vec<char> = chars_vec("missing field `");
    let total: usize = text.len();
    let start: usize = match find_from(&text, &needle, 0) {
        Some(i) => {
            assert(i + needle@.len() <= total);
            i + needle.len()
        },
        None => return None,
    };
    let quote: Vec<char> = chars_vec("`");
    match find_from(&text, &quote, start) {
        Some(end) => Some(String::from_str(message.substring_char(start, end))),
        None => None,
    }
}

/// The error of a document that does not parse; a missing field is named.
pub open spec fn parse_error(path: Seq<char>, message: Seq<char>) -> crate::error::ErrorView {
    crate::error::ErrorView::InvalidModel {
        path: Some(path),
        field: missing_field(message),
        message,
    }
}

/// The error of a document that does not have the required fields: `what`
/// names the document, `source` is the parser's message.
pub fn document_error(path: &str, what: &str, source: &str) -> (e: OcelotlError)
    ensures
        e@ == parse_error(path@, "failed to parse "@ + what@ + ": "@ + source@),
{
    let message: String = Text::new("failed to parse ").s(what).s(": ").s(source).done();
    let field: Option<String> = extract_missing_field(message.as_str());
    OcelotlError::InvalidModel(
        InvalidModelError { path: Some(String::from_str(path)), field, message },
    )
}

/// The error of a document of which not even the gating fields could be read.
pub fn gate_document_error(path: &str, what: &str, source: &str) -> (e: OcelotlError)
    ensures
        e@ == (crate::error::ErrorView::InvalidModel {
            path: Some(path@),
            field: None,
            message: "failed to parse "@ + what@ + ": "@ + source@,
        }),
{
    OcelotlError::InvalidModel(
        InvalidModelError {
            path: Some(String::from_str(path)),
            field: None,
            message: Text::new("failed to parse ").s(what).s(": ").s(source).done(),
        },
    )
}

/// The refusal of a value that is not on the list.
pub open spec fn not_supported(
    feature: Seq<char>,
    requested: Seq<char>,
    supported: Seq<Seq<char>>,
) -> crate::error::ErrorView {
    crate::error::ErrorView::Unsupported { feature, requested: Some(requested), supported }
}

/// The architectures that can be run.
pub open spec fn architectures() -> Seq<Seq<char>> {
    seq!["qwen2"@]
}

/// The element types of a metadata document that can be run.
pub open spec fn dtypes() -> Seq<Seq<char>> {
    seq!["f32"@]
}

/// The element types of a published configuration that can be run.
pub open spec fn torch_dtypes() -> Seq<Seq<char>> {
    seq!["float32"@, "float16"@, "bfloat16"@]
}

fn refuse(feature: &str, requested: &str, supported: Vec<String>) -> (e: OcelotlError)
    ensures
        e@ == not_supported(feature@, requested@, crate::text::words(supported@)),
{
    OcelotlError::Unsupported(
        UnsupportedError {
            feature: String::from_str(feature),
            requested: Some(String::from_str(requested)),
            supported,
        },
    )
}

/// Whether a document of this architecture is gone on with.
pub open spec fn architecture_gate(architecture: Seq<char>) -> Result<(), crate::error::ErrorView> {
    if architectures().contains(architecture) {
        Ok(())
    } else {
        Err(not_supported("architecture"@, architecture, architectures()))
    }
}

fn check_architecture(architecture: &str) -> (r: Result<(), OcelotlError>)
    ensures
        crate::error::outcome(r) == architecture_gate(architecture@),
{
    let ghost list = architectures();
    proof {
        assert(list[0] == "qwen2"@);
        assert(list.contains(architecture@) <==> architecture@ == "qwen2"@);
    }
    if same_text(architecture, "qwen2") {
        Ok(())
    } else {
        let mut supported: Vec<String> = Vec::new();
        supported.push(String::from_str("qwen2"));
        proof {
            assert(crate::text::words(supported@) =~= list);
        }
        Err(refuse("architecture", architecture, supported))
    }
}

/// Whether a metadata document is gone on with: architecture first, then
/// element type.
pub open spec fn metadata_gate_outcome(architecture: Seq<char>, dtype: Seq<char>) -> Result<
    (),
    crate::error::ErrorView,
> {
    match architecture_gate(architecture) {
        Err(e) => Err(e),
        Ok(_) => if dtypes().contains(dtype) {
            Ok(())
        } else {
            Err(not_supported("dtype"@, dtype, dtypes()))
        },
    }
}

/// Checks architecture and element type of a metadata document before the rest
/// of it is looked at.
pub fn metadata_gate(architecture: &str, dtype: &str) -> (r: Result<(), OcelotlError>)
    ensures
        crate::error::outcome(r) == metadata_gate_outcome(architecture@, dtype@),
{
    match check_architecture(architecture) {
        Ok(_) => {},
        Err(e) => return Err(e),
    }
    let ghost list = dtypes();
    proof {
        assert(list[0] == "f32"@);
        assert(list.contains(dtype@) <==> dtype@ == "f32"@);
    }
    if same_text(dtype, "f32") {
        Ok(())
    } else {
        let mut supported: Vec<String> = Vec::new();
        supported.push(String::from_str("f32"));
        proof {
            assert(crate::text::words(supported@) =~= list);
        }
        Err(refuse("dtype", dtype, supported))
    }
}

/// The element type of a `torch_dtype` name.
pub open spec fn torch_dtype_of(s: Seq<char>) -> Option<DType> {
    if s == "float32"@ {
        Some(DType::F32)
    } else if s == "float16"@ {
        Some(DType::F16)
    } else if s == "bfloat16"@ {
        Some(DType::BF16)
    } else {
        None
    }
}

/// The element type of a `torch_dtype` name, where it is supported.
pub fn map_torch_dtype(s: &str) -> (r: Option<DType>)
    ensures
        r == torch_dtype_of(s@),
        r is Some <==> torch_dtypes().contains(s@),
{
    let ghost list = torch_dtypes();
    proof {
        assert(list[0] == "float32"@ && list[1] == "float16"@ && list[2] == "bfloat16"@);
        assert(list.contains(s@) <==> s@ == "float32"@ || s@ == "float16"@ || s@ == "bfloat16"@);
    }
    if same_text(s, "float32") {
        Some(DType::F32)
    } else if same_text(s, "float16") {
        Some(DType::F16)
    } else if same_text(s, "bfloat16") {
        Some(DType::BF16)
    } else {
        None
    }
}

/// Whether a published configuration is gone on with: architecture first, then
/// element type.
pub open spec fn hf_gate_outcome(model_type: Seq<char>, torch_dtype: Seq<char>) -> Result<
    (),
    crate::error::ErrorView,
> {
    match architecture_gate(model_type) {
        Err(e) => Err(e),
        Ok(_) => if torch_dtypes().contains(torch_dtype) {
            Ok(())
        } else {
            Err(not_supported("torch_dtype"@, torch_dtype, torch_dtypes()))
        },
    }
}

/// Checks architecture and element type of a published configuration before the
/// rest of it is looked at.
pub fn hf_gate(model_type: &str, torch_dtype: &str) -> (r: Result<(), OcelotlError>)
    ensures
        crate::error::outcome(r) == hf_gate_outcome(model_type@, torch_dtype@),
{
    match check_architecture(model_type) {
        Ok(_) => {},
        Err(e) => return Err(e),
    }
    if map_torch_dtype(torch_dtype).is_some() {
        Ok(())
    } else {
        let mut supported: Vec<String> = Vec::new();
        supported.push(String::from_str("float32"));
        supported.push(String::from_str("float16"));
        supported.push(String::from_str("bfloat16"));
        proof {
            assert(crate::text::words(supported@) =~= torch_dtypes());
        }
        Err(refuse("torch_dtype", torch_dtype, supported))
    }
}

/// The fields of a published `config.json` that are used; the two
/// floating-point ones are IEEE 754 double bit patterns.
#[derive(Debug, Clone, PartialEq, Eq)]
pub struct HfConfig {
    pub model_type: String,
    pub vocab_size: usize,
    pub hidden_size: usize,
    pub intermediate_size: usize,
    pub num_hidden_layers: usize,
    pub num_attention_heads: usize,
    pub num_key_value_heads: usize,
    pub max_position_embeddings: usize,
    pub rope_theta_bits: u64,
    pub rms_norm_eps_bits: u64,
    pub torch_dtype: String,
    pub tie_word_embeddings: bool,
}

/// The metadata of a published model, and what of its configuration the
/// metadata does not hold.
#[derive(Debug, Clone, PartialEq, Eq)]
pub struct HfModelInfo {
    pub metadata: ModelMetadata,
    /// The artifact holds no output projection of its own; the embedding
    /// matrix is used for it.
    pub tie_word_embeddings: bool,
}

/// The metadata says what the configuration says; the head dimension is the
/// hidden size divided by the number of heads.
pub open spec fn info_of(cfg: HfConfig, info: HfModelInfo) -> bool {
    let m = info.metadata;
    &&& m.architecture@ == cfg.model_type@
    &&& m.vocab_size == cfg.vocab_size
    &&& m.num_hidden_layers == cfg.num_hidden_layers
    &&& m.hidden_size == cfg.hidden_size
    &&& m.intermediate_size == cfg.intermediate_size
    &&& m.num_attention_heads == cfg.num_attention_heads
    &&& m.num_key_value_heads == cfg.num_key_value_heads
    &&& m.head_dim == cfg.hidden_size / cfg.num_attention_heads
    &&& m.head_dim * m.num_attention_heads == m.hidden_size
    &&& m.context_length == cfg.max_position_embeddings
    &&& m.rope_theta_bits == cfg.rope_theta_bits
    &&& m.rms_norm_eps_bits == cfg.rms_norm_eps_bits
    &&& Some(m.dtype) == torch_dtype_of(cfg.torch_dtype@)
    &&& m.tokenizer_model_hint is None
    &&& info.tie_word_embeddings == cfg.tie_word_embeddings
}

/// When a configuration is refused, and how.
pub open spec fn hf_refusal(path: Seq<char>, cfg: HfConfig) -> Option<crate::error::ErrorView> {
    match hf_gate_outcome(cfg.model_type@, cfg.torch_dtype@) {
        Err(e) => Some(e),
        Ok(_) => if cfg.num_attention_heads == 0 || cfg.hidden_size % cfg.num_attention_heads
            != 0 {
            Some(
                crate::error::ErrorView::InvalidModel {
                    path: Some(path),
                    field: Some("head_dim"@),
                    message: "cannot derive head_dim: hidden_size ("@ + crate::text::dec(
                        cfg.hidden_size as nat,
                    ) + ") is not divisible by num_attention_heads ("@ + crate::text::dec(
                        cfg.num_attention_heads as nat,
                    ) + ")"@,
                },
            )
        } else {
            None
        },
    }
}

/// Turns a published configuration into the metadata of a model.
pub fn hf_model_info(path: &str, cfg: HfConfig) -> (r: Result<HfModelInfo, OcelotlError>)
    ensures
        (match r {
            Ok(_) => None,
            Err(e) => Some(e@),
        }) == hf_refusal(path@, cfg),
        r matches Ok(info) ==> info_of(cfg, info),
{
    match hf_gate(cfg.model_type.as_str(), cfg.torch_dtype.as_str()) {
        Ok(_) => {},
        Err(e) => return Err(e),
    }
    let dtype: DType = match map_torch_dtype(cfg.torch_dtype.as_str()) {
        Some(d) => d,
        None => {
            assert(false);
            DType::F32
        },
    };
    if cfg.num_attention_heads == 0 || cfg.hidden_size % cfg.num_attention_heads != 0 {
        return Err(
            OcelotlError::InvalidModel(
                InvalidModelError {
                    path: Some(String::from_str(path)),
                    field: Some(String::from_str("head_dim")),
                    message: Text::new("cannot derive head_dim: hidden_size (").n(
                        cfg.hidden_size,
                    ).s(") is not divisible by num_attention_heads (").n(
                        cfg.num_attention_heads,
                    ).s(")").done(),
                },
            ),
        );
    }
    let head_dim: usize = cfg.hidden_size / cfg.num_attention_heads;
    proof {
        let (h, n) = (cfg.hidden_size as int, cfg.num_attention_heads as int);
        vstd::arithmetic::div_mod::lemma_fundamental_div_mod(h, n);
        assert(head_dim * n == n * head_dim) by (nonlinear_arith);
    }
    Ok(
        HfModelInfo {
            metadata: ModelMetadata {
                architecture: cfg.model_type,
                vocab_size: cfg.vocab_size,
                num_hidden_layers: cfg.num_hidden_layers,
                hidden_size: cfg.hidden_size,
                intermediate_size: cfg.intermediate_size,
                num_attention_heads: cfg.num_attention_heads,
                num_key_value_heads: cfg.num_key_value_heads,
                head_dim,
                context_length: cfg.max_position_embeddings,
                rope_theta_bits: cfg.rope_theta_bits,
                rms_norm_eps_bits: cfg.rms_norm_eps_bits,
                dtype,
                tokenizer_model_hint: None,
            },
            tie_word_embeddings: cfg.tie_word_embeddings,
        },
    )
}

/// A message in the parser's standard form gives back the field that it names,
/// if nothing before it looks the same and the name holds no back quote.
pub proof fn missing_field_round_trips(before: Seq<char>, name: Seq<char>, after: Seq<char>)
    requires
        forall|i: int| 0 <= i < name.len() ==> #[trigger] name[i] != '`',
        forall|i: int|
            0 <= i < before.len() ==> #[trigger] (before + "missing field `"@ + name + "`"@
                + after).subrange(i, i + "missing field `"@.len()) != "missing field `"@,
    ensures
        missing_field(before + "missing field `"@ + name + "`"@ + after) == Some(name),
{
    let needle = "missing field `"@;
    let message = before + needle + name + "`"@ + after;
    reveal_strlit("missing field `");
    reveal_strlit("`");
    let at = before.len() as int;
    assert(message.subrange(at, at + needle.len()) =~= needle);
    match_reached(message, needle, 0, at);
    let start = at + needle.len();
    let end = start + name.len();
    assert(message.subrange(end, end + 1) =~= "`"@);
    assert forall|i: int| start <= i < end implies #[trigger] message.subrange(i, i + "`"@.len())
        != "`"@ by {
        assert(message.subrange(i, i + 1)[0] == name[i - start]);
    }
    match_reached(message, "`"@, start, end);
    assert(message.subrange(start, end) =~= name);
}

proof fn match_reached(text: Seq<char>, needle: Seq<char>, from: int, at: int)
    requires
        0 <= from <= at,
        at + needle.len() <= text.len(),
        text.subrange(at, at + needle.len()) == needle,
        forall|i: int|
            from <= i < at ==> #[trigger] text.subrange(i, i + needle.len()) != needle,
    ensures
        first_match(text, needle, from) == Some(at),
    decreases at - from,
{
    if from < at {
        assert(text.subrange(from, from + needle.len()) != needle);
        match_reached(text, needle, from + 1, at);
    }
}

} // verus!
