use vstd::prelude::*;

use crate::arith::Arith;
use crate::kv_cache::KvCacheLayout;
use crate::types::DType;
use crate::values::SupportedDtype;

verus! {

/// Little-endian: one byte stands for itself, and what follows a number's bytes
/// counts 256 times as much for each of them.
pub proof fn later_bytes_count_more(a: Seq<u8>, b: Seq<u8>)
    ensures
        a.len() == 1 ==> crate::bytes::le_value(a) == a[0],
        crate::bytes::le_value(a + b) == crate::bytes::le_value(a) + crate::bytes::pow256(a.len())
            * crate::bytes::le_value(b),
    decreases a.len(),
{
    reveal_with_fuel(crate::bytes::le_value, 2);
    if a.len() == 0 {
        assert(a + b =~= b);
        let v = crate::bytes::le_value(b);
        assert(1 * v == v);
    } else {
        later_bytes_count_more(a.drop_first(), b);
        assert((a + b).drop_first() =~= a.drop_first() + b);
        let (x, p, v) = (
            crate::bytes::le_value(a.drop_first()) as int,
            crate::bytes::pow256((a.len() - 1) as nat) as int,
            crate::bytes::le_value(b) as int,
        );
        assert(256 * (x + p * v) == 256 * x + (256 * p) * v) by (nonlinear_arith);
    }
}

/// Powers of 256.
pub proof fn powers_of_256(n: nat)
    ensures
        crate::bytes::pow256(0) == 1,
        crate::bytes::pow256(n + 1) == 256 * crate::bytes::pow256(n),
{
}

/// What the bytes of dense values mean: element `i` of single-precision data has
/// the four bytes from `4 * i` on as its bit pattern, the low ones first; one of
/// brain-float data has the two bytes from `2 * i` on as the upper half of it; and
/// one of half-precision data is the widened number of its two bytes.
pub proof fn dense_bytes<T, A: Arith<T>>(
    ar: &A,
    dtype: SupportedDtype,
    data: Seq<u8>,
    values: Seq<T>,
    i: int,
)
    requires
        crate::values::dense_values(ar, dtype, data, values),
        0 <= i < values.len(),
    ensures
        dtype == SupportedDtype::F32 ==> data.len() == 4 * values.len() && crate::arith::decodes(
            ar,
            (data[4 * i] + 0x100 * data[4 * i + 1] + 0x1_0000 * data[4 * i + 2] + 0x100_0000
                * data[4 * i + 3]) as u32,
            values[i],
        ),
        dtype == SupportedDtype::F16 ==> data.len() == 2 * values.len() && crate::arith::decodes(
            ar,
            crate::half::single_of_half((data[2 * i] + 0x100 * data[2 * i + 1]) as u16) as u32,
            values[i],
        ),
        dtype == SupportedDtype::BF16 ==> data.len() == 2 * values.len() && crate::arith::decodes(
            ar,
            (0x1_0000 * data[2 * i] + 0x100_0000 * data[2 * i + 1]) as u32,
            values[i],
        ),
{
    let w = dtype.width() as int;
    crate::grid::row_bound(i, values.len() as int, w);
    let part = data.subrange(i * w, i * w + w);
    reveal_with_fuel(crate::bytes::le_value, 5);
    assert(crate::arith::decodes(ar, crate::values::element_bits(dtype, data, i), values[i]));
    assert(part[0] == data[i * w] && part[1] == data[i * w + 1]);
    if dtype == SupportedDtype::F32 {
        assert(part[2] == data[i * w + 2] && part[3] == data[i * w + 3]);
        assert(part.drop_first()[0] == part[1]);
        assert(part.drop_first().drop_first()[0] == part[2]);
        assert(part.drop_first().drop_first().drop_first()[0] == part[3]);
    } else {
        assert(part.drop_first()[0] == part[1]);
    }
}

/// The rows of a cache follow each other: the first starts at the start, each
/// position of a layer one row, of one value for each head and place, after the
/// position before it, and each layer one row for each position after the layer
/// before it.
pub proof fn rows_follow_each_other(l: KvCacheLayout, layer: nat, position: nat)
    ensures
        l.offset(0, 0) == 0,
        l.offset(layer, position + 1) == l.offset(layer, position) + l.num_key_value_heads
            * l.head_dim,
        l.offset(layer + 1, position) == l.offset(layer, position) + l.capacity_tokens * (
        l.num_key_value_heads * l.head_dim),
{
    let (row, all) = (l.row() as int, l.layer() as int);
    assert((position + 1) * row == position * row + row) by (nonlinear_arith);
    assert((layer + 1) * all == layer * all + all) by (nonlinear_arith);
    assert(0 * all == 0 && 0 * row == 0);
}

/// The bytes of a cache: keys and values alike, each layer, position, head and
/// place has four bytes in single precision, two in half precision and brain
/// float, and one in the quantised types.
pub proof fn caches_hold_keys_and_values(l: KvCacheLayout)
    requires
        l.wf(),
    ensures
        l.bytes_outcome() matches Ok(n) ==> {
            let values = l.num_layers * (l.capacity_tokens * (l.num_key_value_heads * l.head_dim));
            &&& l.dtype == DType::F32 ==> n == 8 * values
            &&& l.dtype == DType::F16 || l.dtype == DType::BF16 ==> n == 4 * values
            &&& l.dtype == DType::Q4 || l.dtype == DType::Q8 ==> n == 2 * values
        },
{
    if let Ok(n) = l.bytes_outcome() {
        let k = l.keys_outcome()->Ok_0;
        let t = l.total_outcome()->Ok_0;
        crate::kv_cache::product_of_two(2, k);
        crate::kv_cache::product_of_two(t, l.width());
        cached_keys(l);
    }
}

proof fn cached_keys(l: KvCacheLayout)
    requires
        l.wf(),
        l.keys_outcome() is Ok,
    ensures
        l.keys_outcome()->Ok_0 == l.num_layers * (l.capacity_tokens * (l.num_key_value_heads
            * l.head_dim)),
{
    let (a, b, c, e) = (l.num_layers, l.capacity_tokens, l.num_key_value_heads, l.head_dim);
    crate::kv_cache::product_of_four(a, b, c, e);
    assert(a * b * c * e == a * (b * (c * e))) by (nonlinear_arith);
}

/// What transposing does: cell `(r, c)` becomes cell `(c, r)`.
pub proof fn rows_become_columns<T>(src: Seq<T>, rows: int, cols: int, r: int, c: int)
    requires
        src.len() == rows * cols,
        0 <= r < rows,
        0 <= c < cols,
    ensures
        crate::layout::transposed(src, rows, cols).len() == src.len(),
        crate::layout::transposed(src, rows, cols)[c * rows + r] == src[r * cols + c],
{
    crate::grid::cell(c, r, rows);
    crate::grid::row_bound(c, cols, rows);
    assert(cols * rows == rows * cols) by (nonlinear_arith);
}

/// The number that decimal digits stand for.
pub open spec fn read_decimal(s: Seq<char>) -> int
    decreases s.len(),
{
    if s.len() == 0 {
        0
    } else {
        10 * read_decimal(s.drop_last()) + (s.last() as int - '0' as int)
    }
}

/// The text of a number is its digits: they stand for it, each is one of `0` to
/// `9`, and the first is no zero unless it is the only one.
pub proof fn decimals_round_trip(n: nat)
    ensures
        read_decimal(crate::text::dec(n)) == n,
        crate::text::dec(n).len() > 0,
        forall|i: int|
            0 <= i < crate::text::dec(n).len() ==> '0' as int <= #[trigger] crate::text::dec(
                n,
            )[i] as int <= '9' as int,
        crate::text::dec(n).len() > 1 ==> crate::text::dec(n)[0] != '0',
        n > 0 ==> crate::text::dec(n)[0] != '0',
    decreases n,
{
    let s = crate::text::dec(n);
    reveal_with_fuel(read_decimal, 2);
    if n >= 10 {
        decimals_round_trip(n / 10);
        let before = crate::text::dec(n / 10);
        assert(s.drop_last() =~= before);
        assert(s[0] == before[0]);
        assert forall|i: int| 0 <= i < s.len() implies '0' as int <= #[trigger] s[i] as int
            <= '9' as int by {
            if i < before.len() {
                assert(s[i] == before[i]);
            }
        }
    }
}

/// Passing over `n` values of a fixed width passes over `n` times that width.
pub proof fn fixed_values_are_passed_over(
    f: crate::gguf::FileView,
    t: crate::gguf::GgufMetadataType,
    depth: nat,
    pos: nat,
    n: nat,
    width: nat,
)
    requires
        width == (match t {
            crate::gguf::GgufMetadataType::U8
            | crate::gguf::GgufMetadataType::I8
            | crate::gguf::GgufMetadataType::Bool => 1nat,
            crate::gguf::GgufMetadataType::U16 | crate::gguf::GgufMetadataType::I16 => 2nat,
            crate::gguf::GgufMetadataType::U32
            | crate::gguf::GgufMetadataType::I32
            | crate::gguf::GgufMetadataType::F32 => 4nat,
            _ => 8nat,
        }),
        t != crate::gguf::GgufMetadataType::String,
        t != crate::gguf::GgufMetadataType::Array,
        pos + n * width <= f.file_len,
    ensures
        crate::gguf::skip_values(f, t, depth, pos, n) == Ok::<nat, crate::gguf::StopView>(
            pos + n * width,
        ),
    decreases n,
{
    reveal_with_fuel(crate::gguf::skip_values, 2);
    reveal_with_fuel(crate::gguf::skip_value, 2);
    if n > 0 {
        let k = (n - 1) as nat;
        assert(n * width == k * width + width) by (nonlinear_arith)
            requires
                n == k + 1,
        ;
        fixed_values_are_passed_over(f, t, depth, pos, k, width);
        assert(crate::gguf::skip_value(f, t, depth, pos + k * width) == Ok::<
            nat,
            crate::gguf::StopView,
        >(pos + k * width + width));
    } else {
        assert(0 * width == 0);
    }
}

} // verus!
