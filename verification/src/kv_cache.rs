use vstd::prelude::*;

use crate::error::{runtime_err, OcelotlError};
use crate::text::Text;
use crate::types::{DType, Device};

verus! {

broadcast use vstd::std_specs::hash::group_hash_axioms;

/// The product of the dimensions; 1 where there are none.
pub open spec fn product(dims: Seq<usize>) -> nat
    decreases dims.len(),
{
    if dims.len() == 0 {
        1
    } else {
        product(dims.drop_last()) * (dims.last() as nat)
    }
}

/// Whether every partial product, taken from the left, fits in `usize`.
pub open spec fn product_fits(dims: Seq<usize>) -> bool {
    forall|k: int| 0 <= k <= dims.len() ==> product(#[trigger] dims.take(k)) <= usize::MAX
}

/// The product of the dimensions, or the error that names them.
pub open spec fn product_of(label: Seq<char>, dims: Seq<usize>) -> Result<
    usize,
    crate::error::ErrorView,
> {
    if product_fits(dims) {
        Ok(product(dims) as usize)
    } else {
        Err(
            crate::error::runtime_error(
                label + " overflowed usize for dims "@ + ("["@ + crate::text::dec_list(dims)
                    + "]"@),
            ),
        )
    }
}

/// Multiplies the dimensions from the left; an overflow is an error that names them.
pub fn checked_product(label: &str, dims: &[usize]) -> (r: Result<usize, OcelotlError>)
    ensures
        crate::error::outcome(r) == product_of(label@, dims@),
{
    let mut p: usize = 1;
    let mut i: usize = 0;
    while i < dims.len()
        invariant
            i <= dims@.len(),
            p == product(dims@.take(i as int)),
            forall|k: int| 0 <= k <= i ==> product(#[trigger] dims@.take(k)) <= usize::MAX,
        decreases dims@.len() - i,
    {
        proof {
            assert(dims@.take(i + 1).drop_last() == dims@.take(i as int));
            assert(product(dims@.take(i + 1)) == product(dims@.take(i as int)) * (
            dims@[i as int] as nat));
        }
        match p.checked_mul(dims[i]) {
            Some(q) => {
                p = q;
            },
            None => {
                proof {
                    assert(product(dims@.take(i + 1)) > usize::MAX);
                }
                return Err(
                    runtime_err(
                        Text::new(label).s(" overflowed usize for dims ").list(dims).done(),
                    ),
                );
            },
        }
        i = i + 1;
    }
    proof {
        assert(dims@.take(i as int) == dims@);
    }
    Ok(p)
}

/// With two dimensions only the whole product can overflow.
pub proof fn product_of_two(a: usize, b: usize)
    ensures
        product(seq![a, b]) == a * b,
        product_fits(seq![a, b]) <==> a * b <= usize::MAX,
{
    let d = seq![a, b];
    assert(seq![a].drop_last() =~= Seq::<usize>::empty());
    assert(product(Seq::<usize>::empty()) == 1);
    assert(product(seq![a]) == product(Seq::<usize>::empty()) * (a as nat));
    assert(d.drop_last() =~= seq![a]);
    assert(1 * (a as nat) == a) by (nonlinear_arith);
    assert(product(seq![a]) == a);
    assert(product(d) == product(seq![a]) * (b as nat));
    assert(d.take(0) =~= Seq::<usize>::empty());
    assert(d.take(1) =~= seq![a]);
    assert(d.take(2) =~= d);
}

/// With three dimensions, the last one positive, only the whole product can overflow.
pub proof fn product_of_three(a: usize, b: usize, c: usize)
    requires
        c > 0,
    ensures
        product(seq![a, b, c]) == a * b * c,
        product_fits(seq![a, b, c]) <==> a * b * c <= usize::MAX,
{
    let d = seq![a, b, c];
    product_of_two(a, b);
    assert(d.drop_last() =~= seq![a, b]);
    assert(product(d) == a * b * c);
    assert(forall|k: int| 0 <= k <= 2 ==> #[trigger] d.take(k) =~= seq![a, b].take(k));
    assert(d.take(3) =~= d);
    assert(a * b <= a * b * c) by (nonlinear_arith)
        requires
            c > 0,
    ;
    if a * b * c <= usize::MAX {
        assert forall|k: int| 0 <= k <= 3 implies product(#[trigger] d.take(k)) <= usize::MAX by {
            if k <= 2 {
                assert(d.take(k) =~= seq![a, b].take(k));
            }
        }
    }
}

/// With four dimensions, the last two positive, only the whole product can overflow.
pub proof fn product_of_four(a: usize, b: usize, c: usize, e: usize)
    requires
        c > 0,
        e > 0,
    ensures
        product(seq![a, b, c, e]) == a * b * c * e,
        product_fits(seq![a, b, c, e]) <==> a * b * c * e <= usize::MAX,
{
    let d = seq![a, b, c, e];
    product_of_three(a, b, c);
    assert(d.drop_last() =~= seq![a, b, c]);
    assert(product(d) == a * b * c * e);
    assert(d.take(4) =~= d);
    assert(a * b * c <= a * b * c * e) by (nonlinear_arith)
        requires
            e > 0,
    ;
    if a * b * c * e <= usize::MAX {
        assert forall|k: int| 0 <= k <= 4 implies product(#[trigger] d.take(k)) <= usize::MAX by {
            if k <= 3 {
                assert(d.take(k) =~= seq![a, b, c].take(k));
            }
        }
    }
}

/// The shape of a key/value cache: per layer one key tensor and one value
/// tensor of `capacity_tokens` rows, each `num_key_value_heads * head_dim` wide.
#[derive(Debug, Clone, PartialEq, Eq, Structural)]
pub struct KvCacheLayout {
    pub num_layers: usize,
    pub num_key_value_heads: usize,
    pub capacity_tokens: usize,
    pub head_dim: usize,
    pub dtype: DType,
    pub device: Device,
}

impl KvCacheLayout {
    /// No dimension is zero.
    pub open spec fn wf(self) -> bool {
        &&& self.num_layers > 0
        &&& self.num_key_value_heads > 0
        &&& self.capacity_tokens > 0
        &&& self.head_dim > 0
    }

    /// The values of one row of one tensor.
    pub open spec fn row(self) -> nat {
        self.num_key_value_heads as nat * self.head_dim as nat
    }

    /// The values of one tensor of one layer.
    pub open spec fn layer(self) -> nat {
        self.capacity_tokens as nat * self.row()
    }

    /// The values of all key tensors together.
    pub open spec fn keys(self) -> nat {
        self.num_layers as nat * self.layer()
    }

    /// Where the row of `position` starts in the key (or value) tensors laid
    /// out layer after layer.
    pub open spec fn offset(self, layer: nat, position: nat) -> nat {
        layer * self.layer() + position * self.row()
    }

    pub open spec fn checked_new(
        num_layers: usize,
        num_key_value_heads: usize,
        capacity_tokens: usize,
        head_dim: usize,
        dtype: DType,
        device: Device,
    ) -> Result<KvCacheLayout, crate::error::ErrorView> {
        if num_layers == 0 {
            Err(crate::error::runtime_error("kv cache num_layers must be > 0"@))
        } else if num_key_value_heads == 0 {
            Err(crate::error::runtime_error("kv cache num_key_value_heads must be > 0"@))
        } else if capacity_tokens == 0 {
            Err(crate::error::runtime_error("kv cache capacity_tokens must be > 0"@))
        } else if head_dim == 0 {
            Err(crate::error::runtime_error("kv cache head_dim must be > 0"@))
        } else {
            Ok(
                KvCacheLayout {
                    num_layers,
                    num_key_value_heads,
                    capacity_tokens,
                    head_dim,
                    dtype,
                    device,
                },
            )
        }
    }

    /// A layout with the given dimensions, none of which may be zero.
    pub fn new(
        num_layers: usize,
        num_key_value_heads: usize,
        capacity_tokens: usize,
        head_dim: usize,
        dtype: DType,
        device: Device,
    ) -> (r: Result<Self, OcelotlError>)
        ensures
            crate::error::outcome(r) == Self::checked_new(
                num_layers,
                num_key_value_heads,
                capacity_tokens,
                head_dim,
                dtype,
                device,
            ),
            r matches Ok(l) ==> l.wf(),
    {
        if num_layers == 0 {
            return Err(runtime_err(String::from_str("kv cache num_layers must be > 0")));
        }
        if num_key_value_heads == 0 {
            return Err(runtime_err(String::from_str("kv cache num_key_value_heads must be > 0")));
        }
        if capacity_tokens == 0 {
            return Err(runtime_err(String::from_str("kv cache capacity_tokens must be > 0")));
        }
        if head_dim == 0 {
            return Err(runtime_err(String::from_str("kv cache head_dim must be > 0")));
        }
        Ok(
            KvCacheLayout {
                num_layers,
                num_key_value_heads,
                capacity_tokens,
                head_dim,
                dtype,
                device,
            },
        )
    }

    pub open spec fn row_outcome(self) -> Result<usize, crate::error::ErrorView> {
        product_of(
            "kv cache values_per_position"@,
            seq![self.num_key_value_heads, self.head_dim],
        )
    }

    /// The values of one row of one tensor.
    pub fn values_per_position(&self) -> (r: Result<usize, OcelotlError>)
        ensures
            crate::error::outcome(r) == self.row_outcome(),
            r is Ok <==> self.row() <= usize::MAX,
            r matches Ok(n) ==> n == self.row(),
    {
        let dims: [usize; 2] = [self.num_key_value_heads, self.head_dim];
        proof {
            product_of_two(self.num_key_value_heads, self.head_dim);
            assert(dims@ =~= seq![self.num_key_value_heads, self.head_dim]);
        }
        checked_product("kv cache values_per_position", &dims)
    }

    pub open spec fn layer_outcome(self) -> Result<usize, crate::error::ErrorView> {
        product_of(
            "kv cache values_per_layer_tensor"@,
            seq![self.capacity_tokens, self.num_key_value_heads, self.head_dim],
        )
    }

    /// The values of one tensor of one layer.
    pub fn values_per_layer_tensor(&self) -> (r: Result<usize, OcelotlError>)
        ensures
            crate::error::outcome(r) == self.layer_outcome(),
            r matches Ok(n) ==> n == self.layer(),
            self.wf() ==> (r is Ok <==> self.layer() <= usize::MAX),
    {
        let dims: [usize; 3] = [self.capacity_tokens, self.num_key_value_heads, self.head_dim];
        proof {
            assert(dims@ =~= seq![self.capacity_tokens, self.num_key_value_heads, self.head_dim]);
            self.layer_products();
        }
        checked_product("kv cache values_per_layer_tensor", &dims)
    }

    pub open spec fn keys_outcome(self) -> Result<usize, crate::error::ErrorView> {
        product_of(
            "kv cache values_per_all_key_tensors"@,
            seq![
                self.num_layers,
                self.capacity_tokens,
                self.num_key_value_heads,
                self.head_dim,
            ],
        )
    }

    /// The values of the key tensors of all layers.
    pub fn values_per_all_key_tensors(&self) -> (r: Result<usize, OcelotlError>)
        ensures
            crate::error::outcome(r) == self.keys_outcome(),
            r matches Ok(n) ==> n == self.keys(),
            self.wf() ==> (r is Ok <==> self.keys() <= usize::MAX),
    {
        let dims: [usize; 4] = [
            self.num_layers,
            self.capacity_tokens,
            self.num_key_value_heads,
            self.head_dim,
        ];
        proof {
            assert(dims@ =~= seq![
                self.num_layers,
                self.capacity_tokens,
                self.num_key_value_heads,
                self.head_dim,
            ]);
            self.layer_products();
        }
        checked_product("kv cache values_per_all_key_tensors", &dims)
    }

    proof fn layer_products(self)
        ensures
            self.layer_outcome() matches Ok(n) ==> n == self.layer(),
            self.keys_outcome() matches Ok(n) ==> n == self.keys(),
            self.wf() ==> (self.layer_outcome() is Ok <==> self.layer() <= usize::MAX),
            self.wf() ==> (self.keys_outcome() is Ok <==> self.keys() <= usize::MAX),
    {
        let (l, c, h, d) = (
            self.num_layers,
            self.capacity_tokens,
            self.num_key_value_heads,
            self.head_dim,
        );
        assert(c * h * d == self.layer()) by (nonlinear_arith)
            requires
                self.layer() == c * (h * d),
        ;
        assert(l * c * h * d == self.keys()) by (nonlinear_arith)
            requires
                self.keys() == l * (c * (h * d)),
        ;
        reveal_with_fuel(product, 5);
        let s3 = seq![c, h, d];
        let s4 = seq![l, c, h, d];
        assert(s3.drop_last() =~= seq![c, h]);
        assert(s4.drop_last() =~= seq![l, c, h]);
        assert(seq![l, c, h].drop_last() =~= seq![l, c]);
        product_of_two(c, h);
        product_of_two(l, c);
        assert(s3.take(3) =~= s3);
        assert(s4.take(4) =~= s4);
        assert(product(s3) == c * h * d);
        assert(product(s4) == l * c * h * d);
        if self.wf() {
            product_of_three(c, h, d);
            product_of_four(l, c, h, d);
        }
    }

    pub open spec fn total_outcome(self) -> Result<usize, crate::error::ErrorView> {
        match self.keys_outcome() {
            Ok(k) => product_of("kv cache total_values"@, seq![2usize, k]),
            Err(e) => Err(e),
        }
    }

    /// The values of all key and value tensors.
    pub fn total_values(&self) -> (r: Result<usize, OcelotlError>)
        ensures
            crate::error::outcome(r) == self.total_outcome(),
            r matches Ok(n) ==> n == 2 * self.keys(),
            self.wf() ==> (r is Ok <==> 2 * self.keys() <= usize::MAX),
    {
        let k: usize = match self.values_per_all_key_tensors() {
            Ok(k) => k,
            Err(e) => return Err(e),
        };
        let dims: [usize; 2] = [2, k];
        proof {
            product_of_two(2, k);
            assert(dims@ =~= seq![2usize, k]);
        }
        checked_product("kv cache total_values", &dims)
    }

    pub open spec fn width(self) -> usize {
        match self.dtype {
            DType::F32 => 4,
            DType::F16 | DType::BF16 => 2,
            DType::Q4 | DType::Q8 => 1,
        }
    }

    /// The bytes of one cached value.
    pub fn bytes_per_value(&self) -> (r: usize)
        ensures
            r == self.width(),
    {
        match self.dtype {
            DType::F32 => 4,
            DType::F16 | DType::BF16 => 2,
            DType::Q4 | DType::Q8 => 1,
        }
    }

    pub open spec fn bytes_outcome(self) -> Result<usize, crate::error::ErrorView> {
        match self.total_outcome() {
            Ok(t) => product_of("kv cache total_bytes"@, seq![t, self.width()]),
            Err(e) => Err(e),
        }
    }

    /// The bytes of the whole cache.
    pub fn total_bytes(&self) -> (r: Result<usize, OcelotlError>)
        ensures
            crate::error::outcome(r) == self.bytes_outcome(),
            r matches Ok(n) ==> n == 2 * self.keys() * self.width(),
            self.wf() ==> (r is Ok <==> 2 * self.keys() * self.width() <= usize::MAX),
    {
        let t: usize = match self.total_values() {
            Ok(t) => t,
            Err(e) => {
                proof {
                    assert(2 * self.keys() * self.width() >= 2 * self.keys()) by (nonlinear_arith)
                        requires
                            self.width() >= 1,
                    ;
                }
                return Err(e);
            },
        };
        let w: usize = self.bytes_per_value();
        let dims: [usize; 2] = [t, w];
        proof {
            product_of_two(t, w);
            assert(dims@ =~= seq![t, w]);
        }
        checked_product("kv cache total_bytes", &dims)
    }

    pub open spec fn offset_outcome(self, layer: usize, position: usize) -> Result<
        usize,
        crate::error::ErrorView,
    > {
        if layer >= self.num_layers {
            Err(
                crate::error::runtime_error(
                    "kv cache layer "@ + crate::text::dec(layer as nat) + " out of range for "@
                        + crate::text::dec(self.num_layers as nat) + " layers"@,
                ),
            )
        } else if position >= self.capacity_tokens {
            Err(
                crate::error::runtime_error(
                    "kv cache position "@ + crate::text::dec(position as nat)
                        + " out of range for capacity "@ + crate::text::dec(
                        self.capacity_tokens as nat,
                    ),
                ),
            )
        } else {
            match self.layer_outcome() {
                Err(e) => Err(e),
                Ok(lt) => match product_of("kv cache layer offset"@, seq![layer, lt]) {
                    Err(e) => Err(e),
                    Ok(base) => match self.row_outcome() {
                        Err(e) => Err(e),
                        Ok(row) => match product_of(
                            "kv cache position offset"@,
                            seq![position, row],
                        ) {
                            Err(e) => Err(e),
                            Ok(off) => if base + off <= usize::MAX {
                                Ok((base + off) as usize)
                            } else {
                                Err(
                                    crate::error::runtime_error(
                                        "kv cache layer position offset overflowed usize"@,
                                    ),
                                )
                            },
                        },
                    },
                },
            }
        }
    }

    /// Where the row of `position` starts in the key tensors (or the value
    /// tensors) laid out layer after layer.
    pub fn layer_position_offset(&self, layer: usize, position: usize) -> (r: Result<
        usize,
        OcelotlError,
    >)
        ensures
            crate::error::outcome(r) == self.offset_outcome(layer, position),
            r matches Ok(o) ==> o == self.offset(layer as nat, position as nat),
    {
        if layer >= self.num_layers {
            return Err(
                runtime_err(
                    Text::new("kv cache layer ").n(layer).s(" out of range for ").n(
                        self.num_layers,
                    ).s(" layers").done(),
                ),
            );
        }
        if position >= self.capacity_tokens {
            return Err(
                runtime_err(
                    Text::new("kv cache position ").n(position).s(" out of range for capacity ").n(
                        self.capacity_tokens,
                    ).done(),
                ),
            );
        }
        let lt: usize = match self.values_per_layer_tensor() {
            Ok(n) => n,
            Err(e) => return Err(e),
        };
        let layer_dims: [usize; 2] = [layer, lt];
        proof {
            product_of_two(layer, lt);
            assert(layer_dims@ =~= seq![layer, lt]);
        }
        let layer_base: usize = match checked_product("kv cache layer offset", &layer_dims) {
            Ok(n) => n,
            Err(e) => return Err(e),
        };
        let row: usize = match self.values_per_position() {
            Ok(n) => n,
            Err(e) => return Err(e),
        };
        let position_dims: [usize; 2] = [position, row];
        proof {
            product_of_two(position, row);
            assert(position_dims@ =~= seq![position, row]);
        }
        let position_base: usize = match checked_product(
            "kv cache position offset",
            &position_dims,
        ) {
            Ok(n) => n,
            Err(e) => return Err(e),
        };
        match layer_base.checked_add(position_base) {
            Some(o) => Ok(o),
            None => Err(
                runtime_err(
                    String::from_str("kv cache layer position offset overflowed usize"),
                ),
            ),
        }
    }
}

/// The rows of a cache whose key tensors fit in `usize` all have an offset, and
/// each lies inside the key tensors.
pub proof fn offsets_are_in_range(l: KvCacheLayout, layer: usize, position: usize)
    requires
        l.wf(),
        l.keys_outcome() is Ok,
        layer < l.num_layers,
        position < l.capacity_tokens,
    ensures
        l.offset_outcome(layer, position) == Ok::<usize, crate::error::ErrorView>(
            l.offset(layer as nat, position as nat) as usize,
        ),
        l.offset(layer as nat, position as nat) + l.row() <= l.keys(),
        l.keys() <= usize::MAX,
{
    l.layer_products();
    let (row, lay) = (l.row(), l.layer());
    assert(row >= 1) by (nonlinear_arith)
        requires
            row == l.num_key_value_heads * l.head_dim,
            l.num_key_value_heads > 0,
            l.head_dim > 0,
    ;
    assert(lay >= row && (position + 1) * row <= lay) by (nonlinear_arith)
        requires
            lay == l.capacity_tokens * row,
            l.capacity_tokens >= 1,
            position + 1 <= l.capacity_tokens,
            row >= 1,
    ;
    assert((layer + 1) * lay <= l.keys()) by (nonlinear_arith)
        requires
            l.keys() == l.num_layers * lay,
            layer + 1 <= l.num_layers,
            lay >= 1,
    ;
    assert((layer + 1) * lay == layer * lay + lay) by (nonlinear_arith);
    assert((position + 1) * row == position * row + row) by (nonlinear_arith);
    assert(0 <= layer * lay) by (nonlinear_arith);
    assert(0 <= position * row) by (nonlinear_arith);
    product_of_two(l.num_key_value_heads, l.head_dim);
    product_of_two(layer, lay as usize);
    product_of_two(position, row as usize);
}

/// The rows of different layers or positions do not overlap.
pub proof fn offsets_are_disjoint(
    l: KvCacheLayout,
    layer1: nat,
    position1: nat,
    layer2: nat,
    position2: nat,
)
    requires
        l.wf(),
        position1 < l.capacity_tokens,
        position2 < l.capacity_tokens,
        (layer1, position1) != (layer2, position2),
    ensures
        l.offset(layer1, position1) + l.row() <= l.offset(layer2, position2) || l.offset(
            layer2,
            position2,
        ) + l.row() <= l.offset(layer1, position1),
{
    let (row, lay) = (l.row(), l.layer());
    if layer1 < layer2 {
        offsets_are_ordered(l, layer1, position1, layer2, position2);
    } else if layer2 < layer1 {
        offsets_are_ordered(l, layer2, position2, layer1, position1);
    } else if position1 < position2 {
        assert(position1 * row + row <= position2 * row) by (nonlinear_arith)
            requires
                position1 + 1 <= position2,
        ;
    } else {
        assert(position2 * row + row <= position1 * row) by (nonlinear_arith)
            requires
                position2 + 1 <= position1,
        ;
    }
}

proof fn offsets_are_ordered(
    l: KvCacheLayout,
    layer1: nat,
    position1: nat,
    layer2: nat,
    position2: nat,
)
    requires
        position1 < l.capacity_tokens,
        layer1 < layer2,
    ensures
        l.offset(layer1, position1) + l.row() <= l.offset(layer2, position2),
{
    let (row, lay) = (l.row(), l.layer());
    assert(position1 * row + row <= lay) by (nonlinear_arith)
        requires
            position1 + 1 <= l.capacity_tokens,
            lay == l.capacity_tokens * row,
    ;
    assert(layer1 * lay + lay <= layer2 * lay) by (nonlinear_arith)
        requires
            layer1 + 1 <= layer2,
    ;
    assert(position2 * row >= 0) by (nonlinear_arith);
}

/// A cache whose rows live in fixed-size pages, mapped by a page table.
#[derive(Debug, Clone, PartialEq, Eq, Structural)]
pub struct PagedKvCacheLayout {
    pub base: KvCacheLayout,
    pub page_size_tokens: usize,
    pub physical_pages: usize,
}

/// The pages that hold `tokens` rows, `page_size` to a page.
pub open spec fn pages_for(tokens: nat, page_size: nat) -> nat {
    if tokens == 0 {
        0
    } else {
        (tokens + page_size - 1) as nat / page_size
    }
}

/// Whether a page occurs twice in `table`.
pub open spec fn repeats(table: Seq<usize>, i: int) -> bool {
    exists|j: int| 0 <= j < i && #[trigger] table[j] == table[i]
}

impl PagedKvCacheLayout {
    /// A layout that `new` would accept.
    pub open spec fn wf(self) -> bool {
        &&& self.page_size_tokens > 0
        &&& self.physical_pages > 0
        &&& pages_for(self.base.capacity_tokens as nat, self.page_size_tokens as nat)
            <= self.physical_pages
        &&& self.base.capacity_tokens + self.page_size_tokens - 1 <= usize::MAX
    }

    pub open spec fn pages_outcome(self, tokens: usize) -> Result<usize, crate::error::ErrorView> {
        if tokens == 0 || tokens + self.page_size_tokens - 1 <= usize::MAX {
            Ok(pages_for(tokens as nat, self.page_size_tokens as nat) as usize)
        } else {
            Err(crate::error::runtime_error("paged kv page count overflowed usize"@))
        }
    }

    pub open spec fn checked_new(
        base: KvCacheLayout,
        page_size_tokens: usize,
        physical_pages: usize,
    ) -> Result<PagedKvCacheLayout, crate::error::ErrorView> {
        let layout = PagedKvCacheLayout { base, page_size_tokens, physical_pages };
        if page_size_tokens == 0 {
            Err(crate::error::runtime_error("paged kv page_size_tokens must be > 0"@))
        } else if physical_pages == 0 {
            Err(crate::error::runtime_error("paged kv physical_pages must be > 0"@))
        } else {
            match layout.pages_outcome(base.capacity_tokens) {
                Err(e) => Err(e),
                Ok(required) => if required > physical_pages {
                    Err(
                        crate::error::runtime_error(
                            "paged kv capacity requires "@ + crate::text::dec(required as nat)
                                + " pages but allocator has "@ + crate::text::dec(
                                physical_pages as nat,
                            ),
                        ),
                    )
                } else {
                    Ok(layout)
                },
            }
        }
    }

    /// A paged layout; the pages must hold the whole capacity of `base`.
    pub fn new(base: KvCacheLayout, page_size_tokens: usize, physical_pages: usize) -> (r: Result<
        Self,
        OcelotlError,
    >)
        ensures
            crate::error::outcome(r) == Self::checked_new(base, page_size_tokens, physical_pages),
            r matches Ok(l) ==> (base.capacity_tokens > 0 ==> l.wf()),
    {
        if page_size_tokens == 0 {
            return Err(runtime_err(String::from_str("paged kv page_size_tokens must be > 0")));
        }
        if physical_pages == 0 {
            return Err(runtime_err(String::from_str("paged kv physical_pages must be > 0")));
        }
        let layout = PagedKvCacheLayout { base, page_size_tokens, physical_pages };
        let required: usize = match layout.required_pages_for_tokens(layout.base.capacity_tokens) {
            Ok(n) => n,
            Err(e) => return Err(e),
        };
        if required > physical_pages {
            return Err(
                runtime_err(
                    Text::new("paged kv capacity requires ").n(required).s(
                        " pages but allocator has ",
                    ).n(physical_pages).done(),
                ),
            );
        }
        Ok(layout)
    }

    /// The pages that `tokens` rows take up.
    pub fn required_pages_for_tokens(&self, tokens: usize) -> (r: Result<usize, OcelotlError>)
        requires
            tokens == 0 || self.page_size_tokens > 0,
        ensures
            crate::error::outcome(r) == self.pages_outcome(tokens),
            r matches Ok(n) ==> n == pages_for(tokens as nat, self.page_size_tokens as nat),
    {
        if tokens == 0 {
            return Ok(0);
        }
        match tokens.checked_add(self.page_size_tokens - 1) {
            Some(v) => {
                proof {
                    pages_for_is_ceiling(tokens as nat, self.page_size_tokens as nat);
                }
                Ok(v / self.page_size_tokens)
            },
            None => Err(runtime_err(String::from_str("paged kv page count overflowed usize"))),
        }
    }

    pub open spec fn place_outcome(self, position: usize) -> Result<
        (usize, usize),
        crate::error::ErrorView,
    > {
        if position >= self.base.capacity_tokens {
            Err(
                crate::error::runtime_error(
                    "paged kv position "@ + crate::text::dec(position as nat)
                        + " out of range for capacity "@ + crate::text::dec(
                        self.base.capacity_tokens as nat,
                    ),
                ),
            )
        } else {
            Ok((position / self.page_size_tokens, position % self.page_size_tokens))
        }
    }

    /// The logical page of a position, and its row inside that page.
    pub fn logical_page_and_offset(&self, position: usize) -> (r: Result<
        (usize, usize),
        OcelotlError,
    >)
        requires
            position < self.base.capacity_tokens ==> self.page_size_tokens > 0,
        ensures
            crate::error::outcome(r) == self.place_outcome(position),
    {
        if position >= self.base.capacity_tokens {
            return Err(
                runtime_err(
                    Text::new("paged kv position ").n(position).s(" out of range for capacity ").n(
                        self.base.capacity_tokens,
                    ).done(),
                ),
            );
        }
        Ok((position / self.page_size_tokens, position % self.page_size_tokens))
    }

    pub open spec fn page_tensor_outcome(self) -> Result<usize, crate::error::ErrorView> {
        match self.base.row_outcome() {
            Ok(row) => product_of(
                "paged kv values_per_page_tensor"@,
                seq![self.page_size_tokens, row],
            ),
            Err(e) => Err(e),
        }
    }

    /// The values of one page of one tensor.
    pub fn values_per_page_tensor(&self) -> (r: Result<usize, OcelotlError>)
        ensures
            crate::error::outcome(r) == self.page_tensor_outcome(),
            r matches Ok(n) ==> n == self.page_size_tokens * self.base.row(),
    {
        let row: usize = match self.base.values_per_position() {
            Ok(n) => n,
            Err(e) => return Err(e),
        };
        let dims: [usize; 2] = [self.page_size_tokens, row];
        proof {
            product_of_two(self.page_size_tokens, row);
            assert(dims@ =~= seq![self.page_size_tokens, row]);
        }
        checked_product("paged kv values_per_page_tensor", &dims)
    }

    /// The error of entry `i` of a page table, if it has one.
    pub open spec fn entry_error(self, table: Seq<usize>, i: int) -> Option<
        crate::error::ErrorView,
    > {
        if table[i] >= self.physical_pages {
            Some(
                crate::error::runtime_error(
                    "paged kv physical page "@ + crate::text::dec(table[i] as nat)
                        + " out of range for "@ + crate::text::dec(self.physical_pages as nat)
                        + " pages"@,
                ),
            )
        } else if repeats(table, i) {
            Some(
                crate::error::runtime_error(
                    "paged kv physical page "@ + crate::text::dec(table[i] as nat)
                        + " appears more than once"@,
                ),
            )
        } else {
            None
        }
    }

    /// The error of the first bad entry at or after `i`.
    pub open spec fn entries_outcome(self, table: Seq<usize>, i: int) -> Result<
        (),
        crate::error::ErrorView,
    >
        decreases table.len() - i,
    {
        if i >= table.len() {
            Ok(())
        } else {
            match self.entry_error(table, i) {
                Some(e) => Err(e),
                None => self.entries_outcome(table, i + 1),
            }
        }
    }

    pub open spec fn table_outcome(self, table: Seq<usize>) -> Result<(), crate::error::ErrorView> {
        match self.pages_outcome(self.base.capacity_tokens) {
            Err(e) => Err(e),
            Ok(required) => if table.len() < required {
                Err(
                    crate::error::runtime_error(
                        "paged kv page table has "@ + crate::text::dec(table.len())
                            + " pages but capacity requires "@ + crate::text::dec(required as nat),
                    ),
                )
            } else {
                self.entries_outcome(table, 0)
            },
        }
    }

    /// Checks that a page table has enough entries, that each names a page that
    /// exists, and that none is named twice.
    pub fn validate_page_table(&self, table: &[usize]) -> (r: Result<(), OcelotlError>)
        requires
            self.base.capacity_tokens == 0 || self.page_size_tokens > 0,
        ensures
            crate::error::outcome(r) == self.table_outcome(table@),
    {
        let required: usize = match self.required_pages_for_tokens(self.base.capacity_tokens) {
            Ok(n) => n,
            Err(e) => return Err(e),
        };
        if table.len() < required {
            return Err(
                runtime_err(
                    Text::new("paged kv page table has ").n(table.len()).s(
                        " pages but capacity requires ",
                    ).n(required).done(),
                ),
            );
        }
        let mut seen: std::collections::HashSet<usize> = std::collections::HashSet::new();
        let mut i: usize = 0;
        while i < table.len()
            invariant
                i <= table@.len(),
                forall|p: usize|
                    #[trigger] seen@.contains(p) <==> exists|j: int|
                        0 <= j < i && #[trigger] table@[j] == p,
                self.table_outcome(table@) == self.entries_outcome(table@, i as int),
            decreases table@.len() - i,
        {
            let page: usize = table[i];
            if page >= self.physical_pages {
                return Err(
                    runtime_err(
                        Text::new("paged kv physical page ").n(page).s(" out of range for ").n(
                            self.physical_pages,
                        ).s(" pages").done(),
                    ),
                );
            }
            let ghost before = seen@;
            let fresh: bool = seen.insert(page);
            proof {
                assert(before.contains(page) <==> repeats(table@, i as int));
            }
            if !fresh {
                return Err(
                    runtime_err(
                        Text::new("paged kv physical page ").n(page).s(
                            " appears more than once",
                        ).done(),
                    ),
                );
            }
            proof {
                assert forall|p: usize| #[trigger] seen@.contains(p) <==> exists|j: int|
                    0 <= j < i + 1 && #[trigger] table@[j] == p by {
                    if seen@.contains(p) {
                        if p == page {
                            assert(table@[i as int] == p);
                        } else {
                            assert(before.contains(p));
                            let j = choose|j: int| 0 <= j < i && #[trigger] table@[j] == p;
                            assert(0 <= j < i + 1 && table@[j] == p);
                        }
                    }
                    if exists|j: int| 0 <= j < i + 1 && #[trigger] table@[j] == p {
                        let j = choose|j: int| 0 <= j < i + 1 && #[trigger] table@[j] == p;
                        if j < i {
                            assert(before.contains(p));
                        }
                    }
                }
            }
            i = i + 1;
        }
        Ok(())
    }
}

/// `pages_for` is the least number of pages that hold the tokens.
pub proof fn pages_for_is_ceiling(tokens: nat, page_size: nat)
    requires
        page_size > 0,
    ensures
        tokens <= pages_for(tokens, page_size) * page_size,
        pages_for(tokens, page_size) * page_size < tokens + page_size,
        pages_for(tokens, page_size) <= tokens,
{
    if tokens > 0 {
        let m = (tokens + page_size - 1) as nat;
        let q = m / page_size;
        vstd::arithmetic::div_mod::lemma_fundamental_div_mod(m as int, page_size as int);
        assert(q * page_size <= m < q * page_size + page_size) by (nonlinear_arith)
            requires
                m == page_size * q + m % page_size,
                0 <= m % page_size < page_size,
        ;
        assert(q <= tokens) by (nonlinear_arith)
            requires
                q * page_size <= tokens + page_size - 1,
                page_size > 0,
                tokens >= 1,
        ;
    } else {
        assert(0 * page_size == 0) by (nonlinear_arith);
    }
}

/// A position is its page times the page size plus its row in the page; the row
/// lies in the page, and the page among those that the capacity requires.
pub proof fn place_round_trips(l: PagedKvCacheLayout, position: usize)
    requires
        l.wf(),
        position < l.base.capacity_tokens,
    ensures
        l.place_outcome(position) matches Ok((page, row)) && page * l.page_size_tokens + row
            == position && row < l.page_size_tokens && page < pages_for(
            l.base.capacity_tokens as nat,
            l.page_size_tokens as nat,
        ),
{
    let size = l.page_size_tokens as nat;
    let page = position / l.page_size_tokens;
    let row = position % l.page_size_tokens;
    vstd::arithmetic::div_mod::lemma_fundamental_div_mod(position as int, size as int);
    assert(page * l.page_size_tokens + row == position) by (nonlinear_arith)
        requires
            position == size * page + row,
            size == l.page_size_tokens,
    ;
    let n = pages_for(l.base.capacity_tokens as nat, size);
    pages_for_is_ceiling(l.base.capacity_tokens as nat, size);
    assert(page < n) by (nonlinear_arith)
        requires
            page * size + row == position,
            position < l.base.capacity_tokens,
            l.base.capacity_tokens <= n * size,
            row >= 0,
            size > 0,
    ;
}

/// A page table is accepted exactly if it has an entry for every page that the
/// capacity requires, every entry names a physical page, and no two entries
/// name the same one.
pub proof fn table_accepted_iff(l: PagedKvCacheLayout, table: Seq<usize>)
    requires
        l.wf(),
    ensures
        l.table_outcome(table) is Ok <==> {
            &&& pages_for(l.base.capacity_tokens as nat, l.page_size_tokens as nat) <= table.len()
            &&& forall|i: int| 0 <= i < table.len() ==> #[trigger] table[i] < l.physical_pages
            &&& forall|i: int, j: int|
                0 <= j < i < table.len() ==> #[trigger] table[j] != #[trigger] table[i]
        },
{
    pages_for_is_ceiling(l.base.capacity_tokens as nat, l.page_size_tokens as nat);
    entries_accepted_iff(l, table, 0);
    if forall|k: int| 0 <= k < table.len() ==> #[trigger] l.entry_error(table, k) is None {
        assert forall|i: int, j: int| 0 <= j < i < table.len() implies #[trigger] table[j]
            != #[trigger] table[i] by {
            assert(l.entry_error(table, i) is None);
        }
        assert forall|i: int| 0 <= i < table.len() implies #[trigger] table[i]
            < l.physical_pages by {
            assert(l.entry_error(table, i) is None);
        }
    }
}

proof fn entries_accepted_iff(l: PagedKvCacheLayout, table: Seq<usize>, i: int)
    requires
        0 <= i <= table.len(),
    ensures
        l.entries_outcome(table, i) is Ok <==> forall|k: int|
            i <= k < table.len() ==> #[trigger] l.entry_error(table, k) is None,
    decreases table.len() - i,
{
    if i < table.len() {
        entries_accepted_iff(l, table, i + 1);
        if l.entry_error(table, i) is None {
            assert forall|k: int| i <= k < table.len() && (forall|k: int|
                i + 1 <= k < table.len() ==> #[trigger] l.entry_error(table, k) is None) implies
                #[trigger] l.entry_error(table, k) is None by {}
        }
    }
}

/// The logical pages of an accepted table go to different physical pages.
pub proof fn accepted_tables_do_not_alias(
    l: PagedKvCacheLayout,
    table: Seq<usize>,
    page1: int,
    page2: int,
)
    requires
        l.wf(),
        l.table_outcome(table) is Ok,
        0 <= page1 < table.len(),
        0 <= page2 < table.len(),
        page1 != page2,
    ensures
        table[page1] != table[page2],
{
    table_accepted_iff(l, table);
}

/// A store of the keys and values of every layer.
pub trait KvCacheStore<T> {
    /// The layout of the store.
    fn layout(&self) -> &KvCacheLayout;

    /// The number of tokens in the store.
    fn len_tokens(&self) -> usize;

    /// Sets the number of tokens in the store.
    fn set_len_tokens(&mut self, len_tokens: usize) -> Result<(), OcelotlError>;

    /// Writes the key and the value of one layer and position.
    fn write_layer_kv(&mut self, layer: usize, position: usize, key: &[T], value: &[T]) -> Result<
        (),
        OcelotlError,
    >;

    /// Reads the keys of the first tokens of a layer.
    fn read_layer_keys(&self, layer: usize, len_tokens: usize, out: &mut [T]) -> Result<
        (),
        OcelotlError,
    >;

    /// Reads the values of the first tokens of a layer.
    fn read_layer_values(&self, layer: usize, len_tokens: usize, out: &mut [T]) -> Result<
        (),
        OcelotlError,
    >;
}

} // verus!
