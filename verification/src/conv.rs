use vstd::prelude::*;

use crate::arith::{filled, mul_add, Arith};
use crate::error::{kernel_err, OcelotlError};
use crate::expr::Term;
use crate::linear::linear_out_by_in;
use crate::norms::check_epsilon;
use crate::text::Text;

verus! {

/// Output extent of a convolution along one axis: the places of the kernel on
/// the padded input. A kernel that does not fit has one place.
pub open spec fn extent(input: nat, kernel: nat, stride: nat, padding: nat) -> nat {
    (if input + 2 * padding >= kernel {
        (input + 2 * padding - kernel) as nat
    } else {
        0
    }) / stride + 1
}

/// Output extent of a convolution along one axis.
pub fn conv_out_len(input: usize, kernel: usize, stride: usize, padding: usize) -> (r: usize)
    requires
        stride > 0,
        input + 2 * padding <= usize::MAX,
        extent(input as nat, kernel as nat, stride as nat, padding as nat) <= usize::MAX,
    ensures
        r == extent(input as nat, kernel as nat, stride as nat, padding as nat),
{
    let padded: usize = input + 2 * padding;
    let free: usize = if padded >= kernel {
        padded - kernel
    } else {
        0
    };
    free / stride + 1
}

/// Padding by half of an odd kernel keeps the length at stride one.
pub proof fn same_padding_keeps_length(input: nat, padding: nat)
    requires
        input > 0,
    ensures
        extent(input, 2 * padding + 1, 1, padding) == input,
{
}

/// A kernel of three with padding one halves the length at stride two, rounded
/// up.
pub proof fn stride_two_halves(input: nat)
    requires
        input > 0,
    ensures
        extent(input, 3, 2, 1) == (input + 1) / 2,
{
}

/// Every tap of a kernel that fits lies, at every place, on the padded input.
pub proof fn taps_fit(input: nat, kernel: nat, stride: nat, padding: nat, o: nat, k: nat)
    requires
        stride > 0,
        kernel <= input + 2 * padding,
        o < extent(input, kernel, stride, padding),
        k < kernel,
    ensures
        o * stride + k < input + 2 * padding,
{
    let free = (input + 2 * padding - kernel) as nat;
    crate::grid::index(free as int, stride as int);
    let q = free / stride;
    assert(o * stride <= q * stride) by (nonlinear_arith)
        requires
            o <= q,
            stride > 0,
    ;
}

proof fn taps_bound(input: nat, kernel: nat, stride: nat, padding: nat, o: nat, k: nat)
    requires
        stride > 0,
        o < extent(input, kernel, stride, padding),
        k < kernel,
        kernel <= usize::MAX,
        input + 2 * padding <= usize::MAX,
    ensures
        0 <= o * stride,
        o * stride + k <= usize::MAX,
{
    assert(0 <= o * stride) by (nonlinear_arith);
    if kernel <= input + 2 * padding {
        taps_fit(input, kernel, stride, padding, o, k);
    } else {
        assert(0nat / stride == 0) by {
            vstd::arithmetic::div_mod::lemma_div_basics(stride as int);
        }
        assert(0 * stride == 0) by (nonlinear_arith);
    }
}

/// A plane of the input, and how the kernel goes over it.
#[derive(Debug, Clone, Copy, PartialEq, Eq, Structural)]
pub struct Window {
    pub height: usize,
    pub width: usize,
    pub kh: usize,
    pub kw: usize,
    pub sh: usize,
    pub sw: usize,
    pub ph: usize,
    pub pw: usize,
}

impl Window {
    /// Rows of the output.
    pub open spec fn out_h(self) -> nat {
        extent(self.height as nat, self.kh as nat, self.sh as nat, self.ph as nat)
    }

    /// Columns of the output.
    pub open spec fn out_w(self) -> nat {
        extent(self.width as nat, self.kw as nat, self.sw as nat, self.pw as nat)
    }

    /// Kernel and strides are not zero.
    pub open spec fn moves(self) -> bool {
        self.kh > 0 && self.kw > 0 && self.sh > 0 && self.sw > 0
    }

    /// The padded extents and the output extents fit into a `usize`.
    pub open spec fn fits(self) -> bool {
        &&& self.height + 2 * self.ph <= usize::MAX
        &&& self.width + 2 * self.pw <= usize::MAX
        &&& self.out_h() <= usize::MAX
        &&& self.out_w() <= usize::MAX
    }

    /// The tap `(ky, kx)` at output `(oy, ox)` lies on the input, not on the
    /// padding.
    pub open spec fn inside(self, oy: int, ox: int, ky: int, kx: int) -> bool {
        &&& self.ph <= oy * self.sh + ky < self.ph + self.height
        &&& self.pw <= ox * self.sw + kx < self.pw + self.width
    }

    /// Where in its plane the input of a tap lies.
    pub open spec fn place(self, oy: int, ox: int, ky: int, kx: int) -> int {
        (oy * self.sh + ky - self.ph) * self.width + (ox * self.sw + kx - self.pw)
    }

    proof fn place_bound(self, oy: int, ox: int, ky: int, kx: int)
        requires
            self.inside(oy, ox, ky, kx),
        ensures
            0 <= self.place(oy, ox, ky, kx) < self.height * self.width,
            0 <= (oy * self.sh + ky - self.ph) * self.width,
    {
        crate::grid::row_bound(
            oy * self.sh + ky - self.ph,
            self.height as int,
            self.width as int,
        );
    }

    /// Where in its plane the input of a tap lies, if it lies there at all.
    fn tap(&self, oy: usize, ox: usize, ky: usize, kx: usize) -> (r: Option<usize>)
        requires
            self.moves(),
            self.fits(),
            self.height * self.width <= usize::MAX,
            oy < self.out_h(),
            ox < self.out_w(),
            ky < self.kh,
            kx < self.kw,
        ensures
            match r {
                Some(i) => {
                    &&& self.inside(oy as int, ox as int, ky as int, kx as int)
                    &&& i == self.place(oy as int, ox as int, ky as int, kx as int)
                    &&& i < self.height * self.width
                },
                None => !self.inside(oy as int, ox as int, ky as int, kx as int),
            },
    {
        proof {
            taps_bound(
                self.height as nat,
                self.kh as nat,
                self.sh as nat,
                self.ph as nat,
                oy as nat,
                ky as nat,
            );
            taps_bound(
                self.width as nat,
                self.kw as nat,
                self.sw as nat,
                self.pw as nat,
                ox as nat,
                kx as nat,
            );
        }
        let y: usize = oy * self.sh + ky;
        let x: usize = ox * self.sw + kx;
        if y < self.ph || y - self.ph >= self.height || x < self.pw || x - self.pw >= self.width {
            None
        } else {
            proof {
                self.place_bound(oy as int, ox as int, ky as int, kx as int);
            }
            Some((y - self.ph) * self.width + (x - self.pw))
        }
    }
}

/// The window of a convolution.
pub open spec fn window(
    height: usize,
    width: usize,
    kernel: (usize, usize),
    stride: (usize, usize),
    padding: (usize, usize),
) -> Window {
    Window {
        height,
        width,
        kh: kernel.0,
        kw: kernel.1,
        sh: stride.0,
        sw: stride.1,
        ph: padding.0,
        pw: padding.1,
    }
}

/// The value under a tap: that of the input, or `pad` outside of it.
pub open spec fn sample<T>(
    w: Window,
    pad: T,
    input: Seq<T>,
    ic: int,
    oy: int,
    ox: int,
    ky: int,
    kx: int,
) -> T {
    if w.inside(oy, ox, ky, kx) {
        input[ic * (w.height * w.width) + w.place(oy, ox, ky, kx)]
    } else {
        pad
    }
}

/// The values under the kernel at output `(oy, ox)`, by channel, row and column
/// of the kernel.
pub open spec fn patch<T>(
    w: Window,
    pad: T,
    input: Seq<T>,
    channels: int,
    oy: int,
    ox: int,
) -> Seq<T> {
    Seq::new(
        (channels * w.kh * w.kw) as nat,
        |p: int|
            sample(
                w,
                pad,
                input,
                p / w.kw as int / w.kh as int,
                oy,
                ox,
                p / w.kw as int % w.kh as int,
                p % w.kw as int,
            ),
    )
}

/// `v` may be output `(oy, ox)` of channel `oc`: the bias plus the products of
/// the values under the kernel and the weights of the channel, added up from the
/// left.
pub open spec fn conv_cell<T, A: Arith<T>>(
    ar: &A,
    w: Window,
    pad: T,
    zero: T,
    input: Seq<T>,
    channels: int,
    weight: Seq<T>,
    bias: Option<Seq<T>>,
    oc: int,
    oy: int,
    ox: int,
    v: T,
) -> bool {
    crate::arith::dots(
        ar,
        crate::linear::start(zero, bias, oc),
        patch(w, pad, input, channels, oy, ox),
        crate::linear::row(weight, channels * w.kh * w.kw, oc),
        v,
    )
}

/// The output is the convolution, by channel, row and column.
pub open spec fn is_conv<T, A: Arith<T>>(
    ar: &A,
    w: Window,
    input: Seq<T>,
    channels: int,
    weight: Seq<T>,
    bias: Option<Seq<T>>,
    out: Seq<T>,
) -> bool {
    let (oh, ow) = (w.out_h() as int, w.out_w() as int);
    exists|pad: T, zero: T| #[trigger]
        crate::arith::converts(ar, 0, pad) && #[trigger] crate::arith::converts(ar, 0, zero)
            && forall|i: int|
            0 <= i < out.len() ==> conv_cell(
                ar,
                w,
                pad,
                zero,
                input,
                channels,
                weight,
                bias,
                i / (oh * ow),
                i % (oh * ow) / ow,
                i % (oh * ow) % ow,
                #[trigger] out[i],
            )
}

/// The refusal of an operand that does not have its length.
pub open spec fn conv_len_refusal(
    kernel: Seq<char>,
    label: Seq<char>,
    len: nat,
    what: Seq<char>,
    expected: nat,
) -> crate::shapes::Refusal {
    crate::shapes::refuse_if(
        len != expected,
        kernel + " "@ + label + ".len()="@ + crate::text::dec(len) + " does not match "@ + what
            + "="@ + crate::text::dec(expected),
    )
}

fn check_len(kernel: &str, label: &str, len: usize, what: &str, expected: usize) -> (r: Result<
    (),
    OcelotlError,
>)
    ensures
        crate::shapes::refused(r) == conv_len_refusal(
            kernel@,
            label@,
            len as nat,
            what@,
            expected as nat,
        ),
{
    if len != expected {
        Err(
            kernel_err(
                Text::new(kernel).s(" ").s(label).s(".len()=").n(len).s(" does not match ").s(
                    what,
                ).s("=").n(expected).done(),
            ),
        )
    } else {
        Ok(())
    }
}

/// When a convolution is refused, and how.
pub open spec fn conv2d_refusal(
    w: Window,
    input_len: nat,
    channels: nat,
    weight_len: nat,
    bias_len: Option<nat>,
    outs: nat,
    out_len: nat,
) -> crate::shapes::Refusal {
    let taps = channels * w.kh as nat * w.kw as nat;
    crate::shapes::first(
        crate::shapes::refuse_if(!w.moves(), "conv2d kernel and stride must be non-zero"@),
        crate::shapes::first(
            conv_len_refusal(
                "conv2d"@,
                "input"@,
                input_len,
                "in_channels*height*width"@,
                channels * w.height as nat * w.width as nat,
            ),
            crate::shapes::first(
                conv_len_refusal(
                    "conv2d"@,
                    "weight"@,
                    weight_len,
                    "out_channels*in_channels*kh*kw"@,
                    outs * taps,
                ),
                crate::shapes::first(
                    conv_len_refusal(
                        "conv2d"@,
                        "out"@,
                        out_len,
                        "out_channels*out_h*out_w"@,
                        outs * w.out_h() * w.out_w(),
                    ),
                    match bias_len {
                        Some(n) => crate::shapes::refuse_if(
                            n != outs,
                            "linear_out_by_in bias.len()="@ + crate::text::dec(n)
                                + " does not match out_features="@ + crate::text::dec(outs),
                        ),
                        None => None,
                    },
                ),
            ),
        ),
    )
}

/// The products that the checks come to compute fit into a `usize`, and so does
/// the number of values in all patches.
pub open spec fn conv2d_fits(
    w: Window,
    input_len: nat,
    channels: nat,
    weight_len: nat,
    outs: nat,
    out_len: nat,
) -> bool {
    let plane = channels * w.height as nat * w.width as nat;
    let taps = channels * w.kh as nat * w.kw as nat;
    w.moves() ==> {
        &&& channels * w.height as nat <= usize::MAX
        &&& plane <= usize::MAX
        &&& input_len == plane ==> {
            &&& channels * w.kh as nat <= usize::MAX
            &&& taps <= usize::MAX
            &&& outs * taps <= usize::MAX
            &&& weight_len == outs * taps ==> {
                &&& w.fits()
                &&& outs * w.out_h() <= usize::MAX
                &&& outs * w.out_h() * w.out_w() <= usize::MAX
                &&& out_len == outs * w.out_h() * w.out_w() ==> {
                    &&& w.out_h() * w.out_w() <= usize::MAX
                    &&& w.out_h() * w.out_w() * taps <= usize::MAX
                }
            }
        }
    }
}

proof fn tap_index(ic: int, ky: int, kx: int, kh: int, kw: int)
    requires
        0 <= ic,
        0 <= ky < kh,
        0 <= kx < kw,
    ensures
        ((ic * kh + ky) * kw + kx) / kw / kh == ic,
        ((ic * kh + ky) * kw + kx) / kw % kh == ky,
        ((ic * kh + ky) * kw + kx) % kw == kx,
        0 <= ic * kh,
        0 <= (ic * kh + ky) * kw,
{
    crate::grid::cell(ic, ky, kh);
    crate::grid::cell(ic * kh + ky, kx, kw);
}

/// Appends the values under the kernel at one output.
fn push_patch<T: Copy>(
    w: Window,
    pad: T,
    input: &[T],
    channels: usize,
    oy: usize,
    ox: usize,
    cols: &mut Vec<T>,
)
    requires
        w.moves(),
        w.fits(),
        input@.len() == channels * w.height * w.width,
        channels > 0 ==> w.height * w.width <= usize::MAX,
        channels * w.kh * w.kw <= usize::MAX,
        oy < w.out_h(),
        ox < w.out_w(),
    ensures
        final(cols)@ == old(cols)@ + patch(
            w,
            pad,
            input@,
            channels as int,
            oy as int,
            ox as int,
        ),
{
    let total: usize = input.len();
    let ghost before = cols@;
    let ghost whole = patch(w, pad, input@, channels as int, oy as int, ox as int);
    let ghost plane: int = w.height * w.width;
    proof {
        assert(channels * w.height * w.width == channels * plane) by (nonlinear_arith)
            requires
                plane == w.height * w.width,
        ;
        assert(0 <= channels * w.kh && 0 <= channels * w.kh * w.kw) by (nonlinear_arith);
        assert(whole.len() == channels * w.kh * w.kw);
        assert(0 * w.kh == 0 && 0 * w.kw == 0) by (nonlinear_arith);
        assert(before + whole.take(0) =~= before);
    }
    let mut ic: usize = 0;
    while ic < channels
        invariant
            w.moves(),
            w.fits(),
            plane == w.height * w.width,
            total == input@.len() == channels * plane,
            channels > 0 ==> plane <= usize::MAX,
            oy < w.out_h(),
            ox < w.out_w(),
            whole == patch(w, pad, input@, channels as int, oy as int, ox as int),
            whole.len() == channels * w.kh * w.kw,
            ic <= channels,
            cols@ == before + whole.take(ic * w.kh * w.kw),
        decreases channels - ic,
    {
        proof {
            crate::grid::row_bound(ic as int, channels as int, plane);
            crate::grid::row_bound(ic as int, channels as int, w.kh as int);
        }
        let mut ky: usize = 0;
        while ky < w.kh
            invariant
                w.moves(),
                w.fits(),
                plane == w.height * w.width,
                plane <= usize::MAX,
                total == input@.len(),
                0 <= ic * plane,
                ic * plane + plane <= total,
                ic < channels,
                0 <= ic * w.kh,
                ic * w.kh + w.kh <= channels * w.kh,
                (ic + 1) * w.kh == ic * w.kh + w.kh,
                oy < w.out_h(),
                ox < w.out_w(),
                whole == patch(w, pad, input@, channels as int, oy as int, ox as int),
                whole.len() == channels * w.kh * w.kw,
                ky <= w.kh,
                cols@ == before + whole.take((ic * w.kh + ky) * w.kw),
            decreases w.kh - ky,
        {
            proof {
                crate::grid::row_bound(ic * w.kh + ky, channels * w.kh, w.kw as int);
            }
            let mut kx: usize = 0;
            while kx < w.kw
                invariant
                    w.moves(),
                    w.fits(),
                    plane == w.height * w.width,
                    plane <= usize::MAX,
                    total == input@.len(),
                    0 <= ic * plane,
                    ic * plane + plane <= total,
                    ky < w.kh,
                    oy < w.out_h(),
                    ox < w.out_w(),
                    whole == patch(w, pad, input@, channels as int, oy as int, ox as int),
                    whole.len() == channels * w.kh * w.kw,
                    0 <= (ic * w.kh + ky) * w.kw,
                    (ic * w.kh + ky) * w.kw + w.kw <= whole.len(),
                    kx <= w.kw,
                    cols@ == before + whole.take((ic * w.kh + ky) * w.kw + kx),
                decreases w.kw - kx,
            {
                let v: T = match w.tap(oy, ox, ky, kx) {
                    Some(i) => {
                        let base: usize = ic * (w.height * w.width);
                        input[base + i]
                    },
                    None => pad,
                };
                proof {
                    tap_index(ic as int, ky as int, kx as int, w.kh as int, w.kw as int);
                    assert(v == whole[(ic * w.kh + ky) * w.kw + kx]);
                }
                cols.push(v);
                kx = kx + 1;
                assert(cols@ =~= before + whole.take((ic * w.kh + ky) * w.kw + kx));
            }
            ky = ky + 1;
        }
        ic = ic + 1;
    }
    assert(whole.take(channels * w.kh * w.kw) =~= whole);
}

/// The patches of all outputs, one after the other.
pub open spec fn patches<T>(w: Window, pad: T, input: Seq<T>, channels: int, cols: Seq<T>, count: int) -> bool {
    let taps = channels * w.kh * w.kw;
    &&& cols.len() == count * taps
    &&& forall|c: int|
        0 <= c < count ==> #[trigger] crate::linear::row(cols, taps, c) == patch(
            w,
            pad,
            input,
            channels,
            c / w.out_w() as int,
            c % w.out_w() as int,
        )
}

proof fn one_more_patch<T>(
    w: Window,
    pad: T,
    input: Seq<T>,
    channels: int,
    cols: Seq<T>,
    count: int,
    next: Seq<T>,
)
    requires
        0 <= channels,
        0 <= count,
        patches(w, pad, input, channels, cols, count),
        next == patch(
            w,
            pad,
            input,
            channels,
            count / w.out_w() as int,
            count % w.out_w() as int,
        ),
    ensures
        patches(w, pad, input, channels, cols + next, count + 1),
{
    let taps = channels * w.kh * w.kw;
    assert(0 <= taps) by (nonlinear_arith)
        requires
            0 <= channels,
            taps == channels * w.kh * w.kw,
    ;
    crate::grid::row_bound(count, count + 1, taps);
    let more = cols + next;
    assert forall|c: int| 0 <= c < count + 1 implies #[trigger] crate::linear::row(more, taps, c)
        == patch(
        w,
        pad,
        input,
        channels,
        c / w.out_w() as int,
        c % w.out_w() as int,
    ) by {
        if c < count {
            crate::grid::row_bound(c, count, taps);
            assert(crate::linear::row(more, taps, c) =~= crate::linear::row(cols, taps, c));
        } else {
            assert(crate::linear::row(more, taps, c) =~= next);
        }
    }
}

/// The patches of all outputs, row by row.
fn all_patches<T: Copy>(w: Window, pad: T, input: &[T], channels: usize, oh: usize, ow: usize) -> (r:
    Vec<T>)
    requires
        w.moves(),
        w.fits(),
        oh == w.out_h(),
        ow == w.out_w(),
        input@.len() == channels * w.height * w.width,
        channels > 0 ==> w.height * w.width <= usize::MAX,
        channels * w.kh * w.kw <= usize::MAX,
    ensures
        patches(w, pad, input@, channels as int, r@, oh * ow),
{
    let mut cols: Vec<T> = Vec::new();
    proof {
        assert(0 * ow == 0) by (nonlinear_arith);
        assert(0 * (channels * w.kh * w.kw) == 0) by (nonlinear_arith);
    }
    let mut oy: usize = 0;
    while oy < oh
        invariant
            w.moves(),
            w.fits(),
            oh == w.out_h(),
            ow == w.out_w(),
            input@.len() == channels * w.height * w.width,
            channels > 0 ==> w.height * w.width <= usize::MAX,
            channels * w.kh * w.kw <= usize::MAX,
            oy <= oh,
            patches(w, pad, input@, channels as int, cols@, oy * ow),
        decreases oh - oy,
    {
        proof {
            crate::grid::row_bound(oy as int, oh as int, ow as int);
        }
        let mut ox: usize = 0;
        while ox < ow
            invariant
                w.moves(),
                w.fits(),
                oy < oh,
                oh == w.out_h(),
                ow == w.out_w(),
                input@.len() == channels * w.height * w.width,
                channels > 0 ==> w.height * w.width <= usize::MAX,
                channels * w.kh * w.kw <= usize::MAX,
                0 <= oy * ow,
                ox <= ow,
                patches(w, pad, input@, channels as int, cols@, oy * ow + ox),
            decreases ow - ox,
        {
            let ghost before = cols@;
            push_patch(w, pad, input, channels, oy, ox, &mut cols);
            proof {
                crate::grid::cell(oy as int, ox as int, ow as int);
                one_more_patch(
                    w,
                    pad,
                    input@,
                    channels as int,
                    before,
                    oy * ow + ox,
                    patch(w, pad, input@, channels as int, oy as int, ox as int),
                );
            }
            ox = ox + 1;
        }
        oy = oy + 1;
    }
    cols
}

/// Convolution over all input channels.
pub fn conv2d<T: Copy, A: Arith<T>>(
    ar: &A,
    input: &[T],
    in_channels: usize,
    height: usize,
    width: usize,
    weight: &[T],
    bias: Option<&[T]>,
    out_channels: usize,
    kernel: (usize, usize),
    stride: (usize, usize),
    padding: (usize, usize),
    out: &mut [T],
) -> (r: Result<(), OcelotlError>)
    requires
        conv2d_fits(
            window(height, width, kernel, stride, padding),
            input@.len(),
            in_channels as nat,
            weight@.len(),
            out_channels as nat,
            old(out)@.len(),
        ),
    ensures
        final(out)@.len() == old(out)@.len(),
        crate::shapes::refused(r) == conv2d_refusal(
            window(height, width, kernel, stride, padding),
            input@.len(),
            in_channels as nat,
            weight@.len(),
            crate::linear::bias_len(bias),
            out_channels as nat,
            old(out)@.len(),
        ),
        r is Err ==> final(out)@ == old(out)@,
        r is Ok ==> is_conv(
            ar,
            window(height, width, kernel, stride, padding),
            input@,
            in_channels as int,
            weight@,
            crate::linear::bias_view(bias),
            final(out)@,
        ),
{
    let w = Window {
        height,
        width,
        kh: kernel.0,
        kw: kernel.1,
        sh: stride.0,
        sw: stride.1,
        ph: padding.0,
        pw: padding.1,
    };
    if w.kh == 0 || w.kw == 0 || w.sh == 0 || w.sw == 0 {
        return Err(kernel_err(String::from_str("conv2d kernel and stride must be non-zero")));
    }
    match check_len(
        "conv2d",
        "input",
        input.len(),
        "in_channels*height*width",
        in_channels * height * width,
    ) {
        Ok(_) => {},
        Err(e) => return Err(e),
    }
    let taps: usize = in_channels * w.kh * w.kw;
    match check_len(
        "conv2d",
        "weight",
        weight.len(),
        "out_channels*in_channels*kh*kw",
        out_channels * taps,
    ) {
        Ok(_) => {},
        Err(e) => return Err(e),
    }
    let oh: usize = conv_out_len(height, w.kh, w.sh, w.ph);
    let ow: usize = conv_out_len(width, w.kw, w.sw, w.pw);
    match check_len(
        "conv2d",
        "out",
        out.len(),
        "out_channels*out_h*out_w",
        out_channels * oh * ow,
    ) {
        Ok(_) => {},
        Err(e) => return Err(e),
    }
    let cells: usize = oh * ow;
    let pad: T = ar.from_int(0);
    proof {
        assert(crate::arith::converts(ar, 0, pad));
        assert(out_channels * oh * ow == cells * out_channels) by (nonlinear_arith)
            requires
                cells == oh * ow,
        ;
        if in_channels > 0 {
            assert(height * width <= in_channels * height * width) by (nonlinear_arith)
                requires
                    in_channels >= 1,
            ;
        }
        crate::kv_cache::product_of_two(cells, taps);
        crate::kv_cache::product_of_two(out_channels, taps);
        crate::kv_cache::product_of_two(cells, out_channels);
    }
    let cols: Vec<T> = all_patches(w, pad, input, in_channels, oh, ow);
    let mut cell_major: Vec<T> = filled(pad, cells * out_channels);
    match linear_out_by_in(
        ar,
        cols.as_slice(),
        cells,
        taps,
        weight,
        out_channels,
        bias,
        cell_major.as_mut_slice(),
    ) {
        Ok(_) => {},
        Err(e) => {
            return Err(e);
        },
    }
    let ghost projected = cell_major@;
    let total: usize = cell_major.len();
    let mut cell: usize = 0;
    while cell < cells
        invariant
            total == cell_major@.len(),
            cells * out_channels == projected.len() == out@.len() == out_channels * cells,
            projected == cell_major@,
            cell <= cells,
            forall|oc: int, c: int|
                0 <= oc < out_channels && 0 <= c < cell ==> #[trigger] out@[oc * cells + c]
                    == projected[c * out_channels + oc],
        decreases cells - cell,
    {
        proof {
            crate::grid::row_bound(cell as int, cells as int, out_channels as int);
        }
        let mut oc: usize = 0;
        while oc < out_channels
            invariant
                total == cell_major@.len(),
                cells * out_channels == projected.len() == out@.len() == out_channels * cells,
                projected == cell_major@,
                cell < cells,
                0 <= cell * out_channels,
                cell * out_channels + out_channels <= projected.len(),
                oc <= out_channels,
                forall|o: int, c: int|
                    0 <= o < out_channels && (0 <= c < cell || (c == cell && o < oc))
                        ==> #[trigger] out@[o * cells + c] == projected[c * out_channels + o],
            decreases out_channels - oc,
        {
            proof {
                crate::grid::row_bound(oc as int, out_channels as int, cells as int);
                assert forall|o: int, c: int|
                    0 <= o < out_channels && 0 <= c < cells && (o != oc || c
                        != cell) implies #[trigger] (o * cells + c) != oc * cells + cell by {
                    crate::grid::cell(o, c, cells as int);
                    crate::grid::cell(oc as int, cell as int, cells as int);
                }
                assert forall|o: int, c: int|
                    0 <= o < out_channels && 0 <= c < cells implies 0 <= #[trigger] (o * cells + c)
                    < out@.len() by {
                    crate::grid::row_bound(o, out_channels as int, cells as int);
                }
            }
            out[oc * cells + cell] = cell_major[cell * out_channels + oc];
            oc = oc + 1;
        }
        cell = cell + 1;
    }
    proof {
        let zero = choose|zero: T| #[trigger]
            crate::arith::converts(ar, 0, zero) && forall|i: int|
                0 <= i < projected.len() ==> crate::linear::linear_cell(
                    ar,
                    zero,
                    cols@,
                    weight@,
                    crate::linear::bias_view(bias),
                    taps as int,
                    i / out_channels as int,
                    i % out_channels as int,
                    #[trigger] projected[i],
                );
        assert forall|i: int| 0 <= i < out@.len() implies conv_cell(
            ar,
            w,
            pad,
            zero,
            input@,
            in_channels as int,
            weight@,
            crate::linear::bias_view(bias),
            i / (oh * ow),
            i % (oh * ow) / ow as int,
            i % (oh * ow) % ow as int,
            #[trigger] out@[i],
        ) by {
            assert(cells > 0) by (nonlinear_arith)
                requires
                    0 <= i < out_channels * cells,
                    cells >= 0,
            ;
            crate::grid::index_row(i, out_channels as int, cells as int);
            let (oc, c) = (i / cells as int, i % cells as int);
            crate::grid::row_bound(c, cells as int, out_channels as int);
            crate::grid::cell(c, oc, out_channels as int);
            let j = c * out_channels + oc;
            assert(out@[oc * cells + c] == projected[j]);
            assert(crate::linear::linear_cell(
                ar,
                zero,
                cols@,
                weight@,
                crate::linear::bias_view(bias),
                taps as int,
                c,
                oc,
                projected[j],
            ));
            assert(crate::linear::row(cols@, taps as int, c) == patch(
                w,
                pad,
                input@,
                in_channels as int,
                c / ow as int,
                c % ow as int,
            ));
        }
    }
    Ok(())
}

/// The steps of output `(oy, ox)` of channel `c`: the taps on the input, row by
/// row; those on the padding are left out.
pub open spec fn depthwise_steps<T, A: Arith<T>>(
    ar: &A,
    w: Window,
    input: Seq<T>,
    weight: Seq<T>,
    c: int,
    oy: int,
    ox: int,
) -> spec_fn(int, T, T) -> bool {
    |p: int, a: T, b: T|
        if w.inside(oy, ox, p / w.kw as int, p % w.kw as int) {
            crate::arith::accumulates(
                ar,
                a,
                input[c * (w.height * w.width) + w.place(
                    oy,
                    ox,
                    p / w.kw as int,
                    p % w.kw as int,
                )],
                weight[c * (w.kh * w.kw) + p],
                b,
            )
        } else {
            b == a
        }
}

/// `v` may be output `(oy, ox)` of channel `c`.
pub open spec fn depthwise_cell<T, A: Arith<T>>(
    ar: &A,
    w: Window,
    zero: T,
    input: Seq<T>,
    weight: Seq<T>,
    bias: Option<Seq<T>>,
    c: int,
    oy: int,
    ox: int,
    v: T,
) -> bool {
    crate::arith::folds(
        depthwise_steps(ar, w, input, weight, c, oy, ox),
        (w.kh * w.kw) as nat,
        crate::linear::start(zero, bias, c),
        v,
    )
}

/// The first `count` outputs are those of the convolution, by channel, row and
/// column.
pub open spec fn depthwise_cells<T, A: Arith<T>>(
    ar: &A,
    w: Window,
    zero: T,
    input: Seq<T>,
    weight: Seq<T>,
    bias: Option<Seq<T>>,
    out: Seq<T>,
    count: int,
) -> bool {
    let (oh, ow) = (w.out_h() as int, w.out_w() as int);
    forall|i: int|
        0 <= i < count ==> depthwise_cell(
            ar,
            w,
            zero,
            input,
            weight,
            bias,
            i / (oh * ow),
            i % (oh * ow) / ow,
            i % (oh * ow) % ow,
            #[trigger] out[i],
        )
}

/// The output is the convolution of each channel with its own kernel.
pub open spec fn is_depthwise<T, A: Arith<T>>(
    ar: &A,
    w: Window,
    input: Seq<T>,
    weight: Seq<T>,
    bias: Option<Seq<T>>,
    out: Seq<T>,
) -> bool {
    exists|zero: T| #[trigger]
        crate::arith::converts(ar, 0, zero) && depthwise_cells(
            ar,
            w,
            zero,
            input,
            weight,
            bias,
            out,
            out.len() as int,
        )
}

/// Channels do not mix: an output of a channel stays what it may be, whatever
/// the inputs of the other channels are.
pub proof fn channels_do_not_mix<T, A: Arith<T>>(
    ar: &A,
    w: Window,
    zero: T,
    input1: Seq<T>,
    input2: Seq<T>,
    weight: Seq<T>,
    bias: Option<Seq<T>>,
    c: int,
    oy: int,
    ox: int,
    v: T,
)
    requires
        0 <= c,
        (c + 1) * (w.height * w.width) <= input1.len(),
        input2.len() == input1.len(),
        crate::linear::row(input1, w.height * w.width, c) == crate::linear::row(
            input2,
            w.height * w.width,
            c,
        ),
        depthwise_cell(ar, w, zero, input1, weight, bias, c, oy, ox, v),
    ensures
        depthwise_cell(ar, w, zero, input2, weight, bias, c, oy, ox, v),
{
    let plane = w.height * w.width;
    let s1 = depthwise_steps(ar, w, input1, weight, c, oy, ox);
    let s2 = depthwise_steps(ar, w, input2, weight, c, oy, ox);
    assert(0 <= plane) by (nonlinear_arith)
        requires
            plane == w.height * w.width,
    ;
    crate::grid::row_bound(c, c + 1, plane);
    assert forall|p: int, a: T, b: T| 0 <= p < w.kh * w.kw && #[trigger] s1(p, a, b) implies s2(
        p,
        a,
        b,
    ) by {
        let (ky, kx) = (p / w.kw as int, p % w.kw as int);
        if w.inside(oy, ox, ky, kx) {
            w.place_bound(oy, ox, ky, kx);
            let i = w.place(oy, ox, ky, kx);
            assert(input1[c * plane + i] == crate::linear::row(input1, plane, c)[i]);
            assert(input2[c * plane + i] == crate::linear::row(input2, plane, c)[i]);
        }
    }
    crate::arith::folds_weaken(
        s1,
        s2,
        (w.kh * w.kw) as nat,
        crate::linear::start(zero, bias, c),
        v,
    );
}

/// One output of one channel.
fn depthwise_output<T: Copy, A: Arith<T>>(
    ar: &A,
    w: Window,
    zero: T,
    input: &[T],
    channels: usize,
    weight: &[T],
    bias: Option<&[T]>,
    c: usize,
    oy: usize,
    ox: usize,
) -> (v: T)
    requires
        w.moves(),
        w.fits(),
        c < channels,
        oy < w.out_h(),
        ox < w.out_w(),
        input@.len() == channels * (w.height * w.width),
        weight@.len() == channels * (w.kh * w.kw),
        bias matches Some(b) ==> b@.len() >= channels,
    ensures
        depthwise_cell(
            ar,
            w,
            zero,
            input@,
            weight@,
            crate::linear::bias_view(bias),
            c as int,
            oy as int,
            ox as int,
            v,
        ),
{
    let total: usize = input.len();
    let w_total: usize = weight.len();
    let ghost plane: int = w.height * w.width;
    let ghost taps: int = w.kh * w.kw;
    proof {
        assert(0 <= plane && 0 <= taps) by (nonlinear_arith)
            requires
                plane == w.height * w.width,
                taps == w.kh * w.kw,
        ;
        crate::grid::row_bound(c as int, channels as int, plane);
        crate::grid::row_bound(c as int, channels as int, taps);
    }
    let base: usize = c * (w.height * w.width);
    let w_base: usize = c * (w.kh * w.kw);
    let init: T = match bias {
        Some(b) => b[c],
        None => zero,
    };
    let ghost steps = depthwise_steps(ar, w, input@, weight@, c as int, oy as int, ox as int);
    let mut acc: T = init;
    proof {
        assert(0 * w.kw == 0) by (nonlinear_arith);
    }
    let mut ky: usize = 0;
    while ky < w.kh
        invariant
            w.moves(),
            w.fits(),
            oy < w.out_h(),
            ox < w.out_w(),
            plane == w.height * w.width,
            taps == w.kh * w.kw,
            base == c * plane,
            w_base == c * taps,
            plane <= usize::MAX,
            base + plane <= total == input@.len(),
            w_base + taps <= w_total == weight@.len(),
            steps == depthwise_steps(ar, w, input@, weight@, c as int, oy as int, ox as int),
            ky <= w.kh,
            crate::arith::folds(steps, (ky * w.kw) as nat, init, acc),
        decreases w.kh - ky,
    {
        proof {
            crate::grid::row_bound(ky as int, w.kh as int, w.kw as int);
        }
        let mut kx: usize = 0;
        while kx < w.kw
            invariant
                w.moves(),
                w.fits(),
                oy < w.out_h(),
                ox < w.out_w(),
                plane == w.height * w.width,
                taps == w.kh * w.kw,
                base == c * plane,
                w_base == c * taps,
                plane <= usize::MAX,
                base + plane <= total == input@.len(),
                w_base + taps <= w_total == weight@.len(),
                steps == depthwise_steps(ar, w, input@, weight@, c as int, oy as int, ox as int),
                ky < w.kh,
                0 <= ky * w.kw,
                ky * w.kw + w.kw <= taps,
                kx <= w.kw,
                crate::arith::folds(steps, (ky * w.kw + kx) as nat, init, acc),
            decreases w.kw - kx,
        {
            proof {
                crate::grid::cell(ky as int, kx as int, w.kw as int);
            }
            let next: T = match w.tap(oy, ox, ky, kx) {
                Some(i) => mul_add(ar, acc, input[base + i], weight[w_base + (ky * w.kw + kx)]),
                None => acc,
            };
            proof {
                crate::arith::fold_step(steps, (ky * w.kw + kx) as nat, init, acc, next);
            }
            acc = next;
            kx = kx + 1;
        }
        ky = ky + 1;
    }
    acc
}

/// The convolution of every channel with its own kernel.
fn depthwise_compute<T: Copy, A: Arith<T>>(
    ar: &A,
    w: Window,
    input: &[T],
    channels: usize,
    weight: &[T],
    bias: Option<&[T]>,
    oh: usize,
    ow: usize,
    out: &mut [T],
)
    requires
        w.moves(),
        w.fits(),
        oh == w.out_h(),
        ow == w.out_w(),
        input@.len() == channels * (w.height * w.width),
        weight@.len() == channels * (w.kh * w.kw),
        bias matches Some(b) ==> b@.len() >= channels,
        old(out)@.len() == channels * (oh * ow),
    ensures
        final(out)@.len() == old(out)@.len(),
        is_depthwise(ar, w, input@, weight@, crate::linear::bias_view(bias), final(out)@),
{
    let total: usize = out.len();
    let zero: T = ar.from_int(0);
    let ghost bv = crate::linear::bias_view(bias);
    let ghost cells: int = oh * ow;
    proof {
        assert(crate::arith::converts(ar, 0, zero));
        assert(0 * cells == 0 && 0 * ow == 0) by (nonlinear_arith);
        assert(cells >= 0) by (nonlinear_arith)
            requires
                cells == oh * ow,
        ;
    }
    let mut at: usize = 0;
    let mut c: usize = 0;
    while c < channels
        invariant
            w.moves(),
            w.fits(),
            oh == w.out_h(),
            ow == w.out_w(),
            cells == oh * ow,
            cells >= 0,
            input@.len() == channels * (w.height * w.width),
            weight@.len() == channels * (w.kh * w.kw),
            bias matches Some(b) ==> b@.len() >= channels,
            bv == crate::linear::bias_view(bias),
            total == out@.len() == channels * cells,
            c <= channels,
            at == c * cells,
            depthwise_cells(ar, w, zero, input@, weight@, bv, out@, at as int),
        decreases channels - c,
    {
        proof {
            crate::grid::row_bound(c as int, channels as int, cells);
            assert(0 * ow == 0) by (nonlinear_arith);
        }
        let mut oy: usize = 0;
        while oy < oh
            invariant
                w.moves(),
                w.fits(),
                oh == w.out_h(),
                ow == w.out_w(),
                cells == oh * ow,
                input@.len() == channels * (w.height * w.width),
                weight@.len() == channels * (w.kh * w.kw),
                bias matches Some(b) ==> b@.len() >= channels,
                bv == crate::linear::bias_view(bias),
                c < channels,
                0 <= c * cells,
                c * cells + cells <= total == out@.len(),
                oy <= oh,
                at == c * cells + oy * ow,
                depthwise_cells(ar, w, zero, input@, weight@, bv, out@, at as int),
            decreases oh - oy,
        {
            proof {
                crate::grid::row_bound(oy as int, oh as int, ow as int);
            }
            let mut ox: usize = 0;
            while ox < ow
                invariant
                    w.moves(),
                    w.fits(),
                    oh == w.out_h(),
                    ow == w.out_w(),
                    cells == oh * ow,
                    input@.len() == channels * (w.height * w.width),
                    weight@.len() == channels * (w.kh * w.kw),
                    bias matches Some(b) ==> b@.len() >= channels,
                    bv == crate::linear::bias_view(bias),
                    c < channels,
                    0 <= c * cells,
                    c * cells + cells <= total == out@.len(),
                    oy < oh,
                    0 <= oy * ow,
                    oy * ow + ow <= cells,
                    ox <= ow,
                    at == c * cells + oy * ow + ox,
                    depthwise_cells(ar, w, zero, input@, weight@, bv, out@, at as int),
                decreases ow - ox,
            {
                let v: T = depthwise_output(
                    ar,
                    w,
                    zero,
                    input,
                    channels,
                    weight,
                    bias,
                    c,
                    oy,
                    ox,
                );
                let ghost before = out@;
                out[at] = v;
                proof {
                    crate::grid::cell(c as int, oy * ow + ox, cells);
                    crate::grid::cell(oy as int, ox as int, ow as int);
                    assert forall|i: int| 0 <= i < at + 1 implies depthwise_cell(
                        ar,
                        w,
                        zero,
                        input@,
                        weight@,
                        bv,
                        i / (w.out_h() as int * w.out_w() as int),
                        i % (w.out_h() as int * w.out_w() as int) / w.out_w() as int,
                        i % (w.out_h() as int * w.out_w() as int) % w.out_w() as int,
                        #[trigger] out@[i],
                    ) by {
                        if i < at {
                            assert(out@[i] == before[i]);
                        }
                    }
                }
                at = at + 1;
                ox = ox + 1;
            }
            oy = oy + 1;
        }
        c = c + 1;
    }
}

/// When a depthwise convolution is refused, and how.
pub open spec fn depthwise_refusal(
    w: Window,
    input_len: nat,
    channels: nat,
    weight_len: nat,
    bias_len: Option<nat>,
    out_len: nat,
) -> crate::shapes::Refusal {
    let name = "depthwise_conv2d"@;
    crate::shapes::first(
        crate::shapes::refuse_if(!w.moves(), name + " kernel and stride must be non-zero"@),
        crate::shapes::first(
            conv_len_refusal(
                name,
                "input"@,
                input_len,
                "channels*height*width"@,
                channels * w.height as nat * w.width as nat,
            ),
            crate::shapes::first(
                conv_len_refusal(
                    name,
                    "weight"@,
                    weight_len,
                    "channels*kh*kw"@,
                    channels * w.kh as nat * w.kw as nat,
                ),
                crate::shapes::first(
                    match bias_len {
                        Some(n) => conv_len_refusal(name, "bias"@, n, "channels"@, channels),
                        None => None,
                    },
                    conv_len_refusal(
                        name,
                        "out"@,
                        out_len,
                        "channels*out_h*out_w"@,
                        channels * w.out_h() * w.out_w(),
                    ),
                ),
            ),
        ),
    )
}

/// The products that the checks come to compute fit into a `usize`, and so do
/// the sizes of a plane, of a kernel and of an output plane.
pub open spec fn depthwise_fits(
    w: Window,
    input_len: nat,
    channels: nat,
    weight_len: nat,
    bias_len: Option<nat>,
    out_len: nat,
) -> bool {
    let inputs = channels * w.height as nat * w.width as nat;
    let taps = channels * w.kh as nat * w.kw as nat;
    w.moves() ==> {
        &&& channels * w.height as nat <= usize::MAX
        &&& inputs <= usize::MAX
        &&& input_len == inputs ==> {
            &&& channels * w.kh as nat <= usize::MAX
            &&& taps <= usize::MAX
            &&& weight_len == taps && (bias_len matches Some(n) ==> n == channels) ==> {
                &&& w.fits()
                &&& channels * w.out_h() <= usize::MAX
                &&& channels * w.out_h() * w.out_w() <= usize::MAX
            }
        }
    }
}

/// Convolution of each channel of a plane with its own kernel.
pub fn depthwise_conv2d<T: Copy, A: Arith<T>>(
    ar: &A,
    input: &[T],
    channels: usize,
    height: usize,
    width: usize,
    weight: &[T],
    bias: Option<&[T]>,
    kernel: (usize, usize),
    stride: (usize, usize),
    padding: (usize, usize),
    out: &mut [T],
) -> (r: Result<(), OcelotlError>)
    requires
        depthwise_fits(
            window(height, width, kernel, stride, padding),
            input@.len(),
            channels as nat,
            weight@.len(),
            crate::linear::bias_len(bias),
            old(out)@.len(),
        ),
    ensures
        final(out)@.len() == old(out)@.len(),
        crate::shapes::refused(r) == depthwise_refusal(
            window(height, width, kernel, stride, padding),
            input@.len(),
            channels as nat,
            weight@.len(),
            crate::linear::bias_len(bias),
            old(out)@.len(),
        ),
        r is Err ==> final(out)@ == old(out)@,
        r is Ok ==> is_depthwise(
            ar,
            window(height, width, kernel, stride, padding),
            input@,
            weight@,
            crate::linear::bias_view(bias),
            final(out)@,
        ),
{
    let w = Window {
        height,
        width,
        kh: kernel.0,
        kw: kernel.1,
        sh: stride.0,
        sw: stride.1,
        ph: padding.0,
        pw: padding.1,
    };
    if w.kh == 0 || w.kw == 0 || w.sh == 0 || w.sw == 0 {
        return Err(
            kernel_err(
                Text::new("depthwise_conv2d").s(" kernel and stride must be non-zero").done(),
            ),
        );
    }
    match check_len(
        "depthwise_conv2d",
        "input",
        input.len(),
        "channels*height*width",
        channels * height * width,
    ) {
        Ok(_) => {},
        Err(e) => return Err(e),
    }
    match check_len(
        "depthwise_conv2d",
        "weight",
        weight.len(),
        "channels*kh*kw",
        channels * w.kh * w.kw,
    ) {
        Ok(_) => {},
        Err(e) => return Err(e),
    }
    match bias {
        Some(b) => match check_len("depthwise_conv2d", "bias", b.len(), "channels", channels) {
            Ok(_) => {},
            Err(e) => return Err(e),
        },
        None => {},
    }
    let oh: usize = conv_out_len(height, w.kh, w.sh, w.ph);
    let ow: usize = conv_out_len(width, w.kw, w.sw, w.pw);
    match check_len(
        "depthwise_conv2d",
        "out",
        out.len(),
        "channels*out_h*out_w",
        channels * oh * ow,
    ) {
        Ok(_) => {},
        Err(e) => return Err(e),
    }
    proof {
        assert(channels * height * width == channels * (height * width)) by (nonlinear_arith);
        assert(channels * w.kh * w.kw == channels * (w.kh * w.kw)) by (nonlinear_arith);
        assert(channels * oh * ow == channels * (oh * ow)) by (nonlinear_arith);
    }
    depthwise_compute(ar, w, input, channels, weight, bias, oh, ow, out);
    Ok(())
}

/// The window of a convolution along one axis: a plane of one row.
pub open spec fn line_window(time: usize, kernel: usize, stride: usize, padding: usize) -> Window {
    window(1, time, (1, kernel), (1, stride), (0, padding))
}

/// When a depthwise convolution along one axis is refused, and how.
pub open spec fn line_refusal(
    input_len: nat,
    channels: nat,
    time: nat,
    weight_len: nat,
    kernel: nat,
    stride: nat,
    padding: nat,
    out_len: nat,
) -> crate::shapes::Refusal {
    let name = "depthwise_conv1d"@;
    crate::shapes::first(
        crate::shapes::refuse_if(
            kernel == 0 || stride == 0,
            name + " kernel and stride must be non-zero"@,
        ),
        crate::shapes::first(
            conv_len_refusal(name, "input"@, input_len, "channels*time"@, channels * time),
            crate::shapes::first(
                conv_len_refusal(name, "weight"@, weight_len, "channels*kernel"@, channels * kernel),
                conv_len_refusal(
                    name,
                    "out"@,
                    out_len,
                    "channels*out_time"@,
                    channels * extent(time, kernel, stride, padding),
                ),
            ),
        ),
    )
}

/// The products that the checks come to compute fit into a `usize`.
pub open spec fn line_fits(
    input_len: nat,
    channels: nat,
    time: nat,
    weight_len: nat,
    kernel: nat,
    stride: nat,
    padding: nat,
) -> bool {
    kernel > 0 && stride > 0 ==> {
        &&& channels * time <= usize::MAX
        &&& input_len == channels * time ==> {
            &&& channels * kernel <= usize::MAX
            &&& weight_len == channels * kernel ==> {
                &&& time + 2 * padding <= usize::MAX
                &&& extent(time, kernel, stride, padding) <= usize::MAX
                &&& channels * extent(time, kernel, stride, padding) <= usize::MAX
            }
        }
    }
}

/// Convolution of each channel along one axis with its own kernel. A bias has a
/// value for every channel.
pub fn depthwise_conv1d<T: Copy, A: Arith<T>>(
    ar: &A,
    input: &[T],
    channels: usize,
    time: usize,
    weight: &[T],
    bias: Option<&[T]>,
    kernel: usize,
    stride: usize,
    padding: usize,
    out: &mut [T],
) -> (r: Result<(), OcelotlError>)
    requires
        line_fits(
            input@.len(),
            channels as nat,
            time as nat,
            weight@.len(),
            kernel as nat,
            stride as nat,
            padding as nat,
        ),
        line_refusal(
            input@.len(),
            channels as nat,
            time as nat,
            weight@.len(),
            kernel as nat,
            stride as nat,
            padding as nat,
            old(out)@.len(),
        ) is None ==> (bias matches Some(b) ==> b@.len() >= channels),
    ensures
        final(out)@.len() == old(out)@.len(),
        crate::shapes::refused(r) == line_refusal(
            input@.len(),
            channels as nat,
            time as nat,
            weight@.len(),
            kernel as nat,
            stride as nat,
            padding as nat,
            old(out)@.len(),
        ),
        r is Err ==> final(out)@ == old(out)@,
        r is Ok ==> is_depthwise(
            ar,
            line_window(time, kernel, stride, padding),
            input@,
            weight@,
            crate::linear::bias_view(bias),
            final(out)@,
        ),
{
    if kernel == 0 || stride == 0 {
        return Err(
            kernel_err(
                Text::new("depthwise_conv1d").s(" kernel and stride must be non-zero").done(),
            ),
        );
    }
    match check_len("depthwise_conv1d", "input", input.len(), "channels*time", channels * time) {
        Ok(_) => {},
        Err(e) => return Err(e),
    }
    match check_len(
        "depthwise_conv1d",
        "weight",
        weight.len(),
        "channels*kernel",
        channels * kernel,
    ) {
        Ok(_) => {},
        Err(e) => return Err(e),
    }
    let ot: usize = conv_out_len(time, kernel, stride, padding);
    match check_len("depthwise_conv1d", "out", out.len(), "channels*out_time", channels * ot) {
        Ok(_) => {},
        Err(e) => return Err(e),
    }
    let w = Window {
        height: 1,
        width: time,
        kh: 1,
        kw: kernel,
        sh: 1,
        sw: stride,
        ph: 0,
        pw: padding,
    };
    assert(w.out_h() == 1);
    depthwise_compute(ar, w, input, channels, weight, bias, 1, ot, out);
    Ok(())
}

/// When a batch normalisation is refused for its shapes, and how.
pub open spec fn batch_norm_refusal(
    x_len: nat,
    channels: nat,
    spatial: nat,
    mean_len: nat,
    var_len: nat,
    gamma_len: nat,
    beta_len: nat,
) -> crate::shapes::Refusal {
    let name = "batch_norm_inference"@;
    crate::shapes::first(
        conv_len_refusal(name, "x"@, x_len, "channels*spatial"@, channels * spatial),
        crate::shapes::first(
            crate::shapes::first(
                conv_len_refusal(name, "running_mean"@, mean_len, "channels"@, channels),
                conv_len_refusal(name, "running_var"@, var_len, "channels"@, channels),
            ),
            crate::shapes::first(
                conv_len_refusal(name, "gamma"@, gamma_len, "channels"@, channels),
                conv_len_refusal(name, "beta"@, beta_len, "channels"@, channels),
            ),
        ),
    )
}

/// `v` may be `x`, normalised by fixed statistics: with
/// `scale = gamma / sqrt(var + eps)`, it is `x * scale + (beta - mean * scale)`.
pub open spec fn batch_norm_cell<T, A: Arith<T>>(
    ar: &A,
    x: T,
    mean: T,
    var: T,
    gamma: T,
    beta: T,
    eps: T,
    v: T,
) -> bool {
    exists|scale: T| #[trigger]
        crate::expr::evals(
            ar,
            crate::expr::Expr::Value(gamma).over(
                crate::expr::Expr::Value(var).plus(crate::expr::Expr::Value(eps)).root(),
            ),
            scale,
        ) && crate::expr::evals(
            ar,
            crate::expr::Expr::Value(x).times(crate::expr::Expr::Value(scale)).plus(
                crate::expr::Expr::Value(beta).minus(
                    crate::expr::Expr::Value(mean).times(crate::expr::Expr::Value(scale)),
                ),
            ),
            v,
        )
}

/// The output is every value, normalised by the statistics of its channel.
pub open spec fn is_batch_norm<T, A: Arith<T>>(
    ar: &A,
    x: Seq<T>,
    spatial: int,
    mean: Seq<T>,
    var: Seq<T>,
    gamma: Seq<T>,
    beta: Seq<T>,
    eps: T,
    out: Seq<T>,
) -> bool {
    forall|i: int|
        0 <= i < out.len() ==> batch_norm_cell(
            ar,
            x[i],
            mean[i / spatial],
            var[i / spatial],
            gamma[i / spatial],
            beta[i / spatial],
            eps,
            #[trigger] out[i],
        )
}

/// Batch normalisation with fixed statistics, in place, over rows of `spatial`
/// values, one for each channel.
pub fn batch_norm_inference<T: Copy, A: Arith<T>>(
    ar: &A,
    x: &mut [T],
    channels: usize,
    spatial: usize,
    running_mean: &[T],
    running_var: &[T],
    gamma: &[T],
    beta: &[T],
    eps: T,
) -> (r: Result<(), OcelotlError>)
    requires
        channels * spatial <= usize::MAX,
    ensures
        final(x)@.len() == old(x)@.len(),
        ({
            let refusal = batch_norm_refusal(
                old(x)@.len(),
                channels as nat,
                spatial as nat,
                running_mean@.len(),
                running_var@.len(),
                gamma@.len(),
                beta@.len(),
            );
            if refusal is Some {
                crate::shapes::refused(r) == refusal
            } else {
                crate::norms::epsilon_outcome(
                    ar,
                    "batch_norm_inference eps must be finite and non-negative, got "@,
                    eps,
                    crate::shapes::refused(r),
                )
            }
        }),
        r is Err ==> final(x)@ == old(x)@,
        r is Ok ==> is_batch_norm(
            ar,
            old(x)@,
            spatial as int,
            running_mean@,
            running_var@,
            gamma@,
            beta@,
            eps,
            final(x)@,
        ),
{
    let name: &str = "batch_norm_inference";
    match check_len(name, "x", x.len(), "channels*spatial", channels * spatial) {
        Ok(_) => {},
        Err(e) => return Err(e),
    }
    match check_len(name, "running_mean", running_mean.len(), "channels", channels) {
        Ok(_) => {},
        Err(e) => return Err(e),
    }
    match check_len(name, "running_var", running_var.len(), "channels", channels) {
        Ok(_) => {},
        Err(e) => return Err(e),
    }
    match check_len(name, "gamma", gamma.len(), "channels", channels) {
        Ok(_) => {},
        Err(e) => return Err(e),
    }
    match check_len(name, "beta", beta.len(), "channels", channels) {
        Ok(_) => {},
        Err(e) => return Err(e),
    }
    match check_epsilon(
        ar,
        "batch_norm_inference eps must be finite and non-negative, got ",
        eps,
    ) {
        Ok(_) => {},
        Err(e) => return Err(e),
    }
    let total: usize = x.len();
    let ghost given = x@;
    let mut c: usize = 0;
    while c < channels
        invariant
            total == x@.len() == given.len() == channels * spatial,
            running_mean@.len() == channels,
            running_var@.len() == channels,
            gamma@.len() == channels,
            beta@.len() == channels,
            c <= channels,
            forall|i: int| c * spatial <= i < total ==> #[trigger] x@[i] == given[i],
            forall|i: int|
                0 <= i < c * spatial ==> batch_norm_cell(
                    ar,
                    given[i],
                    running_mean@[i / spatial as int],
                    running_var@[i / spatial as int],
                    gamma@[i / spatial as int],
                    beta@[i / spatial as int],
                    eps,
                    #[trigger] x@[i],
                ),
        decreases channels - c,
    {
        proof {
            crate::grid::row_bound(c as int, channels as int, spatial as int);
        }
        let deviation = Term::of(ar, running_var[c]).plus(ar, &Term::of(ar, eps)).root(ar);
        let scale = Term::of(ar, gamma[c]).over(ar, &deviation);
        let factor = Term::of(ar, scale.value);
        let shift = Term::of(ar, beta[c]).minus(
            ar,
            &Term::of(ar, running_mean[c]).times(ar, &factor),
        );
        let at: usize = c * spatial;
        let mut j: usize = 0;
        while j < spatial
            invariant
                total == x@.len() == given.len(),
                c < channels,
                running_mean@.len() == channels,
                running_var@.len() == channels,
                gamma@.len() == channels,
                beta@.len() == channels,
                at == c * spatial,
                at + spatial <= total,
                j <= spatial,
                crate::expr::evals(
                    ar,
                    crate::expr::Expr::Value(gamma@[c as int]).over(
                        crate::expr::Expr::Value(running_var@[c as int]).plus(
                            crate::expr::Expr::Value(eps),
                        ).root(),
                    ),
                    scale.value,
                ),
                factor.holds(ar),
                factor.expr@ == crate::expr::Expr::Value(scale.value),
                shift.holds(ar),
                shift.expr@ == crate::expr::Expr::Value(beta@[c as int]).minus(
                    crate::expr::Expr::Value(running_mean@[c as int]).times(
                        crate::expr::Expr::Value(scale.value),
                    ),
                ),
                forall|i: int| at + j <= i < total ==> #[trigger] x@[i] == given[i],
                forall|i: int|
                    0 <= i < at + j ==> batch_norm_cell(
                        ar,
                        given[i],
                        running_mean@[i / spatial as int],
                        running_var@[i / spatial as int],
                        gamma@[i / spatial as int],
                        beta@[i / spatial as int],
                        eps,
                        #[trigger] x@[i],
                    ),
            decreases spatial - j,
        {
            let v = Term::of(ar, x[at + j]).times(ar, &factor).plus(ar, &shift);
            x[at + j] = v.value;
            proof {
                crate::grid::cell(c as int, j as int, spatial as int);
            }
            j = j + 1;
        }
        c = c + 1;
    }
    Ok(())
}

} // verus!
