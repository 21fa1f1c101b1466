use vstd::prelude::*;

use crate::arith::Arith;
use crate::reals::Reals;

verus! {

/// The number of places of a kernel: the last one lies on the padded input, and
/// there is none after it.
pub proof fn extent_counts_the_places(input: nat, kernel: nat, stride: nat, padding: nat)
    requires
        stride > 0,
        kernel <= input + 2 * padding,
    ensures
        crate::conv::extent(input, kernel, stride, padding) >= 1,
        (crate::conv::extent(input, kernel, stride, padding) - 1) * stride + kernel <= input + 2
            * padding,
        crate::conv::extent(input, kernel, stride, padding) * stride + kernel > input + 2 * padding,
{
    let room = (input + 2 * padding - kernel) as int;
    let s = stride as int;
    crate::grid::index(room, s);
    let q = room / s;
    assert((q + 1) * s == q * s + s) by (nonlinear_arith);
}

/// The output of a window has as many rows as the kernel has places downwards,
/// and as many columns as it has places sidewards.
pub proof fn outputs_count_the_places(
    height: usize,
    width: usize,
    kernel: (usize, usize),
    stride: (usize, usize),
    padding: (usize, usize),
)
    requires
        stride.0 > 0,
        stride.1 > 0,
        kernel.0 <= height + 2 * padding.0,
        kernel.1 <= width + 2 * padding.1,
    ensures
        ({
            let rows = crate::conv::window(height, width, kernel, stride, padding).out_h();
            let columns = crate::conv::window(height, width, kernel, stride, padding).out_w();
            &&& (rows - 1) * stride.0 + kernel.0 <= height + 2 * padding.0 < rows * stride.0
                + kernel.0
            &&& (columns - 1) * stride.1 + kernel.1 <= width + 2 * padding.1 < columns * stride.1
                + kernel.1
        }),
{
    extent_counts_the_places(
        height as nat,
        kernel.0 as nat,
        stride.0 as nat,
        padding.0 as nat,
    );
    extent_counts_the_places(width as nat, kernel.1 as nat, stride.1 as nat, padding.1 as nat);
}

/// The place of output `(c, y, x)`, and of the kernel's number `(ic, ky, kx)` in a
/// row.
proof fn places(c: int, y: int, x: int, oh: int, ow: int)
    requires
        0 <= c,
        0 <= y < oh,
        0 <= x < ow,
    ensures
        ((c * oh + y) * ow + x) / (oh * ow) == c,
        ((c * oh + y) * ow + x) % (oh * ow) / ow == y,
        ((c * oh + y) * ow + x) % (oh * ow) % ow == x,
        ((c * oh + y) * ow + x) / ow / oh == c,
        ((c * oh + y) * ow + x) / ow % oh == y,
        ((c * oh + y) * ow + x) % ow == x,
        0 <= c * oh + y,
        (c * oh + y) * ow + x == c * (oh * ow) + (y * ow + x),
        0 <= y * ow + x < oh * ow,
{
    crate::grid::cell(c, y, oh);
    crate::grid::cell(y, x, ow);
    crate::grid::cell(c * oh + y, x, ow);
    crate::grid::row_bound(y, oh, ow);
    assert((c * oh + y) * ow == c * (oh * ow) + y * ow) by (nonlinear_arith);
    crate::grid::cell(c, y * ow + x, oh * ow);
}

/// What a kernel of one number does: with all weights of output channel `oc` zero
/// but that of input channel `ic` at `(ky, kx)`, the output at `(oy, ox)` is the
/// bias and that weight times the input at `(oy * sh + ky - ph, ox * sw + kx - pw)`;
/// where that is no place of the input, the bias. Without rounding.
pub proof fn single_tap<T, A: Arith<T>>(
    ar: &A,
    re: Reals<T>,
    height: usize,
    width: usize,
    kernel: (usize, usize),
    stride: (usize, usize),
    padding: (usize, usize),
    input: Seq<T>,
    channels: int,
    weight: Seq<T>,
    bias: Option<Seq<T>>,
    out_channels: int,
    out: Seq<T>,
    at: (int, int, int),
    tap: (int, int, int),
)
    requires
        re.exact(ar),
        crate::conv::is_conv(
            ar,
            crate::conv::window(height, width, kernel, stride, padding),
            input,
            channels,
            weight,
            bias,
            out,
        ),
        weight.len() == out_channels * (channels * (kernel.0 * kernel.1)),
        out.len() == out_channels * (crate::conv::window(
            height,
            width,
            kernel,
            stride,
            padding,
        ).out_h() * crate::conv::window(height, width, kernel, stride, padding).out_w()),
        0 <= at.0 < out_channels,
        0 <= at.1 < crate::conv::window(height, width, kernel, stride, padding).out_h(),
        0 <= at.2 < crate::conv::window(height, width, kernel, stride, padding).out_w(),
        0 <= tap.0 < channels,
        0 <= tap.1 < kernel.0,
        0 <= tap.2 < kernel.1,
        forall|q: int|
            0 <= q < weight.len() && q / (channels * (kernel.0 * kernel.1)) == at.0 && q != ((at.0
                * channels + tap.0) * kernel.0 + tap.1) * kernel.1 + tap.2 ==> (re.value)(
                #[trigger] weight[q],
            ) == 0real,
    ensures
        ({
            let (oc, oy, ox) = at;
            let (ic, ky, kx) = tap;
            let oh = crate::conv::window(height, width, kernel, stride, padding).out_h();
            let ow = crate::conv::window(height, width, kernel, stride, padding).out_w();
            let first = match bias {
                Some(b) => (re.value)(b[oc]),
                None => 0real,
            };
            let y = oy * stride.0 + ky - padding.0;
            let x = ox * stride.1 + kx - padding.1;
            (re.value)(out[(oc * oh + oy) * ow + ox]) == first + if 0 <= y < height && 0 <= x
                < width {
                (re.value)(input[(ic * height + y) * width + x]) * (re.value)(
                    weight[((oc * channels + ic) * kernel.0 + ky) * kernel.1 + kx],
                )
            } else {
                0real
            }
        }),
{
    let w = crate::conv::window(height, width, kernel, stride, padding);
    let val = re.value;
    let (oc, oy, ox) = at;
    let (ic, ky, kx) = tap;
    let (oh, ow) = (w.out_h() as int, w.out_w() as int);
    let (kh, kw) = (kernel.0 as int, kernel.1 as int);
    let i = (oc * oh + oy) * ow + ox;
    places(oc, oy, ox, oh, ow);
    crate::grid::row_bound(oc, out_channels, oh * ow);
    let (pad, zero) = choose|pad: T, zero: T| #[trigger]
        crate::arith::converts(ar, 0, pad) && #[trigger] crate::arith::converts(ar, 0, zero)
            && forall|i: int|
            0 <= i < out.len() ==> crate::conv::conv_cell(
                ar,
                w,
                pad,
                zero,
                input,
                channels,
                weight,
                bias,
                i / (oh * ow),
                i % (oh * ow) / ow,
                i % (oh * ow) % ow,
                #[trigger] out[i],
            );
    assert(crate::conv::conv_cell(
        ar,
        w,
        pad,
        zero,
        input,
        channels,
        weight,
        bias,
        oc,
        oy,
        ox,
        out[i],
    ));
    let taps = channels * kh * kw;
    assert(taps == channels * (kh * kw)) by (nonlinear_arith)
        requires
            taps == channels * kh * kw,
    ;
    let xs = crate::conv::patch(w, pad, input, channels, oy, ox);
    let ws = crate::linear::row(weight, taps, oc);
    let init = crate::linear::start(zero, bias, oc);
    re.dots_value(ar, init, xs, ws, out[i]);
    let f = |p: int| val(xs[p]) * val(ws[p]);
    let p = (ic * kh + ky) * kw + kx;
    places(ic, ky, kx, kh, kw);
    crate::grid::row_bound(ic, channels, kh * kw);
    assert(0 <= p < taps);
    crate::grid::row_bound(oc, out_channels, taps);
    let q = ((oc * channels + ic) * kh + ky) * kw + kx;
    assert(q == oc * taps + p) by (nonlinear_arith)
        requires
            q == ((oc * channels + ic) * kh + ky) * kw + kx,
            p == (ic * kh + ky) * kw + kx,
            taps == channels * kh * kw,
    ;
    assert forall|p2: int| 0 <= p2 < xs.len() && p2 != p implies #[trigger] f(p2) == 0real by {
        crate::grid::cell(oc, p2, taps);
        assert(ws[p2] == weight[oc * taps + p2]);
        let a = val(xs[p2]);
        assert(a * 0real == 0real) by (nonlinear_arith);
    }
    crate::reals::single_sum(f, xs.len(), p);
    assert(ws[p] == weight[q]);
    let y = oy * stride.0 + ky - padding.0;
    let x = ox * stride.1 + kx - padding.1;
    let s = crate::conv::sample(w, pad, input, ic, oy, ox, ky, kx);
    assert(xs[p] == s);
    let (h, wd) = (height as int, width as int);
    if 0 <= y < height && 0 <= x < width {
        assert((ic * h + y) * wd + x == ic * (h * wd) + (y * wd + x)) by (nonlinear_arith);
        assert(s == input[(ic * height + y) * width + x]);
    } else {
        assert(s == pad);
        let b = val(weight[q]);
        assert(0real * b == 0real) by (nonlinear_arith);
    }
}

/// Convolutions without bias add up: with weights that are the sums of two others'
/// the output is the sum of the two outputs. Without rounding.
pub proof fn kernels_add<T, A: Arith<T>>(
    ar: &A,
    re: Reals<T>,
    w: crate::conv::Window,
    input: Seq<T>,
    channels: int,
    out_channels: int,
    weights: (Seq<T>, Seq<T>, Seq<T>),
    outs: (Seq<T>, Seq<T>, Seq<T>),
    i: int,
)
    requires
        re.exact(ar),
        channels >= 0,
        crate::conv::is_conv(ar, w, input, channels, weights.0, None, outs.0),
        crate::conv::is_conv(ar, w, input, channels, weights.1, None, outs.1),
        crate::conv::is_conv(ar, w, input, channels, weights.2, None, outs.2),
        weights.0.len() == out_channels * (channels * (w.kh * w.kw)),
        weights.1.len() == weights.0.len(),
        weights.2.len() == weights.0.len(),
        forall|q: int|
            0 <= q < weights.0.len() ==> (re.value)(#[trigger] weights.2[q]) == (re.value)(
                weights.0[q],
            ) + (re.value)(weights.1[q]),
        outs.0.len() == out_channels * (w.out_h() * w.out_w()),
        outs.1.len() == outs.0.len(),
        outs.2.len() == outs.0.len(),
        0 <= i < outs.0.len(),
    ensures
        (re.value)(outs.2[i]) == (re.value)(outs.0[i]) + (re.value)(outs.1[i]),
{
    let val = re.value;
    let (oh, ow) = (w.out_h() as int, w.out_w() as int);
    let taps = channels * w.kh * w.kw;
    assert(taps == channels * (w.kh * w.kw)) by (nonlinear_arith)
        requires
            taps == channels * w.kh * w.kw,
    ;
    assert(taps >= 0) by (nonlinear_arith)
        requires
            taps == channels * (w.kh * w.kw),
            channels >= 0,
    ;
    assert(oh * ow > 0) by (nonlinear_arith)
        requires
            oh >= 0,
            ow >= 0,
            0 <= i < out_channels * (oh * ow),
    ;
    let oc = i / (oh * ow);
    crate::grid::index_row(i, out_channels, oh * ow);
    crate::grid::row_bound(oc, out_channels, taps);
    let (oy, ox) = (i % (oh * ow) / ow, i % (oh * ow) % ow);
    let (p0, z0) = conv_pads(ar, w, input, channels, weights.0, None, outs.0, i);
    let (p1, z1) = conv_pads(ar, w, input, channels, weights.1, None, outs.1, i);
    let (p2, z2) = conv_pads(ar, w, input, channels, weights.2, None, outs.2, i);
    let xs = |pad: T| crate::conv::patch(w, pad, input, channels, oy, ox);
    let ws = |s: Seq<T>| crate::linear::row(s, taps, oc);
    re.dots_value(ar, z0, xs(p0), ws(weights.0), outs.0[i]);
    re.dots_value(ar, z1, xs(p1), ws(weights.1), outs.1[i]);
    re.dots_value(ar, z2, xs(p2), ws(weights.2), outs.2[i]);
    let f0 = |p: int| val(xs(p0)[p]) * val(ws(weights.0)[p]);
    let f1 = |p: int| val(xs(p1)[p]) * val(ws(weights.1)[p]);
    let f2 = |p: int| val(xs(p2)[p]) * val(ws(weights.2)[p]);
    let both = |p: int| f0(p) + f1(p);
    let n = taps as nat;
    assert forall|p: int| 0 <= p < n implies #[trigger] f2(p) == both(p) by {
        assert(val(xs(p0)[p]) == val(xs(p1)[p]));
        assert(val(xs(p0)[p]) == val(xs(p2)[p]));
        let q = oc * taps + p;
        assert(ws(weights.2)[p] == weights.2[q]);
        assert(ws(weights.0)[p] == weights.0[q]);
        assert(ws(weights.1)[p] == weights.1[q]);
        let (x, a, b) = (val(xs(p0)[p]), val(weights.0[q]), val(weights.1[q]));
        assert(x * (a + b) == x * a + x * b) by (nonlinear_arith);
    }
    crate::reals::equal_sums(f2, both, n);
    crate::reals::added_sums(f0, f1, n);
    assert(xs(p0).len() == n && xs(p1).len() == n && xs(p2).len() == n);
}

/// The padding and the zero of a convolution.
proof fn conv_pads<T, A: Arith<T>>(
    ar: &A,
    w: crate::conv::Window,
    input: Seq<T>,
    channels: int,
    weight: Seq<T>,
    bias: Option<Seq<T>>,
    out: Seq<T>,
    i: int,
) -> (r: (T, T))
    requires
        crate::conv::is_conv(ar, w, input, channels, weight, bias, out),
        0 <= i < out.len(),
    ensures
        crate::arith::converts(ar, 0, r.0),
        crate::arith::converts(ar, 0, r.1),
        crate::conv::conv_cell(
            ar,
            w,
            r.0,
            r.1,
            input,
            channels,
            weight,
            bias,
            i / (w.out_h() * w.out_w()) as int,
            i % (w.out_h() * w.out_w()) as int / w.out_w() as int,
            i % (w.out_h() * w.out_w()) as int % w.out_w() as int,
            out[i],
        ),
{
    let (oh, ow) = (w.out_h() as int, w.out_w() as int);
    choose|pad: T, zero: T| #[trigger]
        crate::arith::converts(ar, 0, pad) && #[trigger] crate::arith::converts(ar, 0, zero)
            && forall|i: int|
            0 <= i < out.len() ==> crate::conv::conv_cell(
                ar,
                w,
                pad,
                zero,
                input,
                channels,
                weight,
                bias,
                i / (oh * ow),
                i % (oh * ow) / ow,
                i % (oh * ow) % ow,
                #[trigger] out[i],
            )
}

/// What a depthwise kernel of one number does: with all weights of channel `c`
/// zero but that at `(ky, kx)`, the output at `(oy, ox)` is the bias and that weight
/// times the input of the same channel at `(oy * sh + ky - ph, ox * sw + kx - pw)`;
/// where that is no place of the input, the bias. Without rounding.
pub proof fn single_depthwise_tap<T, A: Arith<T>>(
    ar: &A,
    re: Reals<T>,
    height: usize,
    width: usize,
    kernel: (usize, usize),
    stride: (usize, usize),
    padding: (usize, usize),
    input: Seq<T>,
    channels: int,
    weight: Seq<T>,
    bias: Option<Seq<T>>,
    out: Seq<T>,
    at: (int, int, int),
    tap: (int, int),
)
    requires
        re.exact(ar),
        crate::conv::is_depthwise(
            ar,
            crate::conv::window(height, width, kernel, stride, padding),
            input,
            weight,
            bias,
            out,
        ),
        weight.len() == channels * (kernel.0 * kernel.1),
        out.len() == channels * (crate::conv::window(
            height,
            width,
            kernel,
            stride,
            padding,
        ).out_h() * crate::conv::window(height, width, kernel, stride, padding).out_w()),
        0 <= at.0 < channels,
        0 <= at.1 < crate::conv::window(height, width, kernel, stride, padding).out_h(),
        0 <= at.2 < crate::conv::window(height, width, kernel, stride, padding).out_w(),
        0 <= tap.0 < kernel.0,
        0 <= tap.1 < kernel.1,
        forall|q: int|
            0 <= q < weight.len() && q / (kernel.0 * kernel.1) == at.0 && q != (at.0 * kernel.0
                + tap.0) * kernel.1 + tap.1 ==> (re.value)(#[trigger] weight[q]) == 0real,
    ensures
        ({
            let (c, oy, ox) = at;
            let (ky, kx) = tap;
            let oh = crate::conv::window(height, width, kernel, stride, padding).out_h();
            let ow = crate::conv::window(height, width, kernel, stride, padding).out_w();
            let first = match bias {
                Some(b) => (re.value)(b[c]),
                None => 0real,
            };
            let y = oy * stride.0 + ky - padding.0;
            let x = ox * stride.1 + kx - padding.1;
            (re.value)(out[(c * oh + oy) * ow + ox]) == first + if 0 <= y < height && 0 <= x
                < width {
                (re.value)(input[(c * height + y) * width + x]) * (re.value)(
                    weight[(c * kernel.0 + ky) * kernel.1 + kx],
                )
            } else {
                0real
            }
        }),
{
    let w = crate::conv::window(height, width, kernel, stride, padding);
    let val = re.value;
    let (c, oy, ox) = at;
    let (ky, kx) = tap;
    let (oh, ow) = (w.out_h() as int, w.out_w() as int);
    let (kh, kw) = (kernel.0 as int, kernel.1 as int);
    let i = (c * oh + oy) * ow + ox;
    places(c, oy, ox, oh, ow);
    crate::grid::row_bound(c, channels, oh * ow);
    let zero = choose|zero: T| #[trigger]
        crate::arith::converts(ar, 0, zero) && crate::conv::depthwise_cells(
            ar,
            w,
            zero,
            input,
            weight,
            bias,
            out,
            out.len() as int,
        );
    assert(crate::conv::depthwise_cell(ar, w, zero, input, weight, bias, c, oy, ox, out[i]));
    let n = (w.kh * w.kw) as nat;
    let steps = crate::conv::depthwise_steps(ar, w, input, weight, c, oy, ox);
    let init = crate::linear::start(zero, bias, c);
    let f = |p: int|
        if w.inside(oy, ox, p / kw, p % kw) {
            val(input[c * (w.height * w.width) + w.place(oy, ox, p / kw, p % kw)]) * val(
                weight[c * (w.kh * w.kw) + p],
            )
        } else {
            0real
        };
    re.accumulates_value(ar);
    re.fold_value(steps, f, n, init, out[i]);
    let p = ky * kw + kx;
    places(c, ky, kx, kh, kw);
    places(0, ky, kx, kh, kw);
    crate::grid::cell(ky, kx, kw);
    crate::grid::row_bound(c, channels, kh * kw);
    assert forall|p2: int| 0 <= p2 < n && p2 != p implies #[trigger] f(p2) == 0real by {
        crate::grid::cell(c, p2, kh * kw);
        let q = c * (kh * kw) + p2;
        assert(val(weight[q]) == 0real);
        let a = val(input[c * (w.height * w.width) + w.place(oy, ox, p2 / kw, p2 % kw)]);
        assert(a * 0real == 0real) by (nonlinear_arith);
    }
    crate::reals::single_sum(f, n, p);
    let y = oy * stride.0 + ky - padding.0;
    let x = ox * stride.1 + kx - padding.1;
    let (h, wd) = (height as int, width as int);
    assert((c * h + y) * wd + x == c * (h * wd) + (y * wd + x)) by (nonlinear_arith);
}

/// The output of a depthwise convolution over a line: one row, whose window moves
/// along it only.
pub proof fn single_line_tap<T, A: Arith<T>>(
    ar: &A,
    re: Reals<T>,
    time: usize,
    kernel: usize,
    stride: usize,
    padding: usize,
    input: Seq<T>,
    channels: int,
    weight: Seq<T>,
    bias: Option<Seq<T>>,
    out: Seq<T>,
    c: int,
    o: int,
    k: int,
)
    requires
        re.exact(ar),
        crate::conv::is_depthwise(
            ar,
            crate::conv::line_window(time, kernel, stride, padding),
            input,
            weight,
            bias,
            out,
        ),
        weight.len() == channels * kernel,
        out.len() == channels * crate::conv::extent(
            time as nat,
            kernel as nat,
            stride as nat,
            padding as nat,
        ),
        0 <= c < channels,
        0 <= o < crate::conv::extent(time as nat, kernel as nat, stride as nat, padding as nat),
        0 <= k < kernel,
        forall|q: int|
            0 <= q < weight.len() && q / kernel as int == c && q != c * kernel + k ==> (re.value)(
                #[trigger] weight[q],
            ) == 0real,
    ensures
        ({
            let steps = crate::conv::extent(
                time as nat,
                kernel as nat,
                stride as nat,
                padding as nat,
            );
            let first = match bias {
                Some(b) => (re.value)(b[c]),
                None => 0real,
            };
            let t = o * stride + k - padding;
            (re.value)(out[c * steps + o]) == first + if 0 <= t < time {
                (re.value)(input[c * time + t]) * (re.value)(weight[c * kernel + k])
            } else {
                0real
            }
        }),
{
    let w = crate::conv::line_window(time, kernel, stride, padding);
    assert(w == crate::conv::window(1, time, (1, kernel), (1, stride), (0, padding)));
    assert(w.out_h() == 1);
    assert(w.out_h() * w.out_w() == w.out_w()) by (nonlinear_arith)
        requires
            w.out_h() == 1,
    ;
    assert(channels * (1 * kernel) == channels * kernel);
    single_depthwise_tap(
        ar,
        re,
        1,
        time,
        (1, kernel),
        (1, stride),
        (0, padding),
        input,
        channels,
        weight,
        bias,
        out,
        (c, 0, o),
        (0, k),
    );
}

} // verus!
