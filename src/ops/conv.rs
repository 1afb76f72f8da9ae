//! Two-dimensional convolution over batches of multi-channel images.
use vstd::prelude::*;
use vstd::string::StringExecFns;
use vstd::arithmetic::div_mod::{lemma_fundamental_div_mod, lemma_fundamental_div_mod_converse, lemma_mod_pos_bound};
use crate::tensor::{Tensor, ScalarOps};
use crate::shape::{product, element_count, copy_slice};
use crate::model::NodeProto;
use crate::ops::attrs::{named_attr, find_attribute};
use crate::ops::error::OpError;

verus! {

/// Two-dimensional convolution with groups, strides, dilations and padding.
pub struct Conv;

/// The text that `String::from_utf8_lossy` gives for the bytes; it depends on the bytes alone.
pub uninterp spec fn utf8_lossy(b: Seq<u8>) -> Seq<char>;

/// Relies on `String::from_utf8_lossy`: the text that the bytes encode, each
/// invalid sequence replaced by U+FFFD.
#[verifier::external_body]
fn text_of(b: &[u8]) -> (r: String)
    ensures
        r@ == utf8_lossy(b@),
{
    String::from_utf8_lossy(b).into_owned()
}

/// Span of a kernel of `k` taps spaced `d` apart.
pub open spec fn effective_kernel(k: int, d: int) -> int {
    (k - 1) * d + 1
}

/// Total padding along one axis that makes the output `ceil(input / stride)` long.
pub open spec fn same_total_pad(input: int, k: int, s: int, d: int) -> int {
    let out = (input + s - 1) / s;
    let t = (out - 1) * s + effective_kernel(k, d) - input;
    if t > 0 {
        t
    } else {
        0
    }
}

/// Padding `(top, left, bottom, right)` chosen by an `auto_pad` mode: for the two
/// "SAME" modes the total of `same_total_pad` per axis, its odd unit at the end for
/// SAME_UPPER and at the start for SAME_LOWER; none for any other mode.
pub open spec fn auto_pads(
    mode: Seq<char>,
    ih: int,
    iw: int,
    kh: int,
    kw: int,
    sh: int,
    sw: int,
    dh: int,
    dw: int,
) -> (int, int, int, int) {
    let ph = same_total_pad(ih, kh, sh, dh);
    let pw = same_total_pad(iw, kw, sw, dw);
    if mode == "SAME_UPPER"@ {
        (ph / 2, pw / 2, (ph + 1) / 2, (pw + 1) / 2)
    } else if mode == "SAME_LOWER"@ {
        ((ph + 1) / 2, (pw + 1) / 2, ph / 2, pw / 2)
    } else {
        (0, 0, 0, 0)
    }
}

/// One of the two "SAME" modes, which pad the output to `ceil(input / stride)`.
pub open spec fn is_same_mode(mode: Seq<char>) -> bool {
    mode == "SAME_UPPER"@ || mode == "SAME_LOWER"@
}

/// Length of the output along one axis.
pub open spec fn out_size(input: int, near: int, far: int, k: int, s: int, d: int) -> int {
    (input + near + far - effective_kernel(k, d)) / s + 1
}

/// The axis sizes for which `same_total_pad` can be computed in `usize`.
pub open spec fn same_pad_fits(input: int, k: int, s: int, d: int) -> bool {
    &&& input >= 1
    &&& k >= 1
    &&& s >= 1
    &&& d >= 0
    &&& input + s <= usize::MAX
    &&& input + effective_kernel(k, d) <= usize::MAX
}

proof fn lemma_div_mul_le(x: int, s: int)
    requires
        x >= 0,
        s > 0,
    ensures
        (x / s) * s <= x,
        x < (x / s) * s + s,
        x / s >= 0,
{
    lemma_fundamental_div_mod(x, s);
    lemma_mod_pos_bound(x, s);
    let q = x / s;
    assert(q >= 0 && q * s <= x && x < q * s + s) by (nonlinear_arith)
        requires x >= 0, s > 0, x == s * q + (x % s), 0 <= x % s < s;
}

proof fn lemma_mul_le(a: int, b: int, c: int)
    requires
        0 <= a <= b,
        c >= 0,
    ensures
        a * c <= b * c,
{
    assert(a * c <= b * c) by (nonlinear_arith)
        requires 0 <= a <= b, c >= 0;
}

/// Total "SAME" padding along one axis.
fn same_pad_axis(input: usize, k: usize, s: usize, d: usize) -> (r: usize)
    requires
        same_pad_fits(input as int, k as int, s as int, d as int),
    ensures
        r as int == same_total_pad(input as int, k as int, s as int, d as int),
{
    let eff = (k - 1) * d + 1;
    let out = (input + s - 1) / s;
    proof {
        let x = input + s - 1;
        lemma_div_mul_le(x as int, s as int);
        assert(out >= 1) by (nonlinear_arith)
            requires out as int == x / (s as int), x >= s as int, s > 0, (x / s as int) * s <= x,
                x < (x / s as int) * s + s;
        assert((out - 1) * s <= input - 1) by (nonlinear_arith)
            requires out * s <= x, x == input + s - 1, out >= 1;
    }
    let span = (out - 1) * s + eff;
    if span > input {
        span - input
    } else {
        0
    }
}

/// With "SAME" padding and unit stride, every axis keeps its length.
pub proof fn lemma_same_padding_keeps_size(mode: Seq<char>, n: int, k: int, d: int)
    requires
        mode == "SAME_UPPER"@ || mode == "SAME_LOWER"@,
        n >= 1,
        k >= 1,
        d >= 0,
    ensures
        ({
            let p = auto_pads(mode, n, n, k, k, 1, 1, d, d);
            out_size(n, p.0, p.2, k, 1, d) == n && out_size(n, p.1, p.3, k, 1, d) == n
        }),
{
    let eff = effective_kernel(k, d);
    assert(eff >= 1) by (nonlinear_arith)
        requires eff == (k - 1) * d + 1, k >= 1, d >= 0;
    assert((n + 1 - 1) / 1 == n);
    assert(same_total_pad(n, k, 1, d) == eff - 1);
}

/// `x * ys + y` indexes an `xs * ys` block when `x < xs` and `y < ys`.
proof fn lemma_flat2(x: int, y: int, xs: int, ys: int)
    requires
        0 <= x < xs,
        0 <= y < ys,
    ensures
        0 <= x * ys + y < xs * ys,
{
    assert(0 <= x * ys + y < xs * ys) by (nonlinear_arith)
        requires 0 <= x < xs, 0 <= y < ys;
}

/// A four-dimensional shape holds `s[0] * s[1] * s[2] * s[3]` elements.
proof fn lemma_product4(s: Seq<usize>)
    requires
        s.len() == 4,
    ensures
        product(s) == ((s[0] as int * s[1]) * s[2]) * s[3],
{
    let s3 = s.drop_last();
    let s2 = s3.drop_last();
    let s1 = s2.drop_last();
    let s0 = s1.drop_last();
    assert(s0.len() == 0 && s1.len() == 1 && s2.len() == 2 && s3.len() == 3);
    assert(product(s0) == 1);
    assert(product(s1) == product(s0) * (s1.last() as nat));
    assert(s1.last() == s[0] && s2.last() == s[1] && s3.last() == s[2] && s.last() == s[3]);
    assert(product(s1) == s[0] as int);
    assert(product(s2) == s[0] as int * s[1]);
    assert(product(s3) == (s[0] as int * s[1]) * s[2]);
}

/// Row-major offset of `(a, b, c, d)` in a tensor of shape `(_, nb, nc, nd)`.
fn offset4(a: usize, b: usize, c: usize, d: usize, na: usize, nb: usize, nc: usize, nd: usize) -> (r: usize)
    requires
        a < na,
        b < nb,
        c < nc,
        d < nd,
        ((na as int * nb) * nc) * nd <= usize::MAX,
    ensures
        r as int == ((a as int * nb + b) * nc + c) * nd + d,
        r < ((na as int * nb) * nc) * nd,
{
    proof {
        lemma_flat2(a as int, b as int, na as int, nb as int);
        lemma_flat2(a as int * nb + b, c as int, na as int * nb, nc as int);
        lemma_flat2((a as int * nb + b) * nc + c, d as int, (na as int * nb) * nc, nd as int);
        let ab = na as int * nb;
        let abc = ab * nc;
        assert(ab <= abc && abc <= abc * nd) by (nonlinear_arith)
            requires ab >= 0, abc == ab * nc, nc >= 1, nd >= 1;
    }
    ((a * nb + b) * nc + c) * nd + d
}

/// The list of integers of the attribute called `name`, or an empty list.
pub open spec fn ints_of(node: NodeProto, name: Seq<char>) -> Seq<i64> {
    match named_attr(node.attribute@, name) {
        Some(a) => a.ints@,
        None => Seq::empty(),
    }
}

/// The integer of the attribute called `name`, or `default`.
pub open spec fn int_of(node: NodeProto, name: Seq<char>, default: i64) -> i64 {
    match named_attr(node.attribute@, name) {
        Some(a) => a.i,
        None => default,
    }
}

/// The `auto_pad` mode, or the empty text.
pub open spec fn auto_pad_of(node: NodeProto) -> Seq<char> {
    match named_attr(node.attribute@, "auto_pad"@) {
        Some(a) => utf8_lossy(a.s@),
        None => Seq::empty(),
    }
}

/// The `auto_pad` mode decides the padding: it is set and is not "NOTSET".
pub open spec fn uses_auto_pad(node: NodeProto) -> bool {
    auto_pad_of(node).len() > 0 && auto_pad_of(node) != "NOTSET"@
}

/// Number of groups.
pub open spec fn group_of(node: NodeProto) -> int {
    int_of(node, "group"@, 1) as usize as int
}

/// Height stride, then width stride; the width takes the height's where only one is given.
pub open spec fn strides_of(node: NodeProto) -> (int, int) {
    let v = ints_of(node, "strides"@);
    let h: i64 = if v.len() >= 1 { v[0] } else { 1 };
    let w: i64 = if v.len() >= 2 { v[1] } else { h };
    (h as usize as int, w as usize as int)
}

/// Height dilation, then width dilation, with the same defaults as the strides.
pub open spec fn dilations_of(node: NodeProto) -> (int, int) {
    let v = ints_of(node, "dilations"@);
    let h: i64 = if v.len() >= 1 { v[0] } else { 1 };
    let w: i64 = if v.len() >= 2 { v[1] } else { h };
    (h as usize as int, w as usize as int)
}

/// The conditions under which an `auto_pad` mode can be resolved: non-empty spatial
/// axes and sizes that fit in `usize`.
pub open spec fn auto_pad_fits(x: Seq<usize>, w: Seq<usize>, node: NodeProto) -> bool {
    let (sh, sw) = strides_of(node);
    let (dh, dw) = dilations_of(node);
    same_pad_fits(x[2] as int, w[2] as int, sh, dh) && same_pad_fits(x[3] as int, w[3] as int, sw, dw)
}

/// Padding `(top, left, bottom, right)`: from `auto_pad` where it decides, else the
/// first four entries of `pads` where there are four, else none.
pub open spec fn pads_of(x: Seq<usize>, w: Seq<usize>, node: NodeProto) -> (int, int, int, int) {
    let (sh, sw) = strides_of(node);
    let (dh, dw) = dilations_of(node);
    let p = ints_of(node, "pads"@);
    if uses_auto_pad(node) {
        auto_pads(auto_pad_of(node), x[2] as int, x[3] as int, w[2] as int, w[3] as int, sh, sw, dh, dw)
    } else if p.len() >= 4 {
        (p[0] as usize as int, p[1] as usize as int, p[2] as usize as int, p[3] as usize as int)
    } else {
        (0, 0, 0, 0)
    }
}

/// Output height, then width.
pub open spec fn conv_out_hw(x: Seq<usize>, w: Seq<usize>, node: NodeProto) -> (int, int) {
    let (sh, sw) = strides_of(node);
    let (dh, dw) = dilations_of(node);
    let p = pads_of(x, w, node);
    (out_size(x[2] as int, p.0, p.2, w[2] as int, sh, dh), out_size(x[3] as int, p.1, p.3, w[3] as int, sw, dw))
}

/// Output shape `[batch, out_channels, out_h, out_w]`.
pub open spec fn conv_out_shape(x: Seq<usize>, w: Seq<usize>, node: NodeProto) -> Seq<usize> {
    let (oh, ow) = conv_out_hw(x, w, node);
    seq![x[0], w[0], oh as usize, ow as usize]
}

/// The operand shapes and attributes that a convolution accepts: four-dimensional
/// operands; a positive group count that divides both channel counts, with the
/// weight's channels per group matching; positive strides; a non-empty kernel that
/// fits in the padded input; a bias, if any, of one value per output channel; and
/// sizes that fit in `usize`.
pub open spec fn conv_accepts(x: Seq<usize>, w: Seq<usize>, bias: Option<Seq<usize>>, node: NodeProto) -> bool {
    let g = group_of(node);
    let (sh, sw) = strides_of(node);
    let (dh, dw) = dilations_of(node);
    let p = pads_of(x, w, node);
    let eh = effective_kernel(w[2] as int, dh);
    let ew = effective_kernel(w[3] as int, dw);
    &&& x.len() == 4 && w.len() == 4
    &&& g >= 1 && (x[1] as int) % g == 0 && (w[0] as int) % g == 0 && (x[1] as int) / g == w[1] as int
    &&& sh >= 1 && sw >= 1
    &&& w[2] >= 1 && w[3] >= 1
    &&& eh <= usize::MAX && ew <= usize::MAX
    &&& uses_auto_pad(node) && is_same_mode(auto_pad_of(node)) ==> auto_pad_fits(x, w, node)
    &&& x[2] + p.0 + p.2 <= usize::MAX && x[3] + p.1 + p.3 <= usize::MAX
    &&& x[2] + p.0 + p.2 >= eh && x[3] + p.1 + p.3 >= ew
    &&& (bias matches Some(b) ==> b == seq![w[0]])
    &&& product(conv_out_shape(x, w, node)) <= usize::MAX
}

/// The sizes that a convolution computes fit in `usize`: the effective kernel
/// extents, the sums that "SAME" padding takes, the padded input extents, and the
/// output's element count.
pub open spec fn conv_sizes_fit(x: Seq<usize>, w: Seq<usize>, node: NodeProto) -> bool {
    let (sh, sw) = strides_of(node);
    let (dh, dw) = dilations_of(node);
    let p = pads_of(x, w, node);
    let eh = effective_kernel(w[2] as int, dh);
    let ew = effective_kernel(w[3] as int, dw);
    &&& eh <= usize::MAX && ew <= usize::MAX
    &&& uses_auto_pad(node) && is_same_mode(auto_pad_of(node)) ==> (x[2] + sh <= usize::MAX && x[3]
        + sw <= usize::MAX && x[2] + eh <= usize::MAX && x[3] + ew <= usize::MAX)
    &&& x[2] + p.0 + p.2 <= usize::MAX && x[3] + p.1 + p.3 <= usize::MAX
    &&& product(conv_out_shape(x, w, node)) <= usize::MAX
}

/// The condition under which a convolution reports the error `e`.
pub open spec fn conv_error_cause(e: OpError, x: Seq<usize>, w: Seq<usize>, bias: Option<Seq<usize>>, node: NodeProto) -> bool {
    let g = group_of(node);
    let (sh, sw) = strides_of(node);
    let (dh, dw) = dilations_of(node);
    let p = pads_of(x, w, node);
    match e {
        OpError::InvalidAttribute { name } => (name@ == "group"@ && g == 0) || (name@ == "strides"@
            && (sh == 0 || sw == 0)),
        OpError::ChannelMismatch { in_channels, out_channels, weight_channels, group } => {
            &&& in_channels == x[1] && out_channels == w[0] && weight_channels == w[1] && group == g
            &&& g >= 1
            &&& !((x[1] as int) % g == 0 && (w[0] as int) % g == 0 && (x[1] as int) / g == w[1] as int)
        },
        OpError::InvalidKernel { kernel } => kernel@ == w && (w[2] == 0 || w[3] == 0 || x[2] + p.0
            + p.2 < effective_kernel(w[2] as int, dh) || x[3] + p.1 + p.3 < effective_kernel(
            w[3] as int,
            dw,
        )),
        OpError::EmptyInput { input } => input@ == x && uses_auto_pad(node) && is_same_mode(
            auto_pad_of(node),
        ) && (x[2] == 0 || x[3] == 0),
        OpError::InvalidBias { bias: b, out_channels } => bias == Some(b@) && out_channels == w[0]
            && b@ != seq![w[0]],
        OpError::TooLarge => !conv_sizes_fit(x, w, node),
        _ => false,
    }
}

/// The sizes that the convolution kernel walks over.
pub struct ConvGeometry {
    pub batch: usize,
    pub in_c: usize,
    pub in_h: usize,
    pub in_w: usize,
    pub out_c: usize,
    pub group: usize,
    pub icpg: usize,
    pub ocpg: usize,
    pub k_h: usize,
    pub k_w: usize,
    pub s_h: usize,
    pub s_w: usize,
    pub d_h: usize,
    pub d_w: usize,
    pub pad_top: usize,
    pub pad_left: usize,
    pub padded_h: usize,
    pub padded_w: usize,
    pub out_h: usize,
    pub out_w: usize,
}

impl ConvGeometry {
    /// The sizes agree with input and weight buffers of the given lengths, and every
    /// window position reached stays inside the padded input.
    spec fn fits(&self, x_len: int, w_len: int) -> bool {
        &&& x_len <= usize::MAX && w_len <= usize::MAX
        &&& x_len == ((self.batch as int * self.in_c) * self.in_h) * self.in_w
        &&& w_len == ((self.out_c as int * self.icpg) * self.k_h) * self.k_w
        &&& self.k_h >= 1 && self.k_w >= 1
        &&& self.padded_h <= usize::MAX && self.padded_w <= usize::MAX
        &&& self.out_h >= 1 ==> (self.out_h - 1) * self.s_h + (self.k_h - 1) * self.d_h
            < self.padded_h
        &&& self.out_w >= 1 ==> (self.out_w - 1) * self.s_w + (self.k_w - 1) * self.d_w
            < self.padded_w
    }
}

/// The accumulator after the kernel tap `(ic, ki, kj)` of the output point `site`
/// `(n, ic_base, oc, oh, ow)`: `acc + x * w` where the tap falls inside the input, else
/// `acc` unchanged.
pub open spec fn conv_tap<T, A: ScalarOps<T>>(ops: &A, g: ConvGeometry, xd: Seq<T>, wd: Seq<T>, site: (int, int, int, int, int), ic: int, ki: int, kj: int, acc: T) -> T {
    let (n, ic_base, oc, oh, ow) = site;
    let rh = oh * g.s_h + ki * g.d_h;
    let rw = ow * g.s_w + kj * g.d_w;
    if rh >= g.pad_top && rh - g.pad_top < g.in_h && rw >= g.pad_left && rw - g.pad_left < g.in_w {
        let xi = ((n * g.in_c + ic_base + ic) * g.in_h + (rh - g.pad_top)) * g.in_w + (rw - g.pad_left);
        let wi = ((oc * g.icpg + ic) * g.k_h + ki) * g.k_w + kj;
        ops.sum_spec(acc, ops.mul_spec(xd[xi], wd[wi]))
    } else {
        acc
    }
}

/// The accumulator after the first `j` taps of kernel row `ki` of input channel `ic`.
pub open spec fn conv_row<T, A: ScalarOps<T>>(ops: &A, g: ConvGeometry, xd: Seq<T>, wd: Seq<T>, site: (int, int, int, int, int), ic: int, ki: int, j: int, acc: T) -> T
    decreases j,
{
    if j <= 0 {
        acc
    } else {
        conv_tap(ops, g, xd, wd, site, ic, ki, j - 1, conv_row(ops, g, xd, wd, site, ic, ki, j - 1, acc))
    }
}

/// The accumulator after the first `i` kernel rows of input channel `ic`.
pub open spec fn conv_channel<T, A: ScalarOps<T>>(ops: &A, g: ConvGeometry, xd: Seq<T>, wd: Seq<T>, site: (int, int, int, int, int), ic: int, i: int, acc: T) -> T
    decreases i,
{
    if i <= 0 {
        acc
    } else {
        conv_row(ops, g, xd, wd, site, ic, i - 1, g.k_w as int, conv_channel(ops, g, xd, wd, site, ic, i - 1, acc))
    }
}

/// The sum over the first `c` input channels of the group, from zero, in loop order.
pub open spec fn conv_sum<T, A: ScalarOps<T>>(ops: &A, g: ConvGeometry, xd: Seq<T>, wd: Seq<T>, site: (int, int, int, int, int), c: int) -> T
    decreases c,
{
    if c <= 0 {
        ops.zero_spec()
    } else {
        conv_channel(ops, g, xd, wd, site, c - 1, g.k_h as int, conv_sum(ops, g, xd, wd, site, c - 1))
    }
}

/// Output value `(n, oc, oh, ow)`: the sum for that point over the input channels of
/// the output channel's group, plus the channel's bias where there is one.
pub open spec fn conv_output<T, A: ScalarOps<T>>(ops: &A, g: ConvGeometry, xd: Seq<T>, wd: Seq<T>, bias: Option<Seq<T>>, n: int, oc: int, oh: int, ow: int) -> T {
    let grp = oc / (g.ocpg as int);
    let v = conv_sum(ops, g, xd, wd, (n, grp * g.icpg, oc, oh, ow), g.icpg as int);
    match bias {
        Some(b) => ops.sum_spec(v, b[oc]),
        None => v,
    }
}

/// Row-major position of output `(n, oc, oh, ow)`.
pub open spec fn flat_index(g: ConvGeometry, n: int, oc: int, oh: int, ow: int) -> int {
    ((n * g.out_c + oc) * g.out_h + oh) * g.out_w + ow
}

/// Output element `j` in row-major order over batch, output channel, row, column.
pub open spec fn conv_output_at<T, A: ScalarOps<T>>(ops: &A, g: ConvGeometry, xd: Seq<T>, wd: Seq<T>, bias: Option<Seq<T>>, j: int) -> T {
    let plane = g.out_h as int * g.out_w as int;
    conv_output(ops, g, xd, wd, bias, j / (g.out_c as int * plane), (j / plane) % (g.out_c as int), (j / (g.out_w as int)) % (g.out_h as int), j % (g.out_w as int))
}

/// Every element of `out` is the output element at its position.
pub open spec fn assembled<T, A: ScalarOps<T>>(ops: &A, g: ConvGeometry, xd: Seq<T>, wd: Seq<T>, bias: Option<Seq<T>>, out: Seq<T>) -> bool {
    forall|j: int| 0 <= j < out.len() ==> out[j] == conv_output_at(ops, g, xd, wd, bias, j)
}

proof fn lemma_flat_decode(g: ConvGeometry, n: int, oc: int, oh: int, ow: int)
    requires
        0 <= n,
        0 <= oc < g.out_c,
        0 <= oh < g.out_h,
        0 <= ow < g.out_w,
    ensures
        ({
            let j = flat_index(g, n, oc, oh, ow);
            let plane = g.out_h as int * g.out_w as int;
            &&& j / (g.out_c as int * plane) == n
            &&& (j / plane) % (g.out_c as int) == oc
            &&& (j / (g.out_w as int)) % (g.out_h as int) == oh
            &&& j % (g.out_w as int) == ow
        }),
{
    let j = flat_index(g, n, oc, oh, ow);
    let (cc, hh, ww) = (g.out_c as int, g.out_h as int, g.out_w as int);
    let plane = hh * ww;
    lemma_fundamental_div_mod_converse(j, ww, (n * cc + oc) * hh + oh, ow);
    lemma_fundamental_div_mod_converse((n * cc + oc) * hh + oh, hh, n * cc + oc, oh);
    assert(0 <= oh * ww + ow < plane && j == (n * cc + oc) * plane + (oh * ww + ow)) by (nonlinear_arith)
        requires 0 <= oh < hh, 0 <= ow < ww, plane == hh * ww, j == ((n * cc + oc) * hh + oh) * ww + ow;
    lemma_fundamental_div_mod_converse(j, plane, n * cc + oc, oh * ww + ow);
    lemma_fundamental_div_mod_converse(n * cc + oc, cc, n, oc);
    assert(0 <= (oc * hh + oh) * ww + ow < cc * plane && j == n * (cc * plane) + ((oc * hh + oh) * ww + ow)) by (nonlinear_arith)
        requires 0 <= oc < cc, 0 <= oh < hh, 0 <= ow < ww, plane == hh * ww, j == ((n * cc + oc) * hh + oh) * ww + ow;
    lemma_fundamental_div_mod_converse(j, cc * plane, n, (oc * hh + oh) * ww + ow);
}

proof fn lemma_flat_next(g: ConvGeometry, n: int, oc: int, oh: int, ow: int)
    ensures
        flat_index(g, n, oc, oh, ow) + 1 == flat_index(g, n, oc, oh, ow + 1),
{
}

proof fn lemma_flat_row(g: ConvGeometry, n: int, oc: int, oh: int)
    ensures
        flat_index(g, n, oc, oh, g.out_w as int) == flat_index(g, n, oc, oh + 1, 0),
{
    assert(flat_index(g, n, oc, oh, g.out_w as int) == flat_index(g, n, oc, oh + 1, 0)) by (nonlinear_arith);
}

proof fn lemma_flat_channel(g: ConvGeometry, n: int, oc: int)
    ensures
        flat_index(g, n, oc, g.out_h as int, 0) == flat_index(g, n, oc + 1, 0, 0),
{
    assert(flat_index(g, n, oc, g.out_h as int, 0) == flat_index(g, n, oc + 1, 0, 0)) by (nonlinear_arith);
}

/// One output value: the sum, over the input channels of the group and the kernel
/// taps, of input times weight, where taps that fall on padding are skipped.
fn conv_point<T: Copy, A: ScalarOps<T>>(
    ops: &A,
    geo: &ConvGeometry,
    xd: &[T],
    wd: &[T],
    n: usize,
    ic_base: usize,
    oc: usize,
    oh: usize,
    ow: usize,
) -> (r: T)
    requires
        geo.fits(xd@.len() as int, wd@.len() as int),
        n < geo.batch,
        ic_base + geo.icpg <= geo.in_c,
        oc < geo.out_c,
        oh < geo.out_h,
        ow < geo.out_w,
    ensures
        r == conv_sum(ops, *geo, xd@, wd@, (n as int, ic_base as int, oc as int, oh as int, ow as int), geo.icpg as int),
{
    let ghost site = (n as int, ic_base as int, oc as int, oh as int, ow as int);
    let mut acc = ops.zero();
    proof {
        lemma_mul_le(oh as int, (geo.out_h - 1) as int, geo.s_h as int);
        lemma_mul_le(ow as int, (geo.out_w - 1) as int, geo.s_w as int);
    }
    let mut ic: usize = 0;
    while ic < geo.icpg
        invariant
            geo.fits(xd@.len() as int, wd@.len() as int),
            n < geo.batch,
            ic_base + geo.icpg <= geo.in_c,
            oc < geo.out_c,
            oh < geo.out_h,
            ow < geo.out_w,
            oh * geo.s_h + (geo.k_h - 1) * geo.d_h < geo.padded_h,
            ow * geo.s_w + (geo.k_w - 1) * geo.d_w < geo.padded_w,
            site == (n as int, ic_base as int, oc as int, oh as int, ow as int),
            acc == conv_sum(ops, *geo, xd@, wd@, site, ic as int),
            ic <= geo.icpg,
        decreases geo.icpg - ic,
    {
        let ghost start = acc;
        let mut ki: usize = 0;
        while ki < geo.k_h
            invariant
                geo.fits(xd@.len() as int, wd@.len() as int),
                n < geo.batch,
                ic_base + geo.icpg <= geo.in_c,
                ic < geo.icpg,
                oc < geo.out_c,
                oh < geo.out_h,
                ow < geo.out_w,
                oh * geo.s_h + (geo.k_h - 1) * geo.d_h < geo.padded_h,
                ow * geo.s_w + (geo.k_w - 1) * geo.d_w < geo.padded_w,
                site == (n as int, ic_base as int, oc as int, oh as int, ow as int),
                start == conv_sum(ops, *geo, xd@, wd@, site, ic as int),
                acc == conv_channel(ops, *geo, xd@, wd@, site, ic as int, ki as int, start),
                ki <= geo.k_h,
            decreases geo.k_h - ki,
        {
            let ghost row_start = acc;
            proof { lemma_mul_le(ki as int, (geo.k_h - 1) as int, geo.d_h as int); }
            let rh = oh * geo.s_h + ki * geo.d_h;
            let mut kj: usize = 0;
            while kj < geo.k_w
                invariant
                    geo.fits(xd@.len() as int, wd@.len() as int),
                    n < geo.batch,
                    ic_base + geo.icpg <= geo.in_c,
                    ic < geo.icpg,
                    ki < geo.k_h,
                    oc < geo.out_c,
                    oh < geo.out_h,
                    ow < geo.out_w,
                    rh < geo.padded_h,
                    rh == oh * geo.s_h + ki * geo.d_h,
                    ow * geo.s_w + (geo.k_w - 1) * geo.d_w < geo.padded_w,
                    site == (n as int, ic_base as int, oc as int, oh as int, ow as int),
                    start == conv_sum(ops, *geo, xd@, wd@, site, ic as int),
                    row_start == conv_channel(ops, *geo, xd@, wd@, site, ic as int, ki as int, start),
                    acc == conv_row(ops, *geo, xd@, wd@, site, ic as int, ki as int, kj as int, row_start),
                    kj <= geo.k_w,
                decreases geo.k_w - kj,
            {
                proof { lemma_mul_le(kj as int, (geo.k_w - 1) as int, geo.d_w as int); }
                let rw = ow * geo.s_w + kj * geo.d_w;
                if rh >= geo.pad_top && rh - geo.pad_top < geo.in_h && rw >= geo.pad_left && rw
                    - geo.pad_left < geo.in_w {
                    let xi = offset4(
                        n,
                        ic_base + ic,
                        rh - geo.pad_top,
                        rw - geo.pad_left,
                        geo.batch,
                        geo.in_c,
                        geo.in_h,
                        geo.in_w,
                    );
                    let wi = offset4(oc, ic, ki, kj, geo.out_c, geo.icpg, geo.k_h, geo.k_w);
                    acc = ops.sum(acc, ops.mul(xd[xi], wd[wi]));
                }
                kj = kj + 1;
            }
            ki = ki + 1;
        }
        ic = ic + 1;
    }
    acc
}

impl Conv {
    /// The `i` field of the first attribute called `name`, or `default` where none is.
    pub fn get_int_attr(node: &NodeProto, name: &str, default: i64) -> (r: i64)
        ensures
            r == match named_attr(node.attribute@, name@) {
                Some(a) => a.i,
                None => default,
            },
    {
        match find_attribute(node, name) {
            Some(i) => node.attribute[i].i,
            None => default,
        }
    }

    /// The `ints` field of the first attribute called `name`, or an empty list.
    pub fn get_ints_attr(node: &NodeProto, name: &str) -> (r: Vec<i64>)
        ensures
            r@ == match named_attr(node.attribute@, name@) {
                Some(a) => a.ints@,
                None => Seq::<i64>::empty(),
            },
    {
        match find_attribute(node, name) {
            Some(i) => copy_slice(node.attribute[i].ints.as_slice()),
            None => Vec::new(),
        }
    }

    /// The `s` field of the first attribute called `name` read as UTF-8 text, or the
    /// empty string.
    pub fn get_string_attr(node: &NodeProto, name: &str) -> (r: String)
        ensures
            r@ == match named_attr(node.attribute@, name@) {
                Some(a) => utf8_lossy(a.s@),
                None => Seq::<char>::empty(),
            },
    {
        match find_attribute(node, name) {
            Some(i) => text_of(node.attribute[i].s.as_slice()),
            None => String::new(),
        }
    }

    /// Padding `(top, left, bottom, right)` for an `auto_pad` mode.
    pub fn compute_auto_pad(
        auto_pad: &str,
        input_h: usize,
        input_w: usize,
        kernel_h: usize,
        kernel_w: usize,
        stride_h: usize,
        stride_w: usize,
        dilation_h: usize,
        dilation_w: usize,
    ) -> (r: (usize, usize, usize, usize))
        requires
            is_same_mode(auto_pad@) ==> same_pad_fits(input_h as int, kernel_h as int, stride_h as int, dilation_h as int),
            is_same_mode(auto_pad@) ==> same_pad_fits(input_w as int, kernel_w as int, stride_w as int, dilation_w as int),
        ensures
            (r.0 as int, r.1 as int, r.2 as int, r.3 as int) == auto_pads(
                auto_pad@,
                input_h as int,
                input_w as int,
                kernel_h as int,
                kernel_w as int,
                stride_h as int,
                stride_w as int,
                dilation_h as int,
                dilation_w as int,
            ),
    {
        let mode = String::from_str(auto_pad);
        let upper = String::from_str("SAME_UPPER");
        let lower = String::from_str("SAME_LOWER");
        proof {
            reveal_strlit("SAME_UPPER");
            reveal_strlit("SAME_LOWER");
        }
        if mode == upper || mode == lower {
            let pad_h = same_pad_axis(input_h, kernel_h, stride_h, dilation_h);
            let pad_w = same_pad_axis(input_w, kernel_w, stride_w, dilation_w);
            if mode == upper {
                (pad_h / 2, pad_w / 2, pad_h - pad_h / 2, pad_w - pad_w / 2)
            } else {
                (pad_h - pad_h / 2, pad_w - pad_w / 2, pad_h / 2, pad_w / 2)
            }
        } else {
            (0, 0, 0, 0)
        }
    }
}

/// The bias values that a convolution adds: those of the third input, where there is one.
pub open spec fn bias_values<T>(inputs: Seq<&Tensor<T>>) -> Option<Seq<T>> {
    if inputs.len() >= 3 {
        Some(inputs[2].elems())
    } else {
        None
    }
}

/// The bias shape that a convolution sees: that of the third input, where there is one.
pub open spec fn bias_dims<T>(inputs: Seq<&Tensor<T>>) -> Option<Seq<usize>> {
    if inputs.len() >= 3 {
        Some(inputs[2].dims())
    } else {
        None
    }
}

impl ConvGeometry {
    /// The geometry that the spec functions give for these operands.
    pub open spec fn describes(&self, x: Seq<usize>, w: Seq<usize>, node: NodeProto) -> bool {
        let (sh, sw) = strides_of(node);
        let (dh, dw) = dilations_of(node);
        let p = pads_of(x, w, node);
        let (oh, ow) = conv_out_hw(x, w, node);
        &&& self.batch == x[0] && self.in_c == x[1] && self.in_h == x[2] && self.in_w == x[3]
        &&& self.out_c == w[0] && self.icpg == w[1] && self.k_h == w[2] && self.k_w == w[3]
        &&& self.group == group_of(node) && self.group >= 1
        &&& self.in_c == self.group * self.icpg && self.out_c == self.group * self.ocpg
        &&& self.s_h == sh && self.s_w == sw && self.d_h == dh && self.d_w == dw
        &&& self.pad_top == p.0 && self.pad_left == p.1
        &&& self.padded_h == x[2] + p.0 + p.2 && self.padded_w == x[3] + p.1 + p.3
        &&& self.out_h == oh && self.out_w == ow
        &&& self.k_h >= 1 && self.k_w >= 1
        &&& self.out_h >= 1 && self.out_w >= 1
        &&& (self.out_h - 1) * self.s_h + (self.k_h - 1) * self.d_h < self.padded_h
        &&& (self.out_w - 1) * self.s_w + (self.k_w - 1) * self.d_w < self.padded_w
    }
}

/// Output length and window bound along one axis.
fn axis_out(padded: usize, eff: usize, s: usize) -> (r: usize)
    requires
        s >= 1,
        eff >= 1,
        padded >= eff,
    ensures
        r as int == (padded - eff) / (s as int) + 1,
        r >= 1,
        (r - 1) * s + eff - 1 < padded,
{
    proof { lemma_div_mul_le((padded - eff) as int, s as int); }
    (padded - eff) / s + 1
}

/// Resolves the attributes of a convolution against its operand shapes.
#[verifier::rlimit(50)]
fn conv_plan(xs: &[usize], ws: &[usize], bias: Option<&[usize]>, node: &NodeProto) -> (r: Result<ConvGeometry, OpError>)
    requires
        xs@.len() == 4,
        ws@.len() == 4,
    ensures
        r is Ok <==> conv_accepts(xs@, ws@, match bias { Some(b) => Some(b@), None => None }, *node),
        r matches Ok(g) ==> g.describes(xs@, ws@, *node),
        r matches Err(e) ==> conv_error_cause(e, xs@, ws@, match bias { Some(b) => Some(b@), None => None }, *node),
{
    let in_c = xs[1];
    let in_h = xs[2];
    let in_w = xs[3];
    let out_c = ws[0];
    let icpg = ws[1];
    let k_h = ws[2];
    let k_w = ws[3];

    let group = Conv::get_int_attr(node, "group", 1) as usize;
    let strides = Conv::get_ints_attr(node, "strides");
    let dilations = Conv::get_ints_attr(node, "dilations");
    let pads = Conv::get_ints_attr(node, "pads");
    let auto_pad = Conv::get_string_attr(node, "auto_pad");
    assert(group as int == group_of(*node));

    if group == 0 {
        proof { reveal_strlit("group"); }
        return Err(OpError::InvalidAttribute { name: String::from_str("group") });
    }
    if in_c % group != 0 || out_c % group != 0 || in_c / group != icpg {
        return Err(OpError::ChannelMismatch { in_channels: in_c, out_channels: out_c, weight_channels: icpg, group });
    }
    let s_h_attr: i64 = if strides.len() >= 1 { strides[0] } else { 1 };
    let s_w_attr: i64 = if strides.len() >= 2 { strides[1] } else { s_h_attr };
    let s_h = s_h_attr as usize;
    let s_w = s_w_attr as usize;
    assert((s_h as int, s_w as int) == strides_of(*node));
    if s_h == 0 || s_w == 0 {
        proof {
            reveal_strlit("strides");
            reveal_strlit("group");
        }
        return Err(OpError::InvalidAttribute { name: String::from_str("strides") });
    }
    let d_h_attr: i64 = if dilations.len() >= 1 { dilations[0] } else { 1 };
    let d_w_attr: i64 = if dilations.len() >= 2 { dilations[1] } else { d_h_attr };
    let d_h = d_h_attr as usize;
    let d_w = d_w_attr as usize;
    assert((d_h as int, d_w as int) == dilations_of(*node));
    if k_h == 0 || k_w == 0 {
        return Err(OpError::InvalidKernel { kernel: copy_slice(ws) });
    }
    let eff_h = match (k_h - 1).checked_mul(d_h) {
        Some(m) if m < usize::MAX => m + 1,
        _ => {
            return Err(OpError::TooLarge);
        },
    };
    let eff_w = match (k_w - 1).checked_mul(d_w) {
        Some(m) if m < usize::MAX => m + 1,
        _ => {
            return Err(OpError::TooLarge);
        },
    };
    assert(eff_h as int == effective_kernel(k_h as int, d_h as int));
    assert(eff_w as int == effective_kernel(k_w as int, d_w as int));

    let empty = String::new();
    let notset = String::from_str("NOTSET");
    proof {
        reveal_strlit("NOTSET");
        if auto_pad@.len() == 0 {
            assert(auto_pad@ =~= empty@);
        }
    }
    let auto = !(auto_pad == empty) && !(auto_pad == notset);
    assert(auto == uses_auto_pad(*node));
    let pad_top: usize;
    let pad_left: usize;
    let pad_bottom: usize;
    let pad_right: usize;
    if auto {
        let upper = String::from_str("SAME_UPPER");
        let lower = String::from_str("SAME_LOWER");
        proof {
            reveal_strlit("SAME_UPPER");
            reveal_strlit("SAME_LOWER");
        }
        if auto_pad == upper || auto_pad == lower {
            if in_h == 0 || in_w == 0 {
                return Err(OpError::EmptyInput { input: copy_slice(xs) });
            }
            if in_h > usize::MAX - s_h || in_w > usize::MAX - s_w || in_h > usize::MAX - eff_h
                || in_w > usize::MAX - eff_w {
                return Err(OpError::TooLarge);
            }
        }
        let p = Conv::compute_auto_pad(auto_pad.as_str(), in_h, in_w, k_h, k_w, s_h, s_w, d_h, d_w);
        pad_top = p.0;
        pad_left = p.1;
        pad_bottom = p.2;
        pad_right = p.3;
    } else if pads.len() >= 4 {
        pad_top = pads[0] as usize;
        pad_left = pads[1] as usize;
        pad_bottom = pads[2] as usize;
        pad_right = pads[3] as usize;
    } else {
        pad_top = 0;
        pad_left = 0;
        pad_bottom = 0;
        pad_right = 0;
    }
    assert((pad_top as int, pad_left as int, pad_bottom as int, pad_right as int) == pads_of(xs@, ws@, *node));
    if in_h > usize::MAX - pad_top || in_h + pad_top > usize::MAX - pad_bottom || in_w > usize::MAX
        - pad_left || in_w + pad_left > usize::MAX - pad_right {
        return Err(OpError::TooLarge);
    }
    let padded_h = in_h + pad_top + pad_bottom;
    let padded_w = in_w + pad_left + pad_right;
    if padded_h < eff_h || padded_w < eff_w {
        return Err(OpError::InvalidKernel { kernel: copy_slice(ws) });
    }
    let out_h = axis_out(padded_h, eff_h, s_h);
    let out_w = axis_out(padded_w, eff_w, s_w);
    assert((out_h as int, out_w as int) == conv_out_hw(xs@, ws@, *node));

    match bias {
        Some(bs) => {
            if bs.len() != 1 || bs[0] != out_c {
                return Err(OpError::InvalidBias { bias: copy_slice(bs), out_channels: out_c });
            }
            assert(bs@ =~= seq![ws@[0]]);
        },
        None => {},
    }
    let out_shape: Vec<usize> = vec![xs[0], out_c, out_h, out_w];
    assert(out_shape@ =~= conv_out_shape(xs@, ws@, *node));
    if element_count(out_shape.as_slice()).is_none() {
        return Err(OpError::TooLarge);
    }
    proof {
        lemma_fundamental_div_mod(in_c as int, group as int);
        lemma_fundamental_div_mod(out_c as int, group as int);
    }
    Ok(ConvGeometry {
        batch: xs[0],
        in_c,
        in_h,
        in_w,
        out_c,
        group,
        icpg,
        ocpg: out_c / group,
        k_h,
        k_w,
        s_h,
        s_w,
        d_h,
        d_w,
        pad_top,
        pad_left,
        padded_h,
        padded_w,
        out_h,
        out_w,
    })
}

/// The operands and attributes determine the geometry.
pub proof fn lemma_geometry_unique(a: ConvGeometry, b: ConvGeometry, x: Seq<usize>, w: Seq<usize>, node: NodeProto)
    requires
        a.describes(x, w, node),
        b.describes(x, w, node),
    ensures
        a == b,
{
    assert(a.ocpg == b.ocpg) by (nonlinear_arith)
        requires a.group == b.group, a.group >= 1, a.out_c == b.out_c, a.out_c == a.group * a.ocpg,
            b.out_c == b.group * b.ocpg;
}

/// A convolution whose node asks for "SAME" padding with unit strides keeps the
/// height and width of a square input.
pub proof fn lemma_conv_same_keeps_size(x: Seq<usize>, w: Seq<usize>, node: NodeProto)
    requires
        x.len() == 4,
        w.len() == 4,
        is_same_mode(auto_pad_of(node)),
        strides_of(node) == (1int, 1int),
        dilations_of(node).0 == dilations_of(node).1,
        x[2] == x[3],
        x[2] >= 1,
        w[2] == w[3],
        w[2] >= 1,
    ensures
        conv_out_hw(x, w, node) == (x[2] as int, x[3] as int),
{
    reveal_strlit("NOTSET");
    reveal_strlit("SAME_UPPER");
    reveal_strlit("SAME_LOWER");
    assert(auto_pad_of(node)[5] != "NOTSET"@[5]);
    assert(auto_pad_of(node).len() > 0);
    assert(uses_auto_pad(node));
    let d = dilations_of(node).0;
    assert(pads_of(x, w, node) == auto_pads(auto_pad_of(node), x[2] as int, x[3] as int, w[2] as int, w[3] as int, 1, 1, d, d));
    lemma_same_padding_keeps_size(auto_pad_of(node), x[2] as int, w[2] as int, d);
}

/// `(g + 1) * per <= total` for a group `g` of `groups` equal blocks of `per`.
proof fn lemma_group_block(g: int, groups: int, per: int, total: int)
    requires
        0 <= g < groups,
        per >= 0,
        total == groups * per,
    ensures
        g * per + per <= total,
{
    assert(g * per + per <= total) by (nonlinear_arith)
        requires 0 <= g < groups, per >= 0, total == groups * per;
}

impl Conv {
    /// Convolves the first input (batch, channels, height, width) with the second
    /// (output channels, channels per group, kernel height, kernel width), adding
    /// the optional third input as a per-output-channel bias.
    pub fn run<T: Copy, A: ScalarOps<T>>(&self, ops: &A, inputs: &[&Tensor<T>], node: &NodeProto) -> (r: Result<Tensor<T>, OpError>)
        ensures
            inputs@.len() < 2 ==> r == Err::<Tensor<T>, OpError>(
                OpError::MissingOperand { needed: 2, got: inputs@.len() as usize },
            ),
            inputs@.len() >= 2 ==> ({
                let x = inputs@[0].dims();
                let w = inputs@[1].dims();
                &&& (x.len() != 4 || w.len() != 4) ==> (r matches Err(e)
                    && e matches OpError::NotFourDimensional { input, weight }
                    && input@ == x && weight@ == w)
                &&& r is Ok <==> conv_accepts(x, w, bias_dims(inputs@), *node)
                &&& r matches Ok(t) ==> t.dims() == conv_out_shape(x, w, *node)
                &&& r matches Ok(t) ==> exists|g: ConvGeometry| #[trigger] g.describes(x, w, *node)
                    && t.elems().len() == product(conv_out_shape(x, w, *node))
                    && assembled(ops, g, inputs@[0].elems(), inputs@[1].elems(), bias_values(inputs@), t.elems())
                &&& (x.len() == 4 && w.len() == 4) ==> (r matches Err(e) ==> conv_error_cause(e, x, w, bias_dims(inputs@), *node))
            }),
    {
        if inputs.len() < 2 {
            return Err(OpError::MissingOperand { needed: 2, got: inputs.len() });
        }
        let x = inputs[0];
        let w = inputs[1];
        let xs = x.shape();
        let ws = w.shape();
        if xs.len() != 4 || ws.len() != 4 {
            return Err(OpError::NotFourDimensional { input: copy_slice(xs), weight: copy_slice(ws) });
        }
        let bias: Option<&Tensor<T>> = if inputs.len() >= 3 { Some(inputs[2]) } else { None };
        let bias_shape: Option<&[usize]> = match bias {
            Some(b) => Some(b.shape()),
            None => None,
        };
        let geo = match conv_plan(xs, ws, bias_shape, node) {
            Ok(g) => g,
            Err(e) => {
                return Err(e);
            },
        };
        let xd = x.data();
        let wd = w.data();
        proof {
            lemma_product4(x.dims());
            lemma_product4(w.dims());
        }
        let out_shape: Vec<usize> = vec![geo.batch, geo.out_c, geo.out_h, geo.out_w];
        assert(out_shape@ =~= conv_out_shape(x.dims(), w.dims(), *node));
        proof { lemma_product4(out_shape@); }
        let total = match element_count(out_shape.as_slice()) {
            Some(t) => t,
            None => {
                return Err(OpError::TooLarge);
            },
        };
        let ghost mut bias_vals: Option<Seq<T>> = None;
        let bd: &[T] = match bias {
            Some(b) => {
                proof { bias_vals = Some(b.elems()); }
                b.data()
            },
            None => xd,
        };
        proof {
            if bias is Some {
                let b = bias_dims(inputs@)->Some_0;
                assert(b == seq![geo.out_c]);
                assert(b.drop_last().len() == 0);
                assert(product(b.drop_last()) == 1);
                assert(b.last() == b[0]);
                assert(product(b) == product(b.drop_last()) * (b.last() as nat));
                assert(product(b) == b[0] as nat);
            }
        }
        let x_len = xd.len();
        let w_len = wd.len();
        assert(geo.fits(x_len as int, w_len as int));
        let mut out: Vec<T> = Vec::with_capacity(total);
        assert(flat_index(geo, 0, 0, 0, 0) == 0) by (nonlinear_arith);
        let mut n: usize = 0;
        while n < geo.batch
            invariant
                geo.fits(xd@.len() as int, wd@.len() as int),
                geo.describes(x.dims(), w.dims(), *node),
                total as int == ((geo.batch as int * geo.out_c) * geo.out_h) * geo.out_w,
                xd@ == x.elems(),
                wd@ == w.elems(),
                bias is Some ==> bd@.len() == geo.out_c && bias_vals == Some(bd@),
                bias is None ==> bias_vals is None,
                assembled(ops, geo, xd@, wd@, bias_vals, out@),
                n <= geo.batch,
                out@.len() == flat_index(geo, n as int, 0, 0, 0),
            decreases geo.batch - n,
        {
            let mut g: usize = 0;
            while g < geo.group
                invariant
                    geo.fits(xd@.len() as int, wd@.len() as int),
                    geo.describes(x.dims(), w.dims(), *node),
                    total as int == ((geo.batch as int * geo.out_c) * geo.out_h) * geo.out_w,
                    xd@ == x.elems(),
                    wd@ == w.elems(),
                    bias is Some ==> bd@.len() == geo.out_c && bias_vals == Some(bd@),
                    bias is None ==> bias_vals is None,
                    assembled(ops, geo, xd@, wd@, bias_vals, out@),
                    n < geo.batch,
                    g <= geo.group,
                    out@.len() == flat_index(geo, n as int, (g * geo.ocpg) as int, 0, 0),
                decreases geo.group - g,
            {
                proof {
                    lemma_group_block(g as int, geo.group as int, geo.icpg as int, geo.in_c as int);
                    lemma_group_block(g as int, geo.group as int, geo.ocpg as int, geo.out_c as int);
                }
                let ic_base = g * geo.icpg;
                let oc_base = g * geo.ocpg;
                let mut oc: usize = 0;
                while oc < geo.ocpg
                    invariant
                        geo.fits(xd@.len() as int, wd@.len() as int),
                        geo.describes(x.dims(), w.dims(), *node),
                        total as int == ((geo.batch as int * geo.out_c) * geo.out_h) * geo.out_w,
                        xd@ == x.elems(),
                        wd@ == w.elems(),
                        bias is Some ==> bd@.len() == geo.out_c && bias_vals == Some(bd@),
                        bias is None ==> bias_vals is None,
                        assembled(ops, geo, xd@, wd@, bias_vals, out@),
                        n < geo.batch,
                        g < geo.group,
                        ic_base == g * geo.icpg,
                        oc_base == g * geo.ocpg,
                        ic_base + geo.icpg <= geo.in_c,
                        oc_base + geo.ocpg <= geo.out_c,
                        oc <= geo.ocpg,
                        out@.len() == flat_index(geo, n as int, (oc_base + oc) as int, 0, 0),
                    decreases geo.ocpg - oc,
                {
                    let abs_oc = oc_base + oc;
                    proof {
                        lemma_fundamental_div_mod_converse(abs_oc as int, geo.ocpg as int, g as int, oc as int);
                    }
                    let mut oh: usize = 0;
                    while oh < geo.out_h
                        invariant
                            geo.fits(xd@.len() as int, wd@.len() as int),
                            geo.describes(x.dims(), w.dims(), *node),
                            total as int == ((geo.batch as int * geo.out_c) * geo.out_h) * geo.out_w,
                            xd@ == x.elems(),
                            wd@ == w.elems(),
                            bias is Some ==> bd@.len() == geo.out_c && bias_vals == Some(bd@),
                            bias is None ==> bias_vals is None,
                            assembled(ops, geo, xd@, wd@, bias_vals, out@),
                            n < geo.batch,
                            ic_base + geo.icpg <= geo.in_c,
                            abs_oc < geo.out_c,
                            ic_base as int == (abs_oc as int / geo.ocpg as int) * geo.icpg,
                            oh <= geo.out_h,
                            out@.len() == flat_index(geo, n as int, abs_oc as int, oh as int, 0),
                        decreases geo.out_h - oh,
                    {
                        let mut ow: usize = 0;
                        while ow < geo.out_w
                            invariant
                                geo.fits(xd@.len() as int, wd@.len() as int),
                                geo.describes(x.dims(), w.dims(), *node),
                                total as int == ((geo.batch as int * geo.out_c) * geo.out_h) * geo.out_w,
                                xd@ == x.elems(),
                                wd@ == w.elems(),
                                bias is Some ==> bd@.len() == geo.out_c && bias_vals == Some(bd@),
                                bias is None ==> bias_vals is None,
                                assembled(ops, geo, xd@, wd@, bias_vals, out@),
                                n < geo.batch,
                                ic_base + geo.icpg <= geo.in_c,
                                abs_oc < geo.out_c,
                                ic_base as int == (abs_oc as int / geo.ocpg as int) * geo.icpg,
                                oh < geo.out_h,
                                ow <= geo.out_w,
                                out@.len() == flat_index(geo, n as int, abs_oc as int, oh as int, ow as int),
                            decreases geo.out_w - ow,
                        {
                            let mut v = conv_point(ops, &geo, xd, wd, n, ic_base, abs_oc, oh, ow);
                            if bias.is_some() {
                                v = ops.sum(v, bd[abs_oc]);
                            }
                            proof {
                                lemma_flat_decode(geo, n as int, abs_oc as int, oh as int, ow as int);
                            }
                            let ghost before = out@;
                            out.push(v);
                            proof {
                                assert forall|j: int| 0 <= j < out@.len() implies out@[j] == conv_output_at(ops, geo, xd@, wd@, bias_vals, j) by {
                                    if j < before.len() {
                                        assert(out@[j] == before[j]);
                                    }
                                }
                                lemma_flat_next(geo, n as int, abs_oc as int, oh as int, ow as int);
                            }
                            ow = ow + 1;
                        }
                        proof { lemma_flat_row(geo, n as int, abs_oc as int, oh as int); }
                        oh = oh + 1;
                    }
                    proof { lemma_flat_channel(geo, n as int, abs_oc as int); }
                    oc = oc + 1;
                }
                proof {
                    assert(oc_base + geo.ocpg == (g + 1) * geo.ocpg) by (nonlinear_arith)
                        requires oc_base == g * geo.ocpg;
                }
                g = g + 1;
            }
            proof {
                assert(g * geo.ocpg == geo.out_c);
                lemma_flat_channel(geo, n as int, geo.out_c as int - 1);
                assert(flat_index(geo, n as int, geo.out_c as int, 0, 0) == flat_index(geo, n as int + 1, 0, 0, 0)) by (nonlinear_arith);
            }
            n = n + 1;
        }
        proof {
            assert(flat_index(geo, geo.batch as int, 0, 0, 0) == total) by (nonlinear_arith)
                requires total as int == ((geo.batch as int * geo.out_c) * geo.out_h) * geo.out_w;
        }
        assert(bias_vals == bias_values(inputs@));
        match Tensor::new(out, out_shape) {
            Ok(t) => Ok(t),
            Err(_) => Err(OpError::TooLarge),
        }
    }
}

} // verus!
