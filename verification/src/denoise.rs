use vstd::prelude::*;
use vstd::relations::{sorted_by, total_ordering};
use vstd::arithmetic::div_mod::lemma_fundamental_div_mod_converse;

verus! {

broadcast use vstd::seq_lib::group_to_multiset_ensures;

/// Settings of the optional median denoising pass.
#[derive(Debug, Clone)]
pub struct DenoiseConfig {
    pub enabled: bool,
    pub radius: u32,
}

impl DenoiseConfig {
    /// A configuration that leaves images untouched.
    pub fn disabled() -> (cfg: Self)
        ensures
            !cfg.enabled,
            cfg.radius == 0,
    {
        Self { enabled: false, radius: 0 }
    }

    /// A configuration that applies a median filter of the given radius.
    pub fn median(radius: u32) -> (cfg: Self)
        ensures
            cfg.enabled,
            cfg.radius == radius,
    {
        Self { enabled: true, radius }
    }
}

/// The ascending order on channel values.
pub open spec fn ascending() -> spec_fn(u16, u16) -> bool {
    |a: u16, b: u16| a <= b
}

/// The middle element (index `len / 2`) of the values of `s` in ascending order.
pub open spec fn median(s: Seq<u16>) -> u16 {
    s.sort_by(ascending())[(s.len() / 2) as int]
}

/// `v` moved into `[0, size - 1]`.
pub open spec fn clamp_coord(v: int, size: int) -> int {
    if v < 0 {
        0
    } else if v > size - 1 {
        size - 1
    } else {
        v
    }
}

/// Number of pixels on a side of the square window of the given radius.
pub open spec fn window_side(radius: int) -> int {
    2 * radius + 1
}

/// Channel `c` of the pixels in the square window of the given radius around `(x, y)`,
/// row by row from the top, each row from the left; a coordinate that falls outside the
/// image is moved to the nearest border pixel. Pixels are stored row by row, `width` per row.
pub open spec fn window_channel(
    data: Seq<[u16; 3]>,
    width: int,
    height: int,
    radius: int,
    x: int,
    y: int,
    c: int,
) -> Seq<u16> {
    let side = window_side(radius);
    Seq::new(
        (side * side) as nat,
        |k: int|
            data[clamp_coord(y + k / side - radius, height) * width + clamp_coord(
                x + k % side - radius,
                width,
            )][c],
    )
}

/// Channel `c` of pixel `p` after median filtering `data`.
pub open spec fn filtered_channel(
    data: Seq<[u16; 3]>,
    width: int,
    height: int,
    radius: int,
    p: int,
    c: int,
) -> u16 {
    median(window_channel(data, width, height, radius, p % width, p / width, c))
}

proof fn lemma_ascending_total()
    ensures
        total_ordering(ascending()),
{
}

/// The median of `s` is the middle entry (index `len / 2`) of any ascending arrangement of
/// the values of `s`.
pub proof fn lemma_sorted_middle_is_median(sorted: Seq<u16>, s: Seq<u16>)
    requires
        sorted_by(sorted, ascending()),
        sorted.to_multiset() == s.to_multiset(),
        s.len() > 0,
    ensures
        sorted.len() == s.len(),
        sorted[(s.len() / 2) as int] == median(s),
{
    lemma_ascending_total();
    vstd::seq_lib::to_multiset_len(sorted);
    vstd::seq_lib::to_multiset_len(s);
    s.lemma_sort_by_ensures(ascending());
    vstd::seq_lib::lemma_sorted_unique(sorted, s.sort_by(ascending()), ascending());
}

/// The values of `values` in ascending order.
fn sort_ascending(values: &Vec<u16>) -> (sorted: Vec<u16>)
    ensures
        sorted_by(sorted@, ascending()),
        sorted@.to_multiset() == values@.to_multiset(),
{
    let mut sorted: Vec<u16> = Vec::new();
    let mut i: usize = 0;
    while i < values.len()
        invariant
            i <= values.len(),
            sorted_by(sorted@, ascending()),
            sorted@.to_multiset() == values@.take(i as int).to_multiset(),
        decreases values.len() - i,
    {
        let v = values[i];
        let mut pos: usize = 0;
        while pos < sorted.len() && sorted[pos] <= v
            invariant
                pos <= sorted.len(),
                forall|k: int| 0 <= k < pos ==> sorted@[k] <= v,
            decreases sorted.len() - pos,
        {
            pos = pos + 1;
        }
        let ghost before = sorted@;
        sorted.insert(pos, v);
        proof {
            assert(sorted@ =~= before.insert(pos as int, v));
            assert forall|a: int, b: int| 0 <= a < b < sorted@.len() implies #[trigger] (ascending())(
                sorted@[a],
                sorted@[b],
            ) by {
                if b < pos {
                    assert((ascending())(before[a], before[b]));
                } else if b == pos {
                    assert(before[a] <= v);
                } else if a < pos {
                    assert((ascending())(before[a], before[b - 1]));
                } else if a == pos {
                    assert(v < before[pos as int]);
                    if b - 1 > pos {
                        assert((ascending())(before[pos as int], before[b - 1]));
                    }
                } else {
                    assert((ascending())(before[a - 1], before[b - 1]));
                }
            }
            assert(values@.take(i + 1) =~= values@.take(i as int).push(v));
        }
        i = i + 1;
    }
    proof {
        assert(values@.take(i as int) =~= values@);
    }
    sorted
}

/// `v` moved into `[lo, hi]`.
fn clamp_i32(v: i32, lo: i32, hi: i32) -> (c: i32)
    requires
        lo <= hi,
    ensures
        c == (if v < lo {
            lo
        } else if v > hi {
            hi
        } else {
            v
        }),
{
    if v < lo {
        lo
    } else if v > hi {
        hi
    } else {
        v
    }
}

/// Bounds under which the filter's index arithmetic stays within `i32` and `u32`.
pub open spec fn filter_dims_ok(len: int, width: int, height: int, radius: int) -> bool {
    &&& width <= i32::MAX
    &&& height <= i32::MAX
    &&& width + radius <= i32::MAX + 1
    &&& height + radius <= i32::MAX + 1
    &&& window_side(radius) * window_side(radius) <= i32::MAX
    &&& width * height <= u32::MAX + 1
    &&& width * height <= len
}

/// The three channels of the window of radius `r` around `(x, y)`.
fn gather_window(data: &[[u16; 3]], width: u32, height: u32, r: i32, x: i32, y: i32) -> (vals: (
    Vec<u16>,
    Vec<u16>,
    Vec<u16>,
))
    requires
        0 <= r,
        0 <= x < width,
        0 <= y < height,
        filter_dims_ok(data@.len() as int, width as int, height as int, r as int),
    ensures
        vals.0@ == window_channel(data@, width as int, height as int, r as int, x as int, y as int, 0),
        vals.1@ == window_channel(data@, width as int, height as int, r as int, x as int, y as int, 1),
        vals.2@ == window_channel(data@, width as int, height as int, r as int, x as int, y as int, 2),
{
    let ghost wi = width as int;
    let ghost hi = height as int;
    let ghost side = window_side(r as int);
    let ghost wc0 = window_channel(data@, wi, hi, r as int, x as int, y as int, 0);
    let ghost wc1 = window_channel(data@, wi, hi, r as int, x as int, y as int, 1);
    let ghost wc2 = window_channel(data@, wi, hi, r as int, x as int, y as int, 2);
    let w = width as i32;
    let h = height as i32;
    let mut r_vals: Vec<u16> = Vec::new();
    let mut g_vals: Vec<u16> = Vec::new();
    let mut b_vals: Vec<u16> = Vec::new();
    let mut dy: i32 = -r;
    while dy <= r
        invariant
            0 <= r,
            0 <= x < width,
            0 <= y < height,
            w == width,
            h == height,
            wi == width,
            hi == height,
            side == 2 * r + 1,
            filter_dims_ok(data@.len() as int, wi, hi, r as int),
            wc0 == window_channel(data@, wi, hi, r as int, x as int, y as int, 0),
            wc1 == window_channel(data@, wi, hi, r as int, x as int, y as int, 1),
            wc2 == window_channel(data@, wi, hi, r as int, x as int, y as int, 2),
            -r <= dy <= r + 1,
            r_vals@.len() == (dy + r) * side,
            g_vals@.len() == r_vals@.len(),
            b_vals@.len() == r_vals@.len(),
            r_vals@ =~= wc0.take(r_vals@.len() as int),
            g_vals@ =~= wc1.take(r_vals@.len() as int),
            b_vals@ =~= wc2.take(r_vals@.len() as int),
        decreases r + 1 - dy,
    {
        let mut dx: i32 = -r;
        while dx <= r
            invariant
                0 <= r,
                0 <= x < width,
                0 <= y < height,
                w == width,
                h == height,
                wi == width,
                hi == height,
                side == 2 * r + 1,
                filter_dims_ok(data@.len() as int, wi, hi, r as int),
                wc0 == window_channel(data@, wi, hi, r as int, x as int, y as int, 0),
                wc1 == window_channel(data@, wi, hi, r as int, x as int, y as int, 1),
                wc2 == window_channel(data@, wi, hi, r as int, x as int, y as int, 2),
                -r <= dy <= r,
                -r <= dx <= r + 1,
                r_vals@.len() == (dy + r) * side + (dx + r),
                g_vals@.len() == r_vals@.len(),
                b_vals@.len() == r_vals@.len(),
                r_vals@ =~= wc0.take(r_vals@.len() as int),
                g_vals@ =~= wc1.take(r_vals@.len() as int),
                b_vals@ =~= wc2.take(r_vals@.len() as int),
            decreases r + 1 - dx,
        {
            let nx = clamp_i32(x + dx, 0, w - 1);
            let ny = clamp_i32(y + dy, 0, h - 1);
            let ghost k = (dy + r) * side + (dx + r);
            proof {
                assert(side * side <= i32::MAX);
                assert((dy + r) * side <= 2 * r * side) by (nonlinear_arith)
                    requires
                        0 <= dy + r <= 2 * r,
                        side > 0,
                ;
                assert(2 * r * side + 2 * r < side * side) by (nonlinear_arith)
                    requires
                        side == 2 * r + 1,
                        r >= 0,
                ;
                lemma_fundamental_div_mod_converse(k, side, (dy + r) as int, (dx + r) as int);
                assert(ny * wi + nx < wi * hi) by (nonlinear_arith)
                    requires
                        0 <= ny < hi,
                        0 <= nx < wi,
                ;
                assert(0 <= ny * wi) by (nonlinear_arith)
                    requires
                        0 <= ny,
                        0 <= wi,
                ;
            }
            let p = data[(ny as u32 * width + nx as u32) as usize];
            r_vals.push(p[0]);
            g_vals.push(p[1]);
            b_vals.push(p[2]);
            proof {
                assert(r_vals@.len() == k + 1);
            }
            dx = dx + 1;
        }
        proof {
            assert((dy + r) * side + side == (dy + 1 + r) * side) by (nonlinear_arith);
        }
        dy = dy + 1;
    }
    proof {
        assert((2 * r + 1) * side == side * side);
    }
    (r_vals, g_vals, b_vals)
}

/// The radius as the filter's `i32` arithmetic sees it: a value above `i32::MAX` wraps
/// around to a negative one.
pub open spec fn signed_radius(radius: u32) -> int {
    if radius <= i32::MAX {
        radius as int
    } else {
        radius - 0x1_0000_0000
    }
}

/// Whether the filter visits pixels at all: width and height are positive and fit in
/// `i32` (a larger one turns negative in the filter's `i32` loop bounds).
pub open spec fn filter_visits_pixels(width: int, height: int) -> bool {
    &&& 0 < width <= i32::MAX
    &&& 0 < height <= i32::MAX
}

/// Whether the filter takes medians: width, height and radius fit in `i32`. With a radius
/// that wraps to a negative value every window is empty and each visited pixel gets the
/// zero the filter's scratch buffers start with.
pub open spec fn filter_takes_medians(width: int, height: int, radius: u32) -> bool {
    &&& width <= i32::MAX
    &&& height <= i32::MAX
    &&& radius <= i32::MAX
}

/// Channel `c` of entry `p` after `median_filter`: the median of its window for a pixel of
/// the image when the filter takes medians, zero otherwise.
pub open spec fn filter_output(
    data: Seq<[u16; 3]>,
    width: int,
    height: int,
    radius: u32,
    p: int,
    c: int,
) -> u16 {
    if filter_takes_medians(width, height, radius) && p < width * height {
        filtered_channel(data, width, height, radius as int, p, c)
    } else {
        0
    }
}

/// Inputs on which the filter's arithmetic does not overflow and its indexing stays in
/// bounds.
pub open spec fn filter_input_ok(len: int, width: int, height: int, radius: u32) -> bool {
    &&& window_side(signed_radius(radius)) * window_side(signed_radius(radius)) <= i32::MAX
    &&& filter_visits_pixels(width, height) ==> filter_dims_ok(
        len,
        width,
        height,
        signed_radius(radius),
    )
}

/// Applies a median filter to RGB pixels stored row by row, `width` per row: each channel
/// of each pixel becomes the median of that channel over the square window of the given
/// radius around it, the channels taken independently. Entries past `width * height` are
/// set to zero, and so is every entry when the width, height or radius exceeds `i32::MAX`.
pub fn median_filter(data: &mut [[u16; 3]], width: u32, height: u32, radius: u32)
    requires
        filter_input_ok(old(data)@.len() as int, width as int, height as int, radius),
    ensures
        final(data)@.len() == old(data)@.len(),
        forall|p: int, c: int|
            0 <= p < old(data)@.len() && 0 <= c < 3 ==> #[trigger] final(data)@[p][c]
                == filter_output(old(data)@, width as int, height as int, radius, p, c),
{
    if width > 2147483647 || height > 2147483647 || radius > 2147483647 || width == 0 || height
        == 0 {
        let ghost len = data@.len();
        let mut i: usize = 0;
        while i < data.len()
            invariant
                data@.len() == len,
                i <= len,
                forall|p: int, c: int| 0 <= p < i && 0 <= c < 3 ==> #[trigger] data@[p][c] == 0,
            decreases len - i,
        {
            data[i] = [0u16; 3];
            i = i + 1;
        }
        proof {
            assert(width * height == 0 || !filter_takes_medians(width as int, height as int, radius))
                by (nonlinear_arith)
                requires
                    width == 0 || height == 0 || !filter_takes_medians(
                        width as int,
                        height as int,
                        radius,
                    ),
            ;
        }
    } else {
        filter_visited_pixels(data, width, height, radius);
    }
}

/// The filter over an image whose width and height fit in `i32`.
fn filter_visited_pixels(data: &mut [[u16; 3]], width: u32, height: u32, radius: u32)
    requires
        filter_dims_ok(old(data)@.len() as int, width as int, height as int, radius as int),
    ensures
        final(data)@.len() == old(data)@.len(),
        forall|p: int, c: int|
            0 <= p < width * height && 0 <= c < 3 ==> #[trigger] final(data)@[p][c]
                == filtered_channel(old(data)@, width as int, height as int, radius as int, p, c),
        forall|p: int, c: int|
            width * height <= p < old(data)@.len() && 0 <= c < 3 ==> #[trigger] final(data)@[p][c]
                == 0,
{
    let ghost input = data@;
    let ghost wi = width as int;
    let ghost hi = height as int;
    proof {
        let side = window_side(radius as int);
        assert(radius <= side * side) by (nonlinear_arith)
            requires
                side == 2 * radius + 1,
                radius >= 0,
        ;
    }
    let r = radius as i32;
    let w = width as i32;
    let h = height as i32;

    let mut result: Vec<[u16; 3]> = Vec::new();
    let mut i: usize = 0;
    while i < data.len()
        invariant
            data@ == input,
            i <= data@.len(),
            result@.len() == i,
            forall|p: int, c: int| 0 <= p < i && 0 <= c < 3 ==> #[trigger] result@[p][c] == 0,
        decreases data@.len() - i,
    {
        result.push([0u16; 3]);
        i = i + 1;
    }

    let mut y: i32 = 0;
    while y < h
        invariant
            data@ == input,
            wi == width,
            hi == height,
            w == width,
            h == height,
            r == radius,
            filter_dims_ok(input.len() as int, wi, hi, radius as int),
            0 <= y <= h,
            result@.len() == input.len(),
            forall|p: int, c: int|
                0 <= p < y * wi && 0 <= c < 3 ==> #[trigger] result@[p][c] == filtered_channel(
                    input,
                    wi,
                    hi,
                    radius as int,
                    p,
                    c,
                ),
            forall|p: int, c: int|
                y * wi <= p < input.len() && 0 <= c < 3 ==> #[trigger] result@[p][c] == 0,
        decreases h - y,
    {
        let mut x: i32 = 0;
        while x < w
            invariant
                data@ == input,
                wi == width,
                hi == height,
                w == width,
                h == height,
                r == radius,
                filter_dims_ok(input.len() as int, wi, hi, radius as int),
                0 <= y < h,
                0 <= x <= w,
                result@.len() == input.len(),
                forall|p: int, c: int|
                    0 <= p < y * wi + x && 0 <= c < 3 ==> #[trigger] result@[p][c]
                        == filtered_channel(input, wi, hi, radius as int, p, c),
                forall|p: int, c: int|
                    y * wi + x <= p < input.len() && 0 <= c < 3 ==> #[trigger] result@[p][c] == 0,
            decreases w - x,
        {
            let (r_vals, g_vals, b_vals) = gather_window(data, width, height, r, x, y);
            let r_sorted = sort_ascending(&r_vals);
            let g_sorted = sort_ascending(&g_vals);
            let b_sorted = sort_ascending(&b_vals);
            let n = r_vals.len();
            let mid = n / 2;
            let ghost idx = y * wi + x;
            proof {
                let side = window_side(radius as int);
                assert(side * side >= 1) by (nonlinear_arith)
                    requires
                        side >= 1,
                ;
                lemma_sorted_middle_is_median(r_sorted@, r_vals@);
                lemma_sorted_middle_is_median(g_sorted@, g_vals@);
                lemma_sorted_middle_is_median(b_sorted@, b_vals@);
                lemma_fundamental_div_mod_converse(idx, wi, y as int, x as int);
                assert(y * wi + x < wi * hi) by (nonlinear_arith)
                    requires
                        0 <= y < hi,
                        0 <= x < wi,
                ;
                assert(0 <= y * wi) by (nonlinear_arith)
                    requires
                        0 <= y,
                        0 <= wi,
                ;
            }
            let pixel = [r_sorted[mid], g_sorted[mid], b_sorted[mid]];
            result[(y as u32 * width + x as u32) as usize] = pixel;
            proof {
                assert(pixel[0] == filtered_channel(input, wi, hi, radius as int, idx, 0));
                assert(pixel[1] == filtered_channel(input, wi, hi, radius as int, idx, 1));
                assert(pixel[2] == filtered_channel(input, wi, hi, radius as int, idx, 2));
            }
            x = x + 1;
        }
        proof {
            assert(y * wi + wi == (y + 1) * wi) by (nonlinear_arith);
        }
        y = y + 1;
    }

    let mut i: usize = 0;
    while i < data.len()
        invariant
            wi == width,
            hi == height,
            h == height,
            data@.len() == input.len(),
            result@.len() == input.len(),
            i <= data@.len(),
            forall|p: int| 0 <= p < i ==> data@[p] == result@[p],
            forall|p: int| i <= p < data@.len() ==> data@[p] == input[p],
            forall|p: int, c: int|
                0 <= p < hi * wi && 0 <= c < 3 ==> #[trigger] result@[p][c] == filtered_channel(
                    input,
                    wi,
                    hi,
                    radius as int,
                    p,
                    c,
                ),
            forall|p: int, c: int|
                hi * wi <= p < input.len() && 0 <= c < 3 ==> #[trigger] result@[p][c] == 0,
        decreases data@.len() - i,
    {
        data[i] = result[i];
        i = i + 1;
    }
    proof {
        assert(wi * hi == hi * wi) by (nonlinear_arith);
        assert forall|p: int, c: int| 0 <= p < data@.len() && 0 <= c < 3 implies #[trigger] data@[p][c]
            == result@[p][c] by {
            assert(data@[p] == result@[p]);
        }
    }
}

/// On an image whose pixels all equal `pixel`, the median filter of any radius gives back
/// `pixel` everywhere.
pub proof fn lemma_uniform_image_unchanged(
    data: Seq<[u16; 3]>,
    width: int,
    height: int,
    radius: int,
    pixel: [u16; 3],
    p: int,
    c: int,
)
    requires
        0 <= width,
        0 <= height,
        0 <= radius,
        width * height <= data.len(),
        forall|q: int| 0 <= q < width * height ==> #[trigger] data[q] == pixel,
        0 <= p < width * height,
        0 <= c < 3,
    ensures
        filtered_channel(data, width, height, radius, p, c) == pixel[c],
{
    assert(width > 0 && height > 0) by (nonlinear_arith)
        requires
            0 <= p < width * height,
            width >= 0,
            height >= 0,
    {
    }
    let side = window_side(radius);
    let x = p % width;
    let y = p / width;
    let win = window_channel(data, width, height, radius, x, y, c);
    assert forall|k: int| 0 <= k < win.len() implies #[trigger] win[k] == pixel[c] by {
        let ny = clamp_coord(y + k / side - radius, height);
        let nx = clamp_coord(x + k % side - radius, width);
        assert(0 <= ny * width + nx < width * height) by (nonlinear_arith)
            requires
                0 <= ny < height,
                0 <= nx < width,
        ;
    }
    assert(side * side >= 1) by (nonlinear_arith)
        requires
            side >= 1,
    ;
    assert(sorted_by(win, ascending()));
    lemma_sorted_middle_is_median(win, win);
}

/// The median filter of radius zero leaves every pixel as it was.
pub proof fn lemma_radius_zero_is_identity(
    data: Seq<[u16; 3]>,
    width: int,
    height: int,
    p: int,
    c: int,
)
    requires
        0 <= width,
        0 <= height,
        width * height <= data.len(),
        0 <= p < width * height,
        0 <= c < 3,
    ensures
        filtered_channel(data, width, height, 0, p, c) == data[p][c],
{
    assert(width > 0 && height > 0) by (nonlinear_arith)
        requires
            0 <= p < width * height,
            width >= 0,
            height >= 0,
    {
    }
    let x = p % width;
    let y = p / width;
    vstd::arithmetic::div_mod::lemma_fundamental_div_mod(p, width);
    assert(0 <= x < width);
    assert(0 <= y < height) by (nonlinear_arith)
        requires
            p == width * y + x,
            0 <= x < width,
            0 <= p < width * height,
    {
    }
    let win = window_channel(data, width, height, 0, x, y, c);
    assert(window_side(0) == 1);
    assert(0int / 1 == 0 && 0int % 1 == 0);
    assert(y * width + x == p) by (nonlinear_arith)
        requires
            p == width * y + x,
    {
    }
    assert(win.len() == 1);
    assert(win[0] == data[p][c]);
    assert(sorted_by(win, ascending()));
    lemma_sorted_middle_is_median(win, win);
}

/// Every filtered value is one of the values in the window it was taken from.
pub proof fn lemma_filtered_value_from_window(
    data: Seq<[u16; 3]>,
    width: int,
    height: int,
    radius: int,
    p: int,
    c: int,
)
    requires
        0 <= radius,
        0 < width,
    ensures
        window_channel(data, width, height, radius, p % width, p / width, c).contains(
            filtered_channel(data, width, height, radius, p, c),
        ),
{
    let win = window_channel(data, width, height, radius, p % width, p / width, c);
    let side = window_side(radius);
    assert(side * side >= 1) by (nonlinear_arith)
        requires
            side >= 1,
    ;
    lemma_ascending_total();
    win.lemma_sort_by_ensures(ascending());
    vstd::seq_lib::to_multiset_len(win);
    vstd::seq_lib::to_multiset_len(win.sort_by(ascending()));
    let m = win.sort_by(ascending())[(win.len() / 2) as int];
    assert(win.sort_by(ascending()).contains(m));
}

proof fn lemma_count_all_equal(s: Seq<u16>, v: u16)
    requires
        forall|k: int| 0 <= k < s.len() ==> s[k] == v,
    ensures
        s.to_multiset().count(v) == s.len(),
    decreases s.len(),
{
    broadcast use vstd::multiset::group_multiset_axioms;

    if s.len() > 0 {
        let init = s.drop_last();
        lemma_count_all_equal(init, v);
        assert(init.push(s.last()) =~= s);
        vstd::seq_lib::to_multiset_build(init, s.last());
    } else {
        assert(s.to_multiset() =~= vstd::multiset::Multiset::empty());
    }
}

proof fn lemma_count_at_most_len(s: Seq<u16>, v: u16)
    ensures
        s.to_multiset().count(v) <= s.len(),
    decreases s.len(),
{
    broadcast use vstd::multiset::group_multiset_axioms;

    if s.len() > 0 {
        let init = s.drop_last();
        lemma_count_at_most_len(init, v);
        assert(init.push(s.last()) =~= s);
        vstd::seq_lib::to_multiset_build(init, s.last());
    } else {
        assert(s.to_multiset() =~= vstd::multiset::Multiset::empty());
    }
}

/// Removing an element other than `v` leaves the number of copies of `v` unchanged.
proof fn lemma_remove_other_keeps_count(s: Seq<u16>, i: int, v: u16)
    requires
        0 <= i < s.len(),
        s[i] != v,
    ensures
        s.remove(i).to_multiset().count(v) == s.to_multiset().count(v),
{
    broadcast use vstd::multiset::group_multiset_axioms;

    vstd::seq_lib::to_multiset_remove(s, i);
}

/// A single outlier in a window of at least three values does not reach the output: when
/// every value but (at most) one equals `v`, the median is `v`. This is how the filter
/// removes an isolated bright or dark pixel.
pub proof fn lemma_single_outlier_removed(s: Seq<u16>, outlier: int, v: u16)
    requires
        s.len() >= 3,
        0 <= outlier < s.len(),
        forall|k: int| 0 <= k < s.len() && k != outlier ==> s[k] == v,
    ensures
        median(s) == v,
{
    broadcast use vstd::multiset::group_multiset_axioms;

    let n = s.len() as int;
    // at least n - 1 copies of v in s
    let rest = s.remove(outlier);
    assert forall|k: int| 0 <= k < rest.len() implies rest[k] == v by {
        if k < outlier {
            assert(rest[k] == s[k]);
        } else {
            assert(rest[k] == s[k + 1]);
        }
    }
    lemma_count_all_equal(rest, v);
    vstd::seq_lib::to_multiset_remove(s, outlier);
    assert(s.to_multiset().count(v) >= n - 1);

    lemma_ascending_total();
    s.lemma_sort_by_ensures(ascending());
    let t = s.sort_by(ascending());
    vstd::seq_lib::to_multiset_len(s);
    vstd::seq_lib::to_multiset_len(t);
    let m = n / 2;
    if t[m] != v {
        let (a, b) = if t[m] < v {
            assert((ascending())(t[0], t[m]));
            (0int, m)
        } else {
            assert((ascending())(t[m], t[n - 1]));
            (m, n - 1)
        };
        assert(a < b && t[a] != v && t[b] != v);
        let t1 = t.remove(b);
        lemma_remove_other_keeps_count(t, b, v);
        assert(t1[a] == t[a]);
        lemma_remove_other_keeps_count(t1, a, v);
        lemma_count_at_most_len(t1.remove(a), v);
        assert(false);
    }
}

/// Where `v` goes in the ascending sequence `r`: everything before is at most `v`,
/// everything from there on is above it.
proof fn lemma_insertion_point(r: Seq<u16>, v: u16) -> (q: int)
    requires
        sorted_by(r, ascending()),
    ensures
        0 <= q <= r.len(),
        forall|i: int| 0 <= i < q ==> r[i] <= v,
        forall|i: int| q <= i < r.len() ==> r[i] > v,
    decreases r.len(),
{
    if r.len() == 0 {
        0
    } else {
        let init = r.drop_last();
        assert(sorted_by(init, ascending())) by {
            assert forall|a: int, b: int| 0 <= a < b < init.len() implies #[trigger] (ascending())(
                init[a],
                init[b],
            ) by {
                assert((ascending())(r[a], r[b]));
            }
        }
        let q0 = lemma_insertion_point(init, v);
        assert forall|i: int| 0 <= i < init.len() implies r[i] == init[i] by {}
        if r.last() > v {
            assert forall|i: int| 0 <= i < q0 implies r[i] <= v by {
                assert(r[i] == init[i]);
            }
            assert forall|i: int| q0 <= i < r.len() implies r[i] > v by {
                if i < init.len() {
                    assert(r[i] == init[i]);
                }
            }
            q0
        } else {
            assert forall|i: int| 0 <= i < r.len() implies r[i] <= v by {
                if i < r.len() - 1 {
                    assert((ascending())(r[i], r[r.len() - 1]));
                }
            }
            r.len() as int
        }
    }
}

/// Raising one value of a window never lowers its median.
proof fn lemma_median_raise_one(s: Seq<u16>, k: int, v: u16)
    requires
        0 <= k < s.len(),
        s[k] <= v,
    ensures
        median(s) <= median(s.update(k, v)),
{
    broadcast use vstd::multiset::group_multiset_axioms;

    let n = s.len() as int;
    let m = n / 2;
    let t_in = s.update(k, v);
    lemma_ascending_total();
    s.lemma_sort_by_ensures(ascending());
    t_in.lemma_sort_by_ensures(ascending());
    let ss = s.sort_by(ascending());
    vstd::seq_lib::to_multiset_len(s);
    vstd::seq_lib::to_multiset_len(ss);
    // an occurrence of s[k] in the sorted sequence
    vstd::seq_lib::to_multiset_contains(s, s[k]);
    assert(s.contains(s[k]));
    vstd::seq_lib::to_multiset_contains(ss, s[k]);
    let p = choose|p: int| 0 <= p < ss.len() && ss[p] == s[k];
    let r = ss.remove(p);
    assert(sorted_by(r, ascending())) by {
        assert forall|a: int, b: int| 0 <= a < b < r.len() implies #[trigger] (ascending())(
            r[a],
            r[b],
        ) by {
            let oa = if a < p {
                a
            } else {
                a + 1
            };
            let ob = if b < p {
                b
            } else {
                b + 1
            };
            assert((ascending())(ss[oa], ss[ob]));
        }
    }
    let q = lemma_insertion_point(r, v);
    let tt = r.insert(q, v);
    assert(sorted_by(tt, ascending())) by {
        assert forall|a: int, b: int| 0 <= a < b < tt.len() implies #[trigger] (ascending())(
            tt[a],
            tt[b],
        ) by {
            if b < q {
                assert((ascending())(r[a], r[b]));
            } else if b == q {
            } else if a < q {
                assert((ascending())(r[a], r[b - 1]));
            } else if a == q {
            } else {
                assert((ascending())(r[a - 1], r[b - 1]));
            }
        }
    }
    vstd::seq_lib::to_multiset_remove(ss, p);
    vstd::seq_lib::to_multiset_insert(r, q, v);
    vstd::seq_lib::to_multiset_update(s, k, v);
    assert(s.to_multiset().count(s[k]) > 0);
    assert(tt.to_multiset() =~= t_in.to_multiset());
    vstd::seq_lib::lemma_sorted_unique(tt, t_in.sort_by(ascending()), ascending());
    // compare the middle elements
    if m < q {
        if m < p {
            assert(tt[m] == ss[m]);
        } else {
            assert(tt[m] == ss[m + 1]);
            assert((ascending())(ss[m], ss[m + 1]));
        }
    } else if m == q {
        if q > p {
            assert(ss[m] == r[q - 1]);
        } else if q < p {
            assert((ascending())(ss[q], ss[p]));
        }
    } else {
        assert(tt[m] == r[m - 1]);
        if m - 1 >= p {
            assert(r[m - 1] == ss[m]);
        } else {
            assert(r[m - 1] > v);
            if m < p {
                assert((ascending())(ss[m], ss[p]));
            }
        }
    }
}

/// `t` on the positions before `j`, `s` on the rest.
spec fn blend(s: Seq<u16>, t: Seq<u16>, j: int) -> Seq<u16> {
    t.take(j) + s.skip(j)
}

proof fn lemma_median_monotone_prefix(s: Seq<u16>, t: Seq<u16>, j: int)
    requires
        s.len() == t.len(),
        0 <= j <= s.len(),
        forall|k: int| 0 <= k < s.len() ==> s[k] <= t[k],
    ensures
        median(s) <= median(blend(s, t, j)),
    decreases j,
{
    if j == 0 {
        assert(blend(s, t, 0) =~= s);
    } else {
        lemma_median_monotone_prefix(s, t, j - 1);
        let u = blend(s, t, j - 1);
        assert(blend(s, t, j) =~= u.update(j - 1, t[j - 1]));
        lemma_median_raise_one(u, j - 1, t[j - 1]);
    }
}

/// The median is monotone: raising any values of a window never lowers its median.
pub proof fn lemma_median_monotone(s: Seq<u16>, t: Seq<u16>)
    requires
        s.len() == t.len(),
        forall|k: int| 0 <= k < s.len() ==> s[k] <= t[k],
    ensures
        median(s) <= median(t),
{
    lemma_median_monotone_prefix(s, t, s.len() as int);
    assert(blend(s, t, s.len() as int) =~= t);
}

/// The median filter is monotone: if every channel value of image `a` is at most the same
/// value of image `b`, every filtered value of `a` is at most the same filtered value of `b`.
pub proof fn lemma_filter_monotone(
    a: Seq<[u16; 3]>,
    b: Seq<[u16; 3]>,
    width: int,
    height: int,
    radius: int,
    p: int,
    c: int,
)
    requires
        0 <= width,
        0 <= height,
        0 <= radius,
        forall|i: int, d: int| 0 <= i < width * height && 0 <= d < 3 ==> #[trigger] a[i][d] <= b[i][d],
        0 <= p < width * height,
        0 <= c < 3,
    ensures
        filtered_channel(a, width, height, radius, p, c) <= filtered_channel(
            b,
            width,
            height,
            radius,
            p,
            c,
        ),
{
    assert(width > 0 && height > 0) by (nonlinear_arith)
        requires
            0 <= p < width * height,
            width >= 0,
            height >= 0,
    {
    }
    let side = window_side(radius);
    let x = p % width;
    let y = p / width;
    let wa = window_channel(a, width, height, radius, x, y, c);
    let wb = window_channel(b, width, height, radius, x, y, c);
    assert forall|k: int| 0 <= k < wa.len() implies wa[k] <= wb[k] by {
        let ny = clamp_coord(y + k / side - radius, height);
        let nx = clamp_coord(x + k % side - radius, width);
        assert(0 <= ny * width + nx < width * height) by (nonlinear_arith)
            requires
                0 <= ny < height,
                0 <= nx < width,
        ;
        assert(a[ny * width + nx][c] <= b[ny * width + nx][c]);
    }
    lemma_median_monotone(wa, wb);
}

/// `median_filter` is monotone: filtering two images of the same size, where every channel
/// value of `a` is at most the same value of `b`, leaves every value of `a` at most the same
/// value of `b`.
pub proof fn lemma_median_filter_monotone(
    a: Seq<[u16; 3]>,
    b: Seq<[u16; 3]>,
    width: int,
    height: int,
    radius: u32,
    p: int,
    c: int,
)
    requires
        0 <= width,
        0 <= height,
        forall|i: int, d: int| 0 <= i < width * height && 0 <= d < 3 ==> #[trigger] a[i][d] <= b[i][d],
        0 <= p,
        0 <= c < 3,
    ensures
        filter_output(a, width, height, radius, p, c) <= filter_output(
            b,
            width,
            height,
            radius,
            p,
            c,
        ),
{
    if filter_takes_medians(width, height, radius) && p < width * height {
        lemma_filter_monotone(a, b, width, height, radius as int, p, c);
    }
}

/// The window of pixel `(x, y)` holds `(2 * radius + 1)^2` values, row by row: the value for
/// offset `(dx, dy)` (each in `-radius..=radius`) is channel `c` of the pixel at
/// `(x + dx, y + dy)`, a coordinate outside the image being moved to the nearest border.
pub proof fn lemma_window_entry(
    data: Seq<[u16; 3]>,
    width: int,
    height: int,
    radius: int,
    x: int,
    y: int,
    c: int,
    dx: int,
    dy: int,
)
    requires
        0 < width,
        0 < height,
        0 <= radius,
        -radius <= dx <= radius,
        -radius <= dy <= radius,
    ensures
        window_channel(data, width, height, radius, x, y, c).len() == (2 * radius + 1) * (2
            * radius + 1),
        window_channel(data, width, height, radius, x, y, c)[(dy + radius) * (2 * radius + 1) + (
        dx + radius)] == data[(if y + dy < 0 {
            0
        } else if y + dy >= height {
            height - 1
        } else {
            y + dy
        }) * width + (if x + dx < 0 {
            0
        } else if x + dx >= width {
            width - 1
        } else {
            x + dx
        })][c],
{
    let side = 2 * radius + 1;
    let k = (dy + radius) * side + (dx + radius);
    assert(side * side >= 0) by (nonlinear_arith)
        requires
            side >= 1,
    ;
    assert(0 <= k < side * side) by (nonlinear_arith)
        requires
            side == 2 * radius + 1,
            0 <= dy + radius < side,
            0 <= dx + radius < side,
            k == (dy + radius) * side + (dx + radius),
    ;
    lemma_fundamental_div_mod_converse(k, side, dy + radius, dx + radius);
}

/// Channel `c` of pixel `(x, y)` after filtering is the median of that channel over the
/// window around `(x, y)`, and `median_filter` writes it at entry `y * width + x` whenever
/// width, height and radius fit in `i32`.
pub proof fn lemma_pixel_is_window_median(
    data: Seq<[u16; 3]>,
    width: int,
    height: int,
    radius: u32,
    x: int,
    y: int,
    c: int,
)
    requires
        0 <= x < width,
        0 <= y < height,
    ensures
        filtered_channel(data, width, height, radius as int, y * width + x, c) == median(
            window_channel(data, width, height, radius as int, x, y, c),
        ),
        filter_takes_medians(width, height, radius) ==> filter_output(
            data,
            width,
            height,
            radius,
            y * width + x,
            c,
        ) == median(window_channel(data, width, height, radius as int, x, y, c)),
        !filter_takes_medians(width, height, radius) ==> filter_output(
            data,
            width,
            height,
            radius,
            y * width + x,
            c,
        ) == 0,
{
    lemma_fundamental_div_mod_converse(y * width + x, width, y, x);
    assert(y * width + x < width * height) by (nonlinear_arith)
        requires
            0 <= x < width,
            0 <= y < height,
    ;
}

/// On an image of any size, `median_filter` with radius zero gives back every pixel of the
/// image unchanged, as long as width and height fit in `i32`.
pub proof fn lemma_median_filter_radius_zero(
    data: Seq<[u16; 3]>,
    width: int,
    height: int,
    p: int,
    c: int,
)
    requires
        0 <= width <= i32::MAX,
        0 <= height <= i32::MAX,
        width * height <= data.len(),
        0 <= p < width * height,
        0 <= c < 3,
    ensures
        filter_output(data, width, height, 0, p, c) == data[p][c],
{
    lemma_radius_zero_is_identity(data, width, height, p, c);
}

/// `median_filter` zeroes every entry past the `width * height` pixels of the image.
pub proof fn lemma_filter_output_past_image(
    data: Seq<[u16; 3]>,
    width: int,
    height: int,
    radius: u32,
    p: int,
    c: int,
)
    requires
        width * height <= p,
    ensures
        filter_output(data, width, height, radius, p, c) == 0,
{
}

} // verus!
