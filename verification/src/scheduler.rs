//! The frame scheduler's bookkeeping.
//!
//! A frame is rendered pixel by pixel, in parallel: the linear pixel
//! index range is cut into fixed-size contiguous tiles, the tiles are
//! handed to workers in any order, and the per-tile results are
//! reassembled, in original pixel order, into the flat row-major byte
//! buffer that the frame hands out — three bytes per pixel, no
//! padding. The worker pool itself lives outside this library; what
//! stands here is the partition and the reassembly, so that every
//! pixel is rendered exactly once and lands at exactly its own three
//! bytes.

use vstd::prelude::*;

verus! {

/// The column and row of a linear pixel index, on a frame `width`
/// pixels wide: the index counts pixels row by row.
pub fn pixel_position(index: usize, width: usize) -> (r: (usize, usize))
    requires
        width > 0,
    ensures
        r.0 == index % width,
        r.1 == index / width,
        r.0 < width,
        r.1 * width + r.0 == index,
{
    proof {
        vstd::arithmetic::div_mod::lemma_fundamental_div_mod(index as int, width as int);
        vstd::arithmetic::mul::lemma_mul_is_commutative(index as int / width as int, width as int);
    }
    (index % width, index / width)
}

/// Cuts the linear pixel range `0 .. pixel_count` into contiguous
/// tiles of `tile_size` pixels, in order, the last tile holding
/// whatever remains. Each returned pair is a tile's first pixel index
/// and its pixel count; together the tiles cover every pixel exactly
/// once.
pub fn tile_ranges(pixel_count: usize, tile_size: usize) -> (r: Vec<(usize, usize)>)
    requires
        tile_size > 0,
    ensures
        r@.len() == (pixel_count + tile_size - 1) / (tile_size as int),
        forall|k: int| 0 <= k < r@.len() ==> (#[trigger] r@[k]).0 == k * tile_size,
        forall|k: int| 0 <= k < r@.len() ==> (#[trigger] r@[k]).1 as int == (
            if (k + 1) * tile_size <= pixel_count {
                tile_size as int
            } else {
                pixel_count - k * tile_size
            }
        ),
        forall|k: int| 0 <= k < r@.len() ==> (#[trigger] r@[k]).1 > 0,
        r@.len() > 0 ==> r@[0].0 == 0,
        forall|k: int| 0 < k < r@.len() ==> (#[trigger] r@[k]).0 == r@[k - 1].0 + r@[k - 1].1,
        r@.len() > 0 ==> r@[r@.len() - 1].0 + r@[r@.len() - 1].1 == pixel_count,
{
    let mut r: Vec<(usize, usize)> = Vec::new();
    let mut start: usize = 0;
    proof {
        assert(r@.len() * tile_size == 0) by (nonlinear_arith)
            requires
                r@.len() == 0;
    }
    while start < pixel_count
        invariant
            tile_size > 0,
            start == r@.len() * tile_size || (start == pixel_count && r@.len() * tile_size
                > pixel_count),
            start <= pixel_count,
            r@.len() > 0 ==> start > 0,
            forall|k: int| 0 <= k < r@.len() ==> (#[trigger] r@[k]).0 == k * tile_size,
            forall|k: int| 0 <= k < r@.len() ==> (#[trigger] r@[k]).1 as int == (
                if (k + 1) * tile_size <= pixel_count {
                    tile_size as int
                } else {
                    pixel_count - k * tile_size
                }
            ),
            forall|k: int| 0 <= k < r@.len() ==> (#[trigger] r@[k]).1 > 0,
        decreases pixel_count - start,
    {
        let ghost tiles_so_far = r@.len() as int;
        proof {
            vstd::arithmetic::mul::lemma_mul_is_distributive_add_other_way(
                tile_size as int,
                tiles_so_far,
                1,
            );
        }
        let remaining = pixel_count - start;
        if remaining >= tile_size {
            r.push((start, tile_size));
            start = start + tile_size;
        } else {
            r.push((start, remaining));
            start = pixel_count;
        }
    }
    proof {
        let n = pixel_count as int;
        let t = tile_size as int;
        let m = r@.len() as int;
        if n == 0 {
            assert(m == (n + t - 1) / t) by (nonlinear_arith)
                requires
                    t > 0,
                    m == 0,
                    n == 0;
        } else if m * t == n {
            assert(m == (n + t - 1) / t) by (nonlinear_arith)
                requires
                    t > 0,
                    n > 0,
                    m >= 0,
                    m * t == n;
        } else {
            assert(m * t > n);
            assert(m >= 1) by (nonlinear_arith)
                requires
                    t > 0,
                    n > 0,
                    m >= 0,
                    m * t > n;
            assert(r@[m - 1].1 as int == n - (m - 1) * t);
            assert((m - 1) * t < n);
            assert(m == (n + t - 1) / t) by (nonlinear_arith)
                requires
                    t > 0,
                    (m - 1) * t < n,
                    m * t > n;
        }
        if m > 0 {
            assert(r@[0].0 == 0 * t);
            assert(0 * t == 0) by (nonlinear_arith);
            assert(r@[m - 1].0 == (m - 1) * t);
            vstd::arithmetic::mul::lemma_mul_is_distributive_add_other_way(t, m - 1, 1);
            assert(r@[m - 1].0 + r@[m - 1].1 == n);
        }
        assert forall|k: int| 0 < k < m implies (#[trigger] r@[k]).0 == r@[k - 1].0 + r@[k
            - 1].1 by {
            assert(r@[k].0 == k * t);
            assert(r@[k - 1].0 == (k - 1) * t);
            assert(r@[k].1 > 0);
            vstd::arithmetic::mul::lemma_mul_is_distributive_add_other_way(t, k - 1, 1);
            vstd::arithmetic::mul::lemma_mul_is_distributive_add_other_way(t, k, 1);
            assert(k * t <= n);
            assert(r@[k - 1].1 as int == t);
        }
    }
    r
}

/// The flat byte image of a pixel sequence: each pixel's red, green
/// and blue bytes in turn, three bytes per pixel, no padding.
pub open spec fn pixel_bytes(pixels: Seq<(u8, u8, u8)>) -> Seq<u8>
    decreases pixels.len(),
{
    if pixels.len() == 0 {
        Seq::empty()
    } else {
        seq![pixels[0].0, pixels[0].1, pixels[0].2] + pixel_bytes(pixels.drop_first())
    }
}

pub proof fn lemma_pixel_bytes_len(pixels: Seq<(u8, u8, u8)>)
    ensures
        pixel_bytes(pixels).len() == 3 * pixels.len(),
    decreases pixels.len(),
{
    if pixels.len() > 0 {
        lemma_pixel_bytes_len(pixels.drop_first());
    }
}

pub proof fn lemma_pixel_bytes_append(left: Seq<(u8, u8, u8)>, right: Seq<(u8, u8, u8)>)
    ensures
        pixel_bytes(left + right) == pixel_bytes(left) + pixel_bytes(right),
    decreases left.len(),
{
    if left.len() == 0 {
        assert(left + right =~= right);
        assert(pixel_bytes(left) + pixel_bytes(right) =~= pixel_bytes(right));
    } else {
        lemma_pixel_bytes_append(left.drop_first(), right);
        assert((left + right).drop_first() =~= left.drop_first() + right);
        assert((left + right)[0] == left[0]);
        assert(pixel_bytes(left + right) =~= pixel_bytes(left) + pixel_bytes(right));
    }
}

/// Where each pixel's bytes land: the pixel at linear index `i` owns
/// exactly the three bytes at offsets `3 * i`, `3 * i + 1` and
/// `3 * i + 2` of the flat image — the row-major layout the renderer
/// hands out.
pub proof fn lemma_pixel_bytes_index(pixels: Seq<(u8, u8, u8)>, i: int)
    requires
        0 <= i < pixels.len(),
    ensures
        pixel_bytes(pixels)[3 * i] == pixels[i].0,
        pixel_bytes(pixels)[3 * i + 1] == pixels[i].1,
        pixel_bytes(pixels)[3 * i + 2] == pixels[i].2,
    decreases i,
{
    lemma_pixel_bytes_len(pixels.drop_first());
    if i > 0 {
        lemma_pixel_bytes_index(pixels.drop_first(), i - 1);
    }
}

/// A frame's pixels as the tiles hold them: every tile's pixels,
/// concatenated in tile order.
pub open spec fn frame_pixels(tiles: Seq<Vec<(u8, u8, u8)>>) -> Seq<(u8, u8, u8)> {
    tiles.map_values(|tile: Vec<(u8, u8, u8)>| tile@).flatten()
}

/// Reassembles per-tile pixel results, in tile order, into the flat
/// row-major byte buffer of the whole frame: three bytes per pixel,
/// no padding, the pixel at linear index `p` owning exactly the bytes
/// at `3 * p`, `3 * p + 1` and `3 * p + 2`.
pub fn assemble_pixels(tiles: &Vec<Vec<(u8, u8, u8)>>) -> (r: Vec<u8>)
    ensures
        r@ == pixel_bytes(frame_pixels(tiles@)),
        r@.len() == 3 * frame_pixels(tiles@).len(),
        forall|p: int| 0 <= p < frame_pixels(tiles@).len() ==> {
            &&& r@[3 * p] == (#[trigger] frame_pixels(tiles@)[p]).0
            &&& r@[3 * p + 1] == frame_pixels(tiles@)[p].1
            &&& r@[3 * p + 2] == frame_pixels(tiles@)[p].2
        },
{
    let ghost views = tiles@.map_values(|tile: Vec<(u8, u8, u8)>| tile@);
    let mut r: Vec<u8> = Vec::new();
    let mut k: usize = 0;
    while k < tiles.len()
        invariant
            k <= tiles@.len(),
            views == tiles@.map_values(|tile: Vec<(u8, u8, u8)>| tile@),
            r@ == pixel_bytes(views.take(k as int).flatten()),
        decreases tiles@.len() - k,
    {
        let tile = &tiles[k];
        let ghost flat_prefix = views.take(k as int).flatten();
        let mut j: usize = 0;
        while j < tile.len()
            invariant
                j <= tile@.len(),
                tile@ == views[k as int],
                0 <= k < views.len(),
                r@ == pixel_bytes(flat_prefix) + pixel_bytes(tile@.take(j as int)),
                flat_prefix == views.take(k as int).flatten(),
            decreases tile@.len() - j,
        {
            let pixel = tile[j];
            r.push(pixel.0);
            r.push(pixel.1);
            r.push(pixel.2);
            proof {
                assert(tile@.take(j + 1) =~= tile@.take(j as int).push(tile@[j as int]));
                assert(tile@.take(j as int).push(tile@[j as int]) =~= tile@.take(j as int)
                    + seq![tile@[j as int]]);
                lemma_pixel_bytes_append(tile@.take(j as int), seq![tile@[j as int]]);
                assert(pixel_bytes(seq![tile@[j as int]]) =~= seq![pixel.0, pixel.1, pixel.2]) by {
                    reveal_with_fuel(pixel_bytes, 2);
                }
            }
            j = j + 1;
        }
        proof {
            assert(tile@.take(tile@.len() as int) =~= tile@);
            assert(views.take(k + 1) =~= views.take(k as int).push(views[k as int]));
            Seq::lemma_flatten_push(views.take(k as int), views[k as int]);
            lemma_pixel_bytes_append(flat_prefix, tile@);
        }
        k = k + 1;
    }
    proof {
        assert(views.take(views.len() as int) =~= views);
        lemma_pixel_bytes_len(views.flatten());
        assert forall|p: int| 0 <= p < views.flatten().len() implies {
            &&& r@[3 * p] == views.flatten()[p].0
            &&& r@[3 * p + 1] == views.flatten()[p].1
            &&& r@[3 * p + 2] == views.flatten()[p].2
        } by {
            lemma_pixel_bytes_index(views.flatten(), p);
        }
    }
    r
}

/// Tiles rendered independently come back together in original pixel
/// order: when the tile ranges are consecutive and every tile holds
/// the rendered pixels of its own range, the concatenation of the
/// tiles is the rendered frame, the pixel at linear index
/// `ranges[0].0 + p` standing at position `p` — whatever order the
/// tiles were rendered in.
pub proof fn lemma_tiles_in_pixel_order(
    ranges: Seq<(usize, usize)>,
    tiles: Seq<Seq<(u8, u8, u8)>>,
    render: spec_fn(int) -> (u8, u8, u8),
)
    requires
        ranges.len() == tiles.len(),
        forall|k: int| 0 < k < ranges.len() ==> (#[trigger] ranges[k]).0 == ranges[k - 1].0
            + ranges[k - 1].1,
        forall|k: int| 0 <= k < ranges.len() ==> (#[trigger] tiles[k]).len() == ranges[k].1,
        forall|k: int, j: int| 0 <= k < tiles.len() && 0 <= j < tiles[k].len()
            ==> #[trigger] tiles[k][j] == render(ranges[k].0 + j),
    ensures
        ranges.len() == 0 ==> tiles.flatten().len() == 0,
        ranges.len() > 0 ==> tiles.flatten().len() == ranges[ranges.len() - 1].0
            + ranges[ranges.len() - 1].1 - ranges[0].0,
        forall|p: int| 0 <= p < tiles.flatten().len() ==> #[trigger] tiles.flatten()[p]
            == render(ranges[0].0 + p),
    decreases ranges.len(),
{
    if ranges.len() == 0 {
        assert(tiles.flatten().len() == 0);
    } else {
        let first = ranges[0].0 as int;
        let head = tiles[0];
        lemma_tiles_in_pixel_order(ranges.drop_first(), tiles.drop_first(), render);
        assert(tiles.flatten() == head + tiles.drop_first().flatten());
        assert(head.len() == ranges[0].1);
        if ranges.len() == 1 {
            assert(tiles.drop_first().len() == 0);
        } else {
            assert(ranges.drop_first()[0] == ranges[1]);
            assert(ranges[1].0 == ranges[0].0 + ranges[0].1);
            assert(ranges.drop_first()[ranges.drop_first().len() - 1]
                == ranges[ranges.len() - 1]);
        }
        assert forall|p: int| 0 <= p < tiles.flatten().len() implies #[trigger] tiles.flatten()[p]
            == render(first + p) by {
            if p < head.len() {
                assert(tiles.flatten()[p] == head[p]);
                assert(head[p] == render(ranges[0].0 + p));
            } else {
                let q = p - head.len();
                assert(tiles.flatten()[p] == tiles.drop_first().flatten()[q]);
                assert(tiles.drop_first().flatten()[q] == render(ranges.drop_first()[0].0 + q));
                assert(ranges.drop_first()[0].0 + q == first + p);
            }
        }
    }
}

} // verus!
