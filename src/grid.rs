//! Row-major noise maps: which cell of a flat buffer holds which lattice
//! position, and filling every whole row of a buffer from a sampler.
use vstd::prelude::*;

verus! {

/// The number of whole rows of `width` cells in `len` cells; none when the
/// width is zero.
pub open spec fn rows(len: int, width: int) -> int {
    if width > 0 {
        len / width
    } else {
        0
    }
}

/// Whether the fill has written cell `n` of a grid of `width` by `height`
/// cells once it has finished the columns before `x` and the first `y` rows
/// of column `x`.
spec fn filled_2d(n: int, width: int, height: int, x: int, y: int) -> bool {
    &&& 0 <= n < width * height
    &&& (n % width < x || (n % width == x && n / width < y))
}

/// Writes `sample(x, y)` into the cell `x + width * y` of `map`, for every
/// column `x` below `width` and every whole row `y`. Cells past the last whole
/// row keep their values.
pub fn fill_grid_2d<T: Copy, F: Fn(usize, usize) -> T>(map: &mut [T], width: usize, sample: &F)
    requires
        forall|x: usize, y: usize| #[trigger] sample.requires((x, y)),
    ensures
        final(map)@.len() == old(map)@.len(),
        forall|x: int, y: int|
            0 <= x < width && 0 <= y < rows(old(map)@.len() as int, width as int) ==> sample.ensures(
                (x as usize, y as usize),
                #[trigger] final(map)@[x + width * y],
            ),
        forall|n: int|
            width * rows(old(map)@.len() as int, width as int) <= n < old(map)@.len()
                ==> #[trigger] final(map)@[n] == old(map)@[n],
{
    if width == 0 {
        return;
    }
    let height = map.len() / width;
    let ghost len = map@.len() as int;
    let ghost start = map@;
    proof {
        assert(width * height <= len) by (nonlinear_arith)
            requires
                height == len / width as int,
                width > 0,
                len >= 0,
        ;
    }
    let mut x: usize = 0;
    while x < width
        invariant
            0 <= x <= width,
            width > 0,
            height == rows(len, width as int),
            width * height <= len,
            map@.len() == len,
            start.len() == len,
            len <= usize::MAX,
            forall|a: usize, b: usize| #[trigger] sample.requires((a, b)),
            forall|a: int, b: int|
                0 <= a < x && 0 <= b < height ==> sample.ensures(
                    (a as usize, b as usize),
                    #[trigger] map@[a + width * b],
                ),
            forall|n: int|
                0 <= n < len && !filled_2d(n, width as int, height as int, x as int, 0)
                    ==> #[trigger] map@[n] == start[n],
        decreases width - x,
    {
        let mut y: usize = 0;
        while y < height
            invariant
                0 <= x < width,
                0 <= y <= height,
                width > 0,
                height == rows(len, width as int),
                width * height <= len,
                map@.len() == len,
                start.len() == len,
                len <= usize::MAX,
                forall|a: usize, b: usize| #[trigger] sample.requires((a, b)),
                forall|a: int, b: int|
                    0 <= b < height && ((0 <= a < x) || (a == x && 0 <= b < y)) ==> sample.ensures(
                        (a as usize, b as usize),
                        #[trigger] map@[a + width * b],
                    ),
                forall|n: int|
                    0 <= n < len && !filled_2d(n, width as int, height as int, x as int, y as int)
                        ==> #[trigger] map@[n] == start[n],
            decreases height - y,
        {
            proof {
                lemma_cell_in_grid(x as int, y as int, width as int, height as int);
                assert(width * y <= x + width * y);
            }
            let idx = x + width * y;
            let v = sample(x, y);
            map[idx] = v;
            proof {
                assert forall|a: int, b: int|
                    0 <= b < height && ((0 <= a < x) || (a == x && 0 <= b < y + 1)) implies sample.ensures(
                        (a as usize, b as usize),
                        #[trigger] map@[a + width * b],
                    ) by {
                    lemma_cell_in_grid(a, b, width as int, height as int);
                    if a + width * b != idx as int {
                        lemma_cells_distinct(a, b, x as int, y as int, width as int);
                    }
                }
                assert forall|n: int|
                    0 <= n < len && !filled_2d(n, width as int, height as int, x as int, y + 1)
                    implies #[trigger] map@[n] == start[n] by {
                    if n == idx as int {
                        lemma_cell_in_grid(x as int, y as int, width as int, height as int);
                    }
                }
            }
            y += 1;
        }
        x += 1;
    }
    proof {
        assert forall|n: int|
            width * rows(len, width as int) <= n < len implies #[trigger] map@[n] == start[n] by {}
    }
}

/// Writes `sample(x, y, z)` into the cell `x + width * y + width * height * z`
/// of `map`, for every `x` below `width`, `y` below `height` and every whole
/// layer `z` of `width * height` cells. Cells past the last whole layer keep
/// their values; when a layer has more cells than `usize` can count, no
/// layer fits and nothing is written.
pub fn fill_grid_3d<T: Copy, F: Fn(usize, usize, usize) -> T>(
    map: &mut [T],
    width: usize,
    height: usize,
    sample: &F,
)
    requires
        forall|x: usize, y: usize, z: usize| #[trigger] sample.requires((x, y, z)),
    ensures
        final(map)@.len() == old(map)@.len(),
        forall|x: int, y: int, z: int|
            0 <= x < width && 0 <= y < height && 0 <= z < rows(
                old(map)@.len() as int,
                width * height,
            ) ==> sample.ensures(
                (x as usize, y as usize, z as usize),
                #[trigger] final(map)@[x + width * y + width * height * z],
            ),
        forall|n: int|
            width * height * rows(old(map)@.len() as int, width * height) <= n < old(map)@.len()
                ==> #[trigger] final(map)@[n] == old(map)@[n],
{
    if width == 0 {
        return;
    }
    let ghost len = map@.len() as int;
    let total = map.len();
    let plane = match width.checked_mul(height) {
        Some(p) => p,
        None => {
            // a layer has more cells than any buffer can hold
            proof {
                assert(len == total);
                assert(len < width * height);
                assert(len == 0 * (width * height) + len);
                vstd::arithmetic::div_mod::lemma_fundamental_div_mod_converse(
                    len,
                    width * height,
                    0,
                    len,
                );
            }
            return;
        },
    };
    let layer = |c: usize, z: usize| -> (r: T)
        ensures
            sample.ensures(((c % width) as usize, (c / width) as usize, z), r),
        { sample(c % width, c / width, z) };
    fill_grid_2d(map, plane, &layer);
    proof {
        assert forall|x: int, y: int, z: int|
            0 <= x < width && 0 <= y < height && 0 <= z < rows(len, width * height) implies sample.ensures(
                (x as usize, y as usize, z as usize),
                #[trigger] map@[x + width * y + width * height * z],
            ) by {
            lemma_cell_in_grid(x, y, width as int, height as int);
            let c = x + width * y;
            assert(layer.ensures((c as usize, z as usize), map@[c + plane * z]));
            assert(c + plane * z == x + width * y + width * height * z) by (nonlinear_arith)
                requires
                    c == x + width * y,
                    plane == width * height,
            ;
        }
    }
}

/// A cell of the grid lies inside it, and its column and row can be read
/// back from its index.
proof fn lemma_cell_in_grid(x: int, y: int, width: int, height: int)
    requires
        0 <= x < width,
        0 <= y < height,
    ensures
        0 <= x + width * y < width * height,
        (x + width * y) % width == x,
        (x + width * y) / width == y,
{
    assert(0 <= x + width * y < width * height) by (nonlinear_arith)
        requires
            0 <= x < width,
            0 <= y < height,
    ;
    assert(x + width * y == y * width + x) by (nonlinear_arith);
    vstd::arithmetic::div_mod::lemma_fundamental_div_mod_converse(x + width * y, width, y, x);
}

/// Two cells with different columns or rows have different indices.
proof fn lemma_cells_distinct(a: int, b: int, x: int, y: int, width: int)
    requires
        0 <= a < width,
        0 <= x < width,
        0 <= b,
        0 <= y,
        a != x || b != y,
    ensures
        a + width * b != x + width * y,
{
    if a + width * b == x + width * y {
        assert(a + width * b == b * width + a) by (nonlinear_arith);
        assert(x + width * y == y * width + x) by (nonlinear_arith);
        vstd::arithmetic::div_mod::lemma_fundamental_div_mod_converse(a + width * b, width, b, a);
        vstd::arithmetic::div_mod::lemma_fundamental_div_mod_converse(x + width * y, width, y, x);
    }
}

} // verus!
