//! Padding of a surface to whole 4x4 blocks by repeating its last column
//! and its last row.
//!
//! A surface is a row-major buffer of 4-byte pixels.

use vstd::arithmetic::div_mod::{lemma_fundamental_div_mod, lemma_fundamental_div_mod_converse};
use vstd::prelude::*;

verus! {

/// The smallest multiple of 4 that is at least `extent`.
pub open spec fn padded_extent(extent: nat) -> nat {
    if extent % 4 == 0 {
        extent
    } else {
        extent + (4 - extent % 4) as nat
    }
}

/// `i` where it lies inside `0..extent`, the last index otherwise.
pub open spec fn clamp_index(i: int, extent: int) -> int {
    if i < extent {
        i
    } else {
        extent - 1
    }
}

/// A `width` x `height` surface holds four bytes per pixel.
pub open spec fn is_surface(pixels: Seq<u8>, width: nat, height: nat) -> bool {
    width >= 1 && height >= 1 && pixels.len() == 4 * width * height
}

/// The surface grown to `new_width` x `new_height`: the pixel at `(x, y)`
/// is the source pixel at `(x, y)` with each coordinate clamped to the
/// source, so that the last column and the last row repeat.
pub open spec fn spec_extend(
    pixels: Seq<u8>,
    width: nat,
    height: nat,
    new_width: nat,
    new_height: nat,
) -> Seq<u8> {
    Seq::new(
        4 * new_width * new_height,
        |k: int|
            {
                let x = (k / 4) % (new_width as int);
                let y = (k / 4) / (new_width as int);
                pixels[4 * (clamp_index(y, height as int) * width + clamp_index(x, width as int))
                    + k % 4]
            },
    )
}

/// The surface with its width padded to a multiple of 4.
pub open spec fn spec_pad_width(pixels: Seq<u8>, width: nat, height: nat) -> Seq<u8> {
    spec_extend(pixels, width, height, padded_extent(width), height)
}

/// The surface with its height padded to a multiple of 4.
pub open spec fn spec_pad_height(pixels: Seq<u8>, width: nat, height: nat) -> Seq<u8> {
    spec_extend(pixels, width, height, width, padded_extent(height))
}

/// The surface padded to whole blocks: the width first, then the height of
/// the widened surface.
pub open spec fn spec_pad(pixels: Seq<u8>, width: nat, height: nat) -> Seq<u8> {
    spec_pad_height(spec_pad_width(pixels, width, height), padded_extent(width), height)
}

proof fn lemma_cell(x: int, y: int, c: int, row: int)
    requires
        0 <= x < row,
        0 <= y,
        0 <= c < 4,
    ensures
        (4 * (y * row + x) + c) / 4 == y * row + x,
        (4 * (y * row + x) + c) % 4 == c,
        (y * row + x) % row == x,
        (y * row + x) / row == y,
        0 <= y * row + x,
{
    assert(0 <= y * row) by (nonlinear_arith)
        requires
            0 <= y,
            0 < row,
    ;
    lemma_fundamental_div_mod_converse(4 * (y * row + x) + c, 4, y * row + x, c);
    lemma_fundamental_div_mod_converse(y * row + x, row, y, x);
}

proof fn lemma_inside(x: int, y: int, width: int, height: int)
    requires
        0 <= x < width,
        0 <= y < height,
    ensures
        0 <= y * width + x < width * height,
        (y + 1) * width <= width * height,
        y * width + width == (y + 1) * width,
{
    assert(0 <= y * width && (y + 1) * width <= width * height && y * width + width == (y + 1)
        * width) by (nonlinear_arith)
        requires
            0 <= y < height,
            0 < width,
    ;
}

proof fn lemma_cell_of(k: int, row: int, rows: int)
    requires
        0 < row,
        0 <= k < 4 * row * rows,
    ensures
        0 <= (k / 4) % row < row,
        0 <= (k / 4) / row < rows,
        0 <= k % 4 < 4,
        k == 4 * (((k / 4) / row) * row + (k / 4) % row) + k % 4,
{
    let p = k / 4;
    lemma_fundamental_div_mod(p, row);
    assert(row * (p / row) == (p / row) * row) by (nonlinear_arith);
    assert(p < row * rows) by (nonlinear_arith)
        requires
            4 * p <= k,
            k < 4 * row * rows,
            0 < row,
    ;
    assert(0 <= p / row < rows) by (nonlinear_arith)
        requires
            0 <= p < row * rows,
            0 < row,
            p == row * (p / row) + p % row,
            0 <= p % row < row,
    ;
}

/// Every pixel of the grown surface is the clamped source pixel.
pub proof fn lemma_extend_pixel(
    pixels: Seq<u8>,
    width: nat,
    height: nat,
    new_width: nat,
    new_height: nat,
    x: nat,
    y: nat,
    c: nat,
)
    requires
        x < new_width,
        y < new_height,
        c < 4,
    ensures
        4 * (y * new_width + x) + c < spec_extend(pixels, width, height, new_width, new_height).len(),
        spec_extend(pixels, width, height, new_width, new_height)[(4 * (y * new_width + x)
            + c) as int] == pixels[4 * (clamp_index(y as int, height as int) * width + clamp_index(
            x as int,
            width as int,
        )) + c],
{
    lemma_cell(x as int, y as int, c as int, new_width as int);
    lemma_inside(x as int, y as int, new_width as int, new_height as int);
    assert(4 * (new_width * new_height) == 4 * new_width * new_height) by (nonlinear_arith);
}

/// Growing a surface to its own extents changes nothing.
pub proof fn lemma_extend_same(pixels: Seq<u8>, width: nat, height: nat)
    requires
        is_surface(pixels, width, height),
    ensures
        spec_extend(pixels, width, height, width, height) == pixels,
{
    let grown = spec_extend(pixels, width, height, width, height);
    assert forall|k: int| 0 <= k < grown.len() implies grown[k] == pixels[k] by {
        lemma_cell_of(k, width as int, height as int);
    }
    assert(grown =~= pixels);
}

/// A padded extent is a multiple of 4, at least the extent, and padding it
/// again changes nothing.
pub proof fn lemma_padded_extent(extent: nat)
    ensures
        padded_extent(extent) % 4 == 0,
        extent <= padded_extent(extent) < extent + 4,
        padded_extent(padded_extent(extent)) == padded_extent(extent),
        extent % 4 == 0 ==> padded_extent(extent) == extent,
{
}

/// The two padding steps together clamp both coordinates at once.
pub proof fn lemma_pad_is_extend(pixels: Seq<u8>, width: nat, height: nat)
    requires
        is_surface(pixels, width, height),
    ensures
        spec_pad(pixels, width, height) == spec_extend(
            pixels,
            width,
            height,
            padded_extent(width),
            padded_extent(height),
        ),
        is_surface(spec_pad(pixels, width, height), padded_extent(width), padded_extent(height)),
{
    let wide_w = padded_extent(width);
    let tall_h = padded_extent(height);
    let wide = spec_pad_width(pixels, width, height);
    let both = spec_pad(pixels, width, height);
    let direct = spec_extend(pixels, width, height, wide_w, tall_h);
    assert(4 * wide_w * tall_h == 4 * (wide_w * tall_h)) by (nonlinear_arith);
    assert forall|k: int| 0 <= k < both.len() implies both[k] == direct[k] by {
        lemma_cell_of(k, wide_w as int, tall_h as int);
        let x = (k / 4) % (wide_w as int);
        let y = (k / 4) / (wide_w as int);
        let sy = clamp_index(y, height as int);
        lemma_extend_pixel(pixels, width, height, wide_w, height, x as nat, sy as nat, (k % 4) as nat);
    }
    assert(both =~= direct);
}

/// Padding is idempotent: a surface whose extents are multiples of 4 is
/// left as it is, so padding a padded surface changes nothing.
pub proof fn lemma_pad_idempotent(pixels: Seq<u8>, width: nat, height: nat)
    requires
        is_surface(pixels, width, height),
    ensures
        width % 4 == 0 && height % 4 == 0 ==> spec_pad(pixels, width, height) == pixels,
        spec_pad(spec_pad(pixels, width, height), padded_extent(width), padded_extent(height))
            == spec_pad(pixels, width, height),
{
    lemma_pad_is_extend(pixels, width, height);
    if width % 4 == 0 && height % 4 == 0 {
        lemma_extend_same(pixels, width, height);
    }
    let once = spec_pad(pixels, width, height);
    lemma_pad_is_extend(once, padded_extent(width), padded_extent(height));
    lemma_extend_same(once, padded_extent(width), padded_extent(height));
}

/// Grows a surface to `new_width` x `new_height` by repeating its last
/// column and its last row.
fn extend_surface(
    pixels: &Vec<u8>,
    width: usize,
    height: usize,
    new_width: usize,
    new_height: usize,
) -> (grown: Vec<u8>)
    requires
        is_surface(pixels@, width as nat, height as nat),
        width <= new_width,
        height <= new_height,
        4 * new_width * new_height <= usize::MAX,
    ensures
        grown@ == spec_extend(
            pixels@,
            width as nat,
            height as nat,
            new_width as nat,
            new_height as nat,
        ),
{
    let ghost goal = spec_extend(
        pixels@,
        width as nat,
        height as nat,
        new_width as nat,
        new_height as nat,
    );
    let total: usize = pixels.len();
    let mut grown: Vec<u8> = Vec::new();
    let mut y: usize = 0;
    while y < new_height
        invariant
            y <= new_height,
            total == pixels@.len(),
            is_surface(pixels@, width as nat, height as nat),
            width <= new_width,
            height <= new_height,
            4 * new_width * new_height <= usize::MAX,
            goal == spec_extend(
                pixels@,
                width as nat,
                height as nat,
                new_width as nat,
                new_height as nat,
            ),
            grown@.len() == 4 * (y * new_width),
            grown@.len() <= goal.len(),
            forall|k: int| 0 <= k < grown@.len() ==> grown@[k] == goal[k],
        decreases new_height - y,
    {
        let source_y: usize = if y < height {
            y
        } else {
            height - 1
        };
        let mut x: usize = 0;
        while x < new_width
            invariant
                x <= new_width,
                y < new_height,
                total == pixels@.len(),
                source_y == clamp_index(y as int, height as int),
                is_surface(pixels@, width as nat, height as nat),
                width <= new_width,
                height <= new_height,
                4 * new_width * new_height <= usize::MAX,
                goal == spec_extend(
                    pixels@,
                    width as nat,
                    height as nat,
                    new_width as nat,
                    new_height as nat,
                ),
                grown@.len() == 4 * (y * new_width + x),
                grown@.len() <= goal.len(),
                forall|k: int| 0 <= k < grown@.len() ==> grown@[k] == goal[k],
            decreases new_width - x,
        {
            let source_x: usize = if x < width {
                x
            } else {
                width - 1
            };
            proof {
                lemma_inside(source_x as int, source_y as int, width as int, height as int);
                assert(0 <= source_y * width <= source_y * width + source_x) by (nonlinear_arith)
                    requires
                        0 <= source_y,
                        0 <= width,
                        0 <= source_x,
                ;
                lemma_inside(x as int, y as int, new_width as int, new_height as int);
                assert(4 * (width * height) == 4 * width * height) by (nonlinear_arith);
                assert(4 * (new_width * new_height) == 4 * new_width * new_height)
                    by (nonlinear_arith);
                lemma_extend_pixel(
                    pixels@,
                    width as nat,
                    height as nat,
                    new_width as nat,
                    new_height as nat,
                    x as nat,
                    y as nat,
                    0,
                );
                lemma_extend_pixel(
                    pixels@,
                    width as nat,
                    height as nat,
                    new_width as nat,
                    new_height as nat,
                    x as nat,
                    y as nat,
                    1,
                );
                lemma_extend_pixel(
                    pixels@,
                    width as nat,
                    height as nat,
                    new_width as nat,
                    new_height as nat,
                    x as nat,
                    y as nat,
                    2,
                );
                lemma_extend_pixel(
                    pixels@,
                    width as nat,
                    height as nat,
                    new_width as nat,
                    new_height as nat,
                    x as nat,
                    y as nat,
                    3,
                );
            }
            let at: usize = 4 * (source_y * width + source_x);
            grown.push(pixels[at]);
            grown.push(pixels[at + 1]);
            grown.push(pixels[at + 2]);
            grown.push(pixels[at + 3]);
            x = x + 1;
        }
        proof {
            assert(y * new_width + new_width == (y + 1) * new_width) by (nonlinear_arith);
        }
        y = y + 1;
    }
    proof {
        assert(4 * (new_height * new_width) == 4 * new_width * new_height) by (nonlinear_arith);
        assert(grown@ =~= goal);
    }
    grown
}

/// Pads the width of a surface to a multiple of 4: in every row the last
/// pixel is repeated, right after the row's last real pixel. Returns the
/// padded surface and its width.
pub fn pad_width(pixels: Vec<u8>, width: u32, height: u32) -> (padded: (Vec<u8>, u32))
    requires
        is_surface(pixels@, width as nat, height as nat),
        padded_extent(width as nat) <= u32::MAX,
        4 * padded_extent(width as nat) * height <= usize::MAX,
    ensures
        padded.0@ == spec_pad_width(pixels@, width as nat, height as nat),
        padded.1 == padded_extent(width as nat),
        width % 4 == 0 ==> padded.0@ == pixels@,
{
    let missing: u32 = 4 - width % 4;
    if missing == 4 {
        proof {
            lemma_extend_same(pixels@, width as nat, height as nat);
        }
        (pixels, width)
    } else {
        let new_width: u32 = width + missing;
        let grown = extend_surface(
            &pixels,
            width as usize,
            height as usize,
            new_width as usize,
            height as usize,
        );
        (grown, new_width)
    }
}

/// Pads the height of a surface to a multiple of 4: the last row is
/// repeated after the end of the buffer. Returns the padded surface and
/// its height.
pub fn pad_height(pixels: Vec<u8>, width: u32, height: u32) -> (padded: (Vec<u8>, u32))
    requires
        is_surface(pixels@, width as nat, height as nat),
        padded_extent(height as nat) <= u32::MAX,
        4 * width * padded_extent(height as nat) <= usize::MAX,
    ensures
        padded.0@ == spec_pad_height(pixels@, width as nat, height as nat),
        padded.1 == padded_extent(height as nat),
        height % 4 == 0 ==> padded.0@ == pixels@,
{
    let missing: u32 = 4 - height % 4;
    if missing == 4 {
        proof {
            lemma_extend_same(pixels@, width as nat, height as nat);
        }
        (pixels, height)
    } else {
        let new_height: u32 = height + missing;
        let grown = extend_surface(
            &pixels,
            width as usize,
            height as usize,
            width as usize,
            new_height as usize,
        );
        (grown, new_height)
    }
}

/// Pads a surface to whole 4x4 blocks, the width first and then the height
/// of the widened surface. Returns the padded surface, its width and its
/// height.
pub fn pad_to_blocks(pixels: Vec<u8>, width: u32, height: u32) -> (padded: (Vec<u8>, u32, u32))
    requires
        is_surface(pixels@, width as nat, height as nat),
        padded_extent(width as nat) <= u32::MAX,
        padded_extent(height as nat) <= u32::MAX,
        4 * padded_extent(width as nat) * padded_extent(height as nat) <= usize::MAX,
    ensures
        padded.0@ == spec_pad(pixels@, width as nat, height as nat),
        padded.1 == padded_extent(width as nat),
        padded.2 == padded_extent(height as nat),
        is_surface(padded.0@, padded.1 as nat, padded.2 as nat),
        padded.1 % 4 == 0 && padded.2 % 4 == 0,
        width % 4 == 0 && height % 4 == 0 ==> padded.0@ == pixels@,
{
    proof {
        lemma_padded_extent(width as nat);
        lemma_padded_extent(height as nat);
        assert(4 * padded_extent(width as nat) * height <= 4 * padded_extent(width as nat)
            * padded_extent(height as nat)) by (nonlinear_arith)
            requires
                height <= padded_extent(height as nat),
        ;
        lemma_pad_is_extend(pixels@, width as nat, height as nat);
        lemma_pad_idempotent(pixels@, width as nat, height as nat);
        assert(4 * padded_extent(width as nat) * height == 4 * (padded_extent(width as nat)
            * height)) by (nonlinear_arith);
    }
    let (wide, new_width) = pad_width(pixels, width, height);
    let (tall, new_height) = pad_height(wide, new_width, height);
    (tall, new_width, new_height)
}

} // verus!
