//! The tray icon with the temperature in it.
//!
//! What comes in is what a text renderer leaves behind: gray levels on a
//! black ground, with no alpha at all. What goes out is premultiplied color,
//! which is the form a 32-bit icon bitmap is read in.

use vstd::prelude::*;

verus! {

/// The ink the number is drawn in where it is not tinted.
pub const INK: u32 = 0x00ff_ffff;

/// The dark edge drawn around the digits, so they hold their shape against a
/// bright band color and against a taskbar of any shade.
pub const OUTLINE: u32 = 0x0000_0000;

/// Coverage above this counts as ink.
pub const INKED: u8 = 24;

/// The smallest icon that can be drawn.
pub const SMALLEST: i32 = 8;

/// The largest icon whose pixels can be counted.
pub const LARGEST: i32 = 46340;

/// One channel of a color, counted from the lowest.
pub open spec fn channel(color: u32, k: int) -> int {
    if k == 0 {
        color as int % 256
    } else if k == 1 {
        color as int / 256 % 256
    } else if k == 2 {
        color as int / 65536 % 256
    } else {
        color as int / 16777216
    }
}

/// A pixel out of its four channels.
pub open spec fn pixel(alpha: int, red: int, green: int, blue: int) -> u32 {
    (alpha * 16777216 + red * 65536 + green * 256 + blue) as u32
}

/// The lesser of a number and 255.
pub open spec fn capped(n: int) -> int {
    if n > 255 {
        255
    } else {
        n
    }
}

/// A color with its channels scaled by an alpha.
pub open spec fn scaled(color: u32, alpha: int) -> u32 {
    let a = capped(alpha);
    pixel(
        a,
        channel(color, 2) * a / 255,
        channel(color, 1) * a / 255,
        channel(color, 0) * a / 255,
    )
}

/// One channel of a source laid over a destination.
pub open spec fn laid(source: int, destination: int, inverse: int) -> int {
    capped(source + destination * inverse / 255)
}

/// Source over destination, both premultiplied.
pub open spec fn composed(source: u32, destination: u32) -> u32 {
    let inverse = 255 - channel(source, 3);
    pixel(
        laid(channel(source, 3), channel(destination, 3), inverse),
        laid(channel(source, 2), channel(destination, 2), inverse),
        laid(channel(source, 1), channel(destination, 1), inverse),
        laid(channel(source, 0), channel(destination, 0), inverse),
    )
}

/// Whether nothing in a pixel is brighter than its own alpha: the rule for
/// premultiplied color.
pub open spec fn premultiplied_pixel(p: u32) -> bool {
    channel(p, 0) <= channel(p, 3) && channel(p, 1) <= channel(p, 3) && channel(p, 2) <= channel(
        p,
        3,
    )
}

proof fn channels_of_a_pixel(alpha: int, red: int, green: int, blue: int)
    requires
        0 <= alpha <= 255,
        0 <= red <= 255,
        0 <= green <= 255,
        0 <= blue <= 255,
    ensures
        channel(pixel(alpha, red, green, blue), 3) == alpha,
        channel(pixel(alpha, red, green, blue), 2) == red,
        channel(pixel(alpha, red, green, blue), 1) == green,
        channel(pixel(alpha, red, green, blue), 0) == blue,
{
    let low = green * 256 + blue;
    let rest = red * 65536 + low;
    let n = alpha * 16777216 + rest;
    assert(0 <= low < 65536 && 0 <= rest < 16777216 && 0 <= n <= u32::MAX);
    assert(n == pixel(alpha, red, green, blue));
    vstd::arithmetic::div_mod::lemma_fundamental_div_mod_converse(n, 16777216, alpha, rest);
    vstd::arithmetic::div_mod::lemma_fundamental_div_mod_converse(
        n,
        65536,
        alpha * 256 + red,
        low,
    );
    vstd::arithmetic::div_mod::lemma_fundamental_div_mod_converse(
        alpha * 256 + red,
        256,
        alpha,
        red,
    );
    vstd::arithmetic::div_mod::lemma_fundamental_div_mod_converse(
        n,
        256,
        alpha * 65536 + red * 256 + green,
        blue,
    );
    vstd::arithmetic::div_mod::lemma_fundamental_div_mod_converse(
        alpha * 65536 + red * 256 + green,
        256,
        alpha * 256 + red,
        green,
    );
}

proof fn a_pixel_is_its_channels(p: u32)
    ensures
        pixel(channel(p, 3), channel(p, 2), channel(p, 1), channel(p, 0)) == p,
        0 <= channel(p, 3) <= 255,
        0 <= channel(p, 2) <= 255,
        0 <= channel(p, 1) <= 255,
        0 <= channel(p, 0) <= 255,
{
}

proof fn scaling_shrinks(c: int, a: int)
    requires
        0 <= c <= 255,
        0 <= a <= 255,
    ensures
        0 <= c * a / 255 <= a,
        a == 255 ==> c * a / 255 == c,
        a == 0 ==> c * a / 255 == 0,
{
    assert(0 <= c * a <= 255 * a) by (nonlinear_arith)
        requires
            0 <= c <= 255,
            0 <= a,
    ;
}

/// Nothing scaled by an alpha is ever brighter than that alpha, and the alpha
/// is the one asked for.
pub proof fn nothing_is_brighter_than_its_own_alpha(color: u32, alpha: int)
    requires
        0 <= alpha,
    ensures
        premultiplied_pixel(scaled(color, alpha)),
        channel(scaled(color, alpha), 3) == capped(alpha),
{
    let a = capped(alpha);
    scaling_shrinks(channel(color, 2), a);
    scaling_shrinks(channel(color, 1), a);
    scaling_shrinks(channel(color, 0), a);
    channels_of_a_pixel(
        a,
        channel(color, 2) * a / 255,
        channel(color, 1) * a / 255,
        channel(color, 0) * a / 255,
    );
}

/// Something that covers nothing leaves what it is drawn over as it was, and
/// something that covers everything leaves nothing else.
pub proof fn drawing_over_keeps_what_is_not_covered(color: u32, ground: u32)
    ensures
        composed(scaled(color, 0), ground) == ground,
        composed(scaled(color, 255), ground) == scaled(color, 255),
{
    nothing_is_brighter_than_its_own_alpha(color, 0);
    nothing_is_brighter_than_its_own_alpha(color, 255);
    let clear = scaled(color, 0);
    assert(channel(clear, 0) == 0 && channel(clear, 1) == 0 && channel(clear, 2) == 0);
    a_pixel_is_its_channels(ground);
    a_pixel_is_its_channels(scaled(color, 255));
    assert(channel(ground, 0) * 255 / 255 == channel(ground, 0));
    assert(channel(ground, 1) * 255 / 255 == channel(ground, 1));
    assert(channel(ground, 2) * 255 / 255 == channel(ground, 2));
    assert(channel(ground, 3) * 255 / 255 == channel(ground, 3));
}

/// Drawing one premultiplied color over another leaves a premultiplied color.
pub proof fn drawing_over_stays_premultiplied(source: u32, destination: u32)
    requires
        premultiplied_pixel(source),
        premultiplied_pixel(destination),
    ensures
        premultiplied_pixel(composed(source, destination)),
{
    a_pixel_is_its_channels(source);
    a_pixel_is_its_channels(destination);
    let inverse = 255 - channel(source, 3);
    laying_is_monotone(channel(destination, 0), channel(destination, 3), inverse);
    laying_is_monotone(channel(destination, 1), channel(destination, 3), inverse);
    laying_is_monotone(channel(destination, 2), channel(destination, 3), inverse);
    channels_of_a_pixel(
        laid(channel(source, 3), channel(destination, 3), inverse),
        laid(channel(source, 2), channel(destination, 2), inverse),
        laid(channel(source, 1), channel(destination, 1), inverse),
        laid(channel(source, 0), channel(destination, 0), inverse),
    );
}

proof fn laying_is_monotone(low: int, high: int, inverse: int)
    requires
        0 <= low <= high <= 255,
        0 <= inverse <= 255,
    ensures
        0 <= low * inverse / 255 <= high * inverse / 255 <= 255,
{
    assert(0 <= low * inverse <= high * inverse <= 255 * 255) by (nonlinear_arith)
        requires
            0 <= low <= high <= 255,
            0 <= inverse <= 255,
    ;
}

/// A color with its channels scaled by an alpha.
pub fn premultiplied(color: u32, alpha: u32) -> (r: u32)
    ensures
        r == scaled(color, alpha as int),
        premultiplied_pixel(r),
{
    let a: u32 = if alpha > 255 {
        255
    } else {
        alpha
    };
    let red: u32 = color / 65536 % 256;
    let green: u32 = color / 256 % 256;
    let blue: u32 = color % 256;
    proof {
        nothing_is_brighter_than_its_own_alpha(color, alpha as int);
        scaling_shrinks(red as int, a as int);
        scaling_shrinks(green as int, a as int);
        scaling_shrinks(blue as int, a as int);
        products_fit(red as int, a as int);
        products_fit(green as int, a as int);
        products_fit(blue as int, a as int);
    }
    a * 16777216 + (red * a / 255) * 65536 + (green * a / 255) * 256 + blue * a / 255
}

proof fn products_fit(c: int, a: int)
    requires
        0 <= c <= 255,
        0 <= a <= 255,
    ensures
        0 <= c * a <= 65025,
{
    assert(0 <= c * a <= 255 * 255) by (nonlinear_arith)
        requires
            0 <= c <= 255,
            0 <= a <= 255,
    ;
}

/// One channel of a source laid over a destination.
fn lay(source: u32, destination: u32, inverse: u32) -> (r: u32)
    requires
        source <= 255,
        destination <= 255,
        inverse <= 255,
    ensures
        r == laid(source as int, destination as int, inverse as int),
        r <= 255,
{
    proof {
        products_fit(destination as int, inverse as int);
    }
    let sum: u32 = source + destination * inverse / 255;
    if sum > 255 {
        255
    } else {
        sum
    }
}

/// Source over destination, both premultiplied.
pub fn over(source: u32, destination: u32) -> (r: u32)
    ensures
        r == composed(source, destination),
{
    let inverse: u32 = 255 - source / 16777216;
    let alpha = lay(source / 16777216, destination / 16777216, inverse);
    let red = lay(source / 65536 % 256, destination / 65536 % 256, inverse);
    let green = lay(source / 256 % 256, destination / 256 % 256, inverse);
    let blue = lay(source % 256, destination % 256, inverse);
    alpha * 16777216 + red * 65536 + green * 256 + blue
}

/// How much of a pixel a glyph covered: the brightest channel of what the
/// renderer left there.
pub open spec fn brightest(p: u32) -> u8 {
    let low = if channel(p, 0) > channel(p, 1) {
        channel(p, 0)
    } else {
        channel(p, 1)
    };
    (if low > channel(p, 2) {
        low
    } else {
        channel(p, 2)
    }) as u8
}

/// How much of a pixel a glyph covered.
fn coverage_of(p: u32) -> (r: u8)
    ensures
        r == brightest(p),
{
    let red: u32 = p / 65536 % 256;
    let green: u32 = p / 256 % 256;
    let blue: u32 = p % 256;
    let low: u32 = if blue > green {
        blue
    } else {
        green
    };
    if low > red {
        low as u8
    } else {
        red as u8
    }
}

/// Turns what the renderer left behind into premultiplied ink: the brightest
/// channel is read as coverage.
pub fn coverage_to_ink(pixels: &mut Vec<u32>, ink: u32)
    ensures
        final(pixels)@ == old(pixels)@.map_values(|p: u32| scaled(ink, brightest(p) as int)),
{
    let mut i: usize = 0;
    while i < pixels.len()
        invariant
            i <= pixels@.len() == old(pixels)@.len(),
            forall|k: int|
                0 <= k < i ==> (#[trigger] pixels@[k]) == scaled(
                    ink,
                    brightest(old(pixels)@[k]) as int,
                ),
            forall|k: int| i <= k < pixels@.len() ==> (#[trigger] pixels@[k]) == old(pixels)@[k],
        decreases pixels@.len() - i,
    {
        let ink_there = premultiplied(ink, coverage_of(pixels[i]) as u32);
        pixels.set(i, ink_there);
        i += 1;
    }
    proof {
        assert(pixels@ =~= old(pixels)@.map_values(|p: u32| scaled(ink, brightest(p) as int)));
    }
}

/// A share of a height, and at least one pixel.
pub open spec fn share_of(height: int, share: int) -> int {
    if quotient(height, share) < 1 {
        1
    } else {
        quotient(height, share)
    }
}

/// Space to remove between glyphs, which is how three digits get to be a
/// readable size: they are bound by width, not height.
pub open spec fn tightening(height: int, digits: int) -> int {
    if digits <= 1 {
        0
    } else if digits == 2 {
        -share_of(height, 14)
    } else {
        -share_of(height, 9)
    }
}

/// A quotient rounded toward zero.
pub open spec fn quotient(n: int, d: int) -> int {
    if n >= 0 {
        n / d
    } else {
        -((-n) / d)
    }
}

/// Space to remove between glyphs.
pub fn tracking(height: i32, digits: usize) -> (r: i32)
    ensures
        r == tightening(height as int, digits as int),
{
    if digits <= 1 {
        return 0;
    }
    let share: i32 = if digits == 2 {
        14
    } else {
        9
    };
    if height < share {
        -1
    } else {
        -(height / share)
    }
}

/// The coverage at a place, and none beyond the edges.
pub open spec fn ink_at(coverage: Seq<u8>, size: int, x: int, y: int) -> u8 {
    if 0 <= x < size && 0 <= y < size {
        coverage[y * size + x]
    } else {
        0
    }
}

/// The coverage moved by so many pixels. What leaves the icon is lost.
pub open spec fn moved(coverage: Seq<u8>, size: int, dx: int, dy: int) -> Seq<u8> {
    Seq::new(
        (size * size) as nat,
        |i: int| ink_at(coverage, size, i % size - dx, i / size - dy),
    )
}

/// The coverage at a place along a row, or else along a column.
pub open spec fn along(coverage: Seq<u8>, size: int, rows: bool, k: int, j: int) -> u8 {
    if rows {
        ink_at(coverage, size, j, k)
    } else {
        ink_at(coverage, size, k, j)
    }
}

/// Whether a row, or else a column, has ink in it.
pub open spec fn inked(coverage: Seq<u8>, size: int, rows: bool, k: int) -> bool {
    exists|j: int| 0 <= j < size && #[trigger] along(coverage, size, rows, k, j) > INKED
}

/// The first row, or else column, from `k` on that has ink in it, or the size
/// when none has.
pub open spec fn first_inked(coverage: Seq<u8>, size: int, rows: bool, k: int) -> int
    decreases size - k,
{
    if k >= size {
        size
    } else if inked(coverage, size, rows, k) {
        k
    } else {
        first_inked(coverage, size, rows, k + 1)
    }
}

/// The last row, or else column, up to `k` that has ink in it, or -1 when
/// none has.
pub open spec fn last_inked(coverage: Seq<u8>, size: int, rows: bool, k: int) -> int
    decreases k + 1,
{
    if k < 0 {
        -1
    } else if inked(coverage, size, rows, k) {
        k
    } else {
        last_inked(coverage, size, rows, k - 1)
    }
}

/// How far ink between these two lines has to move to sit in the middle.
pub open spec fn to_the_middle(size: int, first: int, last: int) -> int {
    quotient(size - 1 - last - first, 2)
}

/// The same coverage, moved so its ink sits in the middle of the icon. With no
/// ink there is nothing to move.
pub open spec fn centering(coverage: Seq<u8>, size: int) -> Seq<u8> {
    let top = first_inked(coverage, size, true, 0);
    let bottom = last_inked(coverage, size, true, size - 1);
    let left = first_inked(coverage, size, false, 0);
    let right = last_inked(coverage, size, false, size - 1);
    if top >= size {
        coverage
    } else {
        moved(
            coverage,
            size,
            to_the_middle(size, left, right),
            to_the_middle(size, top, bottom),
        )
    }
}

/// The stronger of two coverages.
pub open spec fn stronger(a: u8, b: u8) -> u8 {
    if a > b {
        a
    } else {
        b
    }
}

/// The strongest coverage of a place and the two beside it.
pub open spec fn strongest_of_three(coverage: Seq<u8>, size: int, x: int, y: int) -> u8 {
    stronger(
        stronger(ink_at(coverage, size, x - 1, y), ink_at(coverage, size, x, y)),
        ink_at(coverage, size, x + 1, y),
    )
}

/// The same coverage, one pixel fatter in every direction: each pixel takes
/// the strongest of itself and its eight neighbors.
pub open spec fn fattened(coverage: Seq<u8>, size: int) -> Seq<u8> {
    Seq::new(
        (size * size) as nat,
        |i: int|
            stronger(
                stronger(
                    strongest_of_three(coverage, size, i % size, i / size - 1),
                    strongest_of_three(coverage, size, i % size, i / size),
                ),
                strongest_of_three(coverage, size, i % size, i / size + 1),
            ),
    )
}

/// An edge made hard. A dilated edge keeps the soft alpha of the glyph it came
/// from, and a half-transparent outline is barely an outline.
pub open spec fn hardened(v: u8) -> u8 {
    if v > INKED {
        255
    } else {
        (v * 4) as u8
    }
}

/// The outline's coverage: two rings above the smallest icons, one below,
/// hard.
pub open spec fn halo(glyph: Seq<u8>, size: int) -> Seq<u8> {
    (if size >= 20 {
        fattened(fattened(glyph, size), size)
    } else {
        fattened(glyph, size)
    }).map_values(|v: u8| hardened(v))
}

/// A pixel of the icon: the outline, and the band color of the digit over it.
pub open spec fn digit_pixel(color: u32, glyph: u8, edge: u8) -> u32 {
    let under = if edge > 0 {
        scaled(OUTLINE, edge as int)
    } else {
        0
    };
    if glyph > 0 {
        composed(scaled(color, glyph as int), under)
    } else {
        under
    }
}

/// The icon with a number in it.
pub open spec fn numbered(raw: Seq<u32>, size: int, color: u32) -> Seq<u32> {
    let glyph = centering(raw.map_values(|p: u32| brightest(p)), size);
    let edge = halo(glyph, size);
    Seq::new(raw.len(), |i: int| digit_pixel(color, glyph[i], edge[i]))
}

/// A disc of this coverage painted over what is there, or under it.
pub open spec fn disc_painted(
    pixels: Seq<u32>,
    coverage: Seq<u8>,
    color: u32,
    beneath: bool,
) -> Seq<u32> {
    Seq::new(
        pixels.len(),
        |i: int|
            {
                let disc = scaled(color, coverage[i] as int);
                if beneath {
                    composed(pixels[i], disc)
                } else {
                    composed(disc, pixels[i])
                }
            },
    )
}

/// A place inside the icon has a pixel of its own.
proof fn in_the_grid(x: int, y: int, size: int)
    requires
        0 <= x < size,
        0 <= y < size,
    ensures
        0 <= y * size + x < size * size,
{
    assert(0 <= y * size && y * size + size <= size * size) by (nonlinear_arith)
        requires
            0 <= y < size,
    ;
}

proof fn an_icon_with_pixels_has_a_size(i: int, size: int)
    requires
        0 <= size,
        0 <= i < size * size,
    ensures
        0 < size,
{
    if size == 0 {
        assert(size * size == 0) by (nonlinear_arith)
            requires
                size == 0,
        ;
    }
}

/// A pixel of the icon lies at a place inside it.
proof fn place_of_pixel(i: int, size: int)
    requires
        0 < size,
        0 <= i < size * size,
    ensures
        0 <= i % size < size,
        0 <= i / size < size,
        (i / size) * size + i % size == i,
{
    vstd::arithmetic::div_mod::lemma_fundamental_div_mod(i, size);
    vstd::arithmetic::div_mod::lemma_mod_bound(i, size);
    assert((i / size) * size + i % size == i) by (nonlinear_arith)
        requires
            i == size * (i / size) + i % size,
    ;
    vstd::arithmetic::div_mod::lemma_div_is_ordered_by_denominator(i, 1, size);
    assert(i / size < size) by (nonlinear_arith)
        requires
            0 < size,
            0 <= i < size * size,
            (i / size) * size + i % size == i,
            0 <= i % size,
    ;
    assert(0 <= i / size) by (nonlinear_arith)
        requires
            0 < size,
            0 <= i,
    ;
}

proof fn the_grid_is_small(size: int)
    requires
        0 <= size <= LARGEST,
    ensures
        0 <= size * size <= i32::MAX,
{
    assert(0 <= size * size <= 46340 * 46340) by (nonlinear_arith)
        requires
            0 <= size <= 46340,
    ;
}

/// The coverage at a place, and none beyond the edges.
fn ink(coverage: &Vec<u8>, size: i32, x: i32, y: i32) -> (r: u8)
    requires
        0 <= size <= LARGEST,
        coverage@.len() == size * size,
    ensures
        r == ink_at(coverage@, size as int, x as int, y as int),
{
    if x < 0 || y < 0 || x >= size || y >= size {
        return 0;
    }
    proof {
        in_the_grid(x as int, y as int, size as int);
        the_grid_is_small(size as int);
        assert(0 <= y * size <= y * size + x);
    }
    coverage[(y * size + x) as usize]
}

/// Whether a row, or else a column, has ink in it.
fn has_ink(coverage: &Vec<u8>, size: i32, rows: bool, k: i32) -> (r: bool)
    requires
        0 <= size <= LARGEST,
        coverage@.len() == size * size,
    ensures
        r == inked(coverage@, size as int, rows, k as int),
{
    let mut j: i32 = 0;
    while j < size
        invariant
            0 <= j <= size,
            0 <= size <= LARGEST,
            coverage@.len() == size * size,
            forall|h: int|
                0 <= h < j ==> !(#[trigger] along(coverage@, size as int, rows, k as int, h)
                    > INKED),
        decreases size - j,
    {
        let there = if rows {
            ink(coverage, size, j, k)
        } else {
            ink(coverage, size, k, j)
        };
        if there > INKED {
            proof {
                assert(along(coverage@, size as int, rows, k as int, j as int) > INKED);
            }
            return true;
        }
        j += 1;
    }
    false
}

/// The first row, or else column, that has ink in it, or the size.
fn find_first(coverage: &Vec<u8>, size: i32, rows: bool) -> (r: i32)
    requires
        0 <= size <= LARGEST,
        coverage@.len() == size * size,
    ensures
        r == first_inked(coverage@, size as int, rows, 0),
        0 <= r <= size,
{
    let mut k: i32 = 0;
    while k < size && !has_ink(coverage, size, rows, k)
        invariant
            0 <= k <= size,
            0 <= size <= LARGEST,
            coverage@.len() == size * size,
            first_inked(coverage@, size as int, rows, 0) == first_inked(
                coverage@,
                size as int,
                rows,
                k as int,
            ),
        decreases size - k,
    {
        k += 1;
    }
    k
}

/// The last row, or else column, that has ink in it, or -1.
fn find_last(coverage: &Vec<u8>, size: i32, rows: bool) -> (r: i32)
    requires
        0 <= size <= LARGEST,
        coverage@.len() == size * size,
    ensures
        r == last_inked(coverage@, size as int, rows, size - 1),
        -1 <= r < size,
{
    let mut k: i32 = size - 1;
    while k >= 0 && !has_ink(coverage, size, rows, k)
        invariant
            -1 <= k < size,
            0 <= size <= LARGEST,
            coverage@.len() == size * size,
            last_inked(coverage@, size as int, rows, size - 1) == last_inked(
                coverage@,
                size as int,
                rows,
                k as int,
            ),
        decreases k + 1,
    {
        k -= 1;
    }
    k
}

/// Half a number, rounded toward zero.
fn half(n: i32) -> (r: i32)
    requires
        n > i32::MIN,
    ensures
        r == quotient(n as int, 2),
{
    if n >= 0 {
        n / 2
    } else {
        -((-n) / 2)
    }
}

/// The same coverage, moved so its ink sits in the middle of the icon.
pub fn centered(coverage: &Vec<u8>, size: i32) -> (r: Vec<u8>)
    requires
        0 <= size <= LARGEST,
        coverage@.len() == size * size,
    ensures
        r@ == centering(coverage@, size as int),
        r@.len() == coverage@.len(),
{
    let top = find_first(coverage, size, true);
    if top >= size {
        return copy_of(coverage);
    }
    let bottom = find_last(coverage, size, true);
    let left = find_first(coverage, size, false);
    let right = find_last(coverage, size, false);
    let dy: i32 = half(size - 1 - bottom - top);
    let dx: i32 = half(size - 1 - right - left);
    let mut r: Vec<u8> = Vec::new();
    let mut i: usize = 0;
    proof {
        the_grid_is_small(size as int);
    }
    while i < coverage.len()
        invariant
            i <= coverage@.len(),
            0 < size <= LARGEST,
            coverage@.len() == size * size,
            size * size <= i32::MAX,
            -LARGEST <= dx <= LARGEST,
            -LARGEST <= dy <= LARGEST,
            r@.len() == i,
            forall|k: int|
                0 <= k < i ==> (#[trigger] r@[k]) == moved(
                    coverage@,
                    size as int,
                    dx as int,
                    dy as int,
                )[k],
        decreases coverage@.len() - i,
    {
        proof {
            place_of_pixel(i as int, size as int);
        }
        let x: i32 = (i % (size as usize)) as i32;
        let y: i32 = (i / (size as usize)) as i32;
        r.push(ink(coverage, size, x - dx, y - dy));
        i += 1;
    }
    proof {
        assert(r@ =~= moved(coverage@, size as int, dx as int, dy as int));
    }
    r
}

/// A copy of a coverage.
fn copy_of(coverage: &Vec<u8>) -> (r: Vec<u8>)
    ensures
        r@ == coverage@,
{
    let r = coverage.clone();
    proof {
        assert(r@ =~= coverage@);
    }
    r
}

/// The stronger of two coverages.
fn max_of(a: u8, b: u8) -> (r: u8)
    ensures
        r == stronger(a, b),
{
    if a > b {
        a
    } else {
        b
    }
}

/// The strongest coverage of a place and the two beside it.
fn strongest(coverage: &Vec<u8>, size: i32, x: i32, y: i32) -> (r: u8)
    requires
        0 < size <= LARGEST,
        coverage@.len() == size * size,
        0 <= x < size,
    ensures
        r == strongest_of_three(coverage@, size as int, x as int, y as int),
{
    max_of(
        max_of(ink(coverage, size, x - 1, y), ink(coverage, size, x, y)),
        ink(coverage, size, x + 1, y),
    )
}

/// The same coverage, one pixel fatter in every direction.
pub fn grown_by_one(coverage: &Vec<u8>, size: i32) -> (r: Vec<u8>)
    requires
        0 <= size <= LARGEST,
        coverage@.len() == size * size,
    ensures
        r@ == fattened(coverage@, size as int),
        r@.len() == coverage@.len(),
{
    let mut r: Vec<u8> = Vec::new();
    let mut i: usize = 0;
    proof {
        the_grid_is_small(size as int);
    }
    while i < coverage.len()
        invariant
            i <= coverage@.len(),
            0 <= size <= LARGEST,
            coverage@.len() == size * size,
            size * size <= i32::MAX,
            r@.len() == i,
            forall|k: int|
                0 <= k < i ==> (#[trigger] r@[k]) == fattened(coverage@, size as int)[k],
        decreases coverage@.len() - i,
    {
        proof {
            an_icon_with_pixels_has_a_size(i as int, size as int);
            place_of_pixel(i as int, size as int);
        }
        let x: i32 = (i % (size as usize)) as i32;
        let y: i32 = (i / (size as usize)) as i32;
        r.push(
            max_of(
                max_of(strongest(coverage, size, x, y - 1), strongest(coverage, size, x, y)),
                strongest(coverage, size, x, y + 1),
            ),
        );
        i += 1;
    }
    proof {
        assert(r@ =~= fattened(coverage@, size as int));
    }
    r
}

/// The outline's coverage.
fn outline_of(glyph: &Vec<u8>, size: i32) -> (r: Vec<u8>)
    requires
        0 < size <= LARGEST,
        glyph@.len() == size * size,
    ensures
        r@ == halo(glyph@, size as int),
        r@.len() == glyph@.len(),
{
    let once = grown_by_one(glyph, size);
    let soft = if size >= 20 {
        grown_by_one(&once, size)
    } else {
        once
    };
    let mut r: Vec<u8> = Vec::new();
    let mut i: usize = 0;
    while i < soft.len()
        invariant
            i <= soft@.len(),
            r@.len() == i,
            forall|k: int| 0 <= k < i ==> (#[trigger] r@[k]) == hardened(soft@[k]),
        decreases soft@.len() - i,
    {
        let v: u8 = soft[i];
        r.push(
            if v > INKED {
                255
            } else {
                v * 4
            },
        );
        i += 1;
    }
    proof {
        assert(r@ =~= halo(glyph@, size as int));
    }
    r
}

/// A disc of this coverage, painted over or under what is there.
///
/// Under is what puts a number inside the dot: the digits are rendered first
/// as ink and the color goes beneath them.
pub fn paint_disc(pixels: &mut Vec<u32>, coverage: &Vec<u8>, color: u32, beneath: bool)
    requires
        old(pixels)@.len() == coverage@.len(),
    ensures
        final(pixels)@ == disc_painted(old(pixels)@, coverage@, color, beneath),
{
    let mut i: usize = 0;
    while i < pixels.len()
        invariant
            i <= pixels@.len() == old(pixels)@.len() == coverage@.len(),
            forall|k: int|
                0 <= k < i ==> (#[trigger] pixels@[k]) == disc_painted(
                    old(pixels)@,
                    coverage@,
                    color,
                    beneath,
                )[k],
            forall|k: int| i <= k < pixels@.len() ==> (#[trigger] pixels@[k]) == old(pixels)@[k],
        decreases pixels@.len() - i,
    {
        let disc = premultiplied(color, coverage[i] as u32);
        let there = pixels[i];
        let painted = if beneath {
            over(there, disc)
        } else {
            over(disc, there)
        };
        pixels.set(i, painted);
        i += 1;
    }
    proof {
        assert(pixels@ =~= disc_painted(old(pixels)@, coverage@, color, beneath));
    }
}

/// The dot, over whatever is already there.
pub fn fill_disc(pixels: &mut Vec<u32>, coverage: &Vec<u8>, color: u32)
    requires
        old(pixels)@.len() == coverage@.len(),
    ensures
        final(pixels)@ == disc_painted(old(pixels)@, coverage@, color, false),
{
    paint_disc(pixels, coverage, color, false);
}

/// The icon's pixels: the number where one was drawn, and the disc alone where
/// none was.
pub open spec fn rendered(
    raw: Seq<u32>,
    size: int,
    color: u32,
    drawn: bool,
    disc: Seq<u8>,
) -> Seq<u32> {
    if drawn {
        numbered(raw, size, color)
    } else {
        disc_painted(
            raw.map_values(|p: u32| scaled(INK, brightest(p) as int)),
            disc,
            color,
            false,
        )
    }
}

/// The icon's pixels, as premultiplied color, out of what the text renderer
/// left behind. An impossible size is refused rather than drawn badly.
///
/// `drawn` is whether the renderer got a number down, and `disc` how much of
/// each pixel a disc filling the icon covers.
pub fn render(size: i32, color: u32, raw: &Vec<u32>, drawn: bool, disc: &Vec<u8>) -> (r: Option<
    Vec<u32>,
>)
    requires
        size <= LARGEST,
        size >= SMALLEST ==> raw@.len() == size * size && disc@.len() == size * size,
    ensures
        match r {
            Some(pixels) => {
                &&& size >= SMALLEST
                &&& pixels@ == rendered(raw@, size as int, color, drawn, disc@)
            },
            None => size < SMALLEST,
        },
{
    if size < SMALLEST {
        return None;
    }
    if !drawn {
        let mut pixels = raw.clone();
        proof {
            assert(pixels@ =~= raw@);
        }
        coverage_to_ink(&mut pixels, INK);
        fill_disc(&mut pixels, disc, color);
        return Some(pixels);
    }
    let mut coverage: Vec<u8> = Vec::new();
    let mut i: usize = 0;
    while i < raw.len()
        invariant
            i <= raw@.len(),
            coverage@.len() == i,
            forall|k: int| 0 <= k < i ==> (#[trigger] coverage@[k]) == brightest(raw@[k]),
        decreases raw@.len() - i,
    {
        coverage.push(coverage_of(raw[i]));
        i += 1;
    }
    proof {
        assert(coverage@ =~= raw@.map_values(|p: u32| brightest(p)));
    }
    // Centered on the ink, not on the font's box, which leaves room for
    // descenders digits do not have.
    let glyph = centered(&coverage, size);
    let edge = outline_of(&glyph, size);
    let mut pixels: Vec<u32> = Vec::new();
    let mut i: usize = 0;
    while i < glyph.len()
        invariant
            i <= glyph@.len() == edge@.len(),
            pixels@.len() == i,
            forall|k: int|
                0 <= k < i ==> (#[trigger] pixels@[k]) == digit_pixel(color, glyph@[k], edge@[k]),
        decreases glyph@.len() - i,
    {
        let under: u32 = if edge[i] > 0 {
            premultiplied(OUTLINE, edge[i] as u32)
        } else {
            0
        };
        // The band color goes on the digits themselves, not on a disc behind
        // them: same signal, none of the room.
        let top: u32 = if glyph[i] > 0 {
            over(premultiplied(color, glyph[i] as u32), under)
        } else {
            under
        };
        pixels.push(top);
        i += 1;
    }
    proof {
        assert(pixels@ =~= numbered(raw@, size as int, color));
    }
    Some(pixels)
}

/// What sizing the number asks next.
#[derive(Debug, Clone, Copy, PartialEq, Eq, Structural)]
pub enum Fit {
    /// Measure the text at this height, tightened to match.
    Measure(i32),
    /// The tallest height it fits in.
    Found(i32),
    /// Even the smallest will not do, or it could not be measured.
    Nothing,
}

/// The least height worth drawing.
pub const LEAST_HEIGHT: i32 = 5;

/// The height to try first, given how wide the text is at the icon's own
/// height: allowed past the icon, because a font's box is taller than the
/// digits in it.
pub open spec fn first_height(size: int, room: int, width: int) -> int {
    let guess = size * room / width;
    let most = size * 3 / 2;
    if guess < LEAST_HEIGHT {
        LEAST_HEIGHT as int
    } else if guess > most {
        most
    } else {
        guess
    }
}

/// Sizing the number, given what the measurements so far came to: first one at
/// the icon's own height, to guess from, and then one pixel lower at a time
/// until it fits.
pub open spec fn fitting(size: int, room: int, heard: Seq<Option<(i32, i32)>>) -> Fit {
    if heard.len() == 0 {
        Fit::Measure(size as i32)
    } else {
        match heard[0] {
            None => Fit::Nothing,
            Some((width, _)) => if width <= 0 {
                Fit::Nothing
            } else {
                fitting_from(size, room, first_height(size, room, width as int), heard, 1)
            },
        }
    }
}

/// Sizing the number on from a height, the measurement of which is at place
/// `i`.
pub open spec fn fitting_from(
    size: int,
    room: int,
    height: int,
    heard: Seq<Option<(i32, i32)>>,
    i: int,
) -> Fit
    decreases heard.len() - i,
{
    if height < LEAST_HEIGHT {
        Fit::Nothing
    } else if i >= heard.len() {
        Fit::Measure(height as i32)
    } else {
        match heard[i] {
            None => Fit::Nothing,
            Some((width, tall)) => if width <= room && tall <= size * 3 / 2 {
                Fit::Found(height as i32)
            } else {
                fitting_from(size, room, height - 1, heard, i + 1)
            },
        }
    }
}

/// The tallest font the number fits in, one measurement at a time.
pub fn largest_that_fits(size: i32, room: i32, heard: &Vec<Option<(i32, i32)>>) -> (r: Fit)
    requires
        SMALLEST <= size <= LARGEST,
        0 <= room <= size,
    ensures
        r == fitting(size as int, room as int, heard@),
{
    if heard.len() == 0 {
        return Fit::Measure(size);
    }
    let width: i32 = match heard[0] {
        None => {
            return Fit::Nothing;
        },
        Some((width, _)) => width,
    };
    if width <= 0 {
        return Fit::Nothing;
    }
    let most: i32 = size * 3 / 2;
    proof {
        the_grid_is_small(size as int);
        assert(0 <= size * room <= size * size) by (nonlinear_arith)
            requires
                0 <= room <= size,
        ;
    }
    let guess: i32 = size * room / width;
    let mut height: i32 = if guess < LEAST_HEIGHT {
        LEAST_HEIGHT
    } else if guess > most {
        most
    } else {
        guess
    };
    let mut i: usize = 1;
    while height >= LEAST_HEIGHT && i < heard.len()
        invariant
            1 <= i <= heard@.len(),
            SMALLEST <= size <= LARGEST,
            most == size * 3 / 2,
            LEAST_HEIGHT - 1 <= height <= most,
            fitting(size as int, room as int, heard@) == fitting_from(
                size as int,
                room as int,
                height as int,
                heard@,
                i as int,
            ),
        decreases heard@.len() - i,
    {
        match heard[i] {
            None => {
                return Fit::Nothing;
            },
            Some((wide, tall)) => {
                if wide <= room && tall <= most {
                    return Fit::Found(height);
                }
            },
        }
        height -= 1;
        i += 1;
    }
    if height < LEAST_HEIGHT {
        Fit::Nothing
    } else {
        Fit::Measure(height)
    }
}

/// Where text of an extent is put so it sits in the middle, one way.
pub fn text_origin(size: i32, extent: i32) -> (r: i32)
    requires
        0 <= size <= LARGEST,
        -LARGEST <= extent,
    ensures
        r == quotient(size - extent, 2),
{
    half(size - extent)
}

/// What lies at a place of a moved coverage came from so far away.
proof fn a_moved_pixel(coverage: Seq<u8>, size: int, dx: int, dy: int, x: int, y: int)
    requires
        0 <= x < size,
        0 <= y < size,
    ensures
        ink_at(moved(coverage, size, dx, dy), size, x, y) == ink_at(
            coverage,
            size,
            x - dx,
            y - dy,
        ),
{
    in_the_grid(x, y, size);
    vstd::arithmetic::div_mod::lemma_fundamental_div_mod_converse(y * size + x, size, y, x);
}

proof fn first_is_first(coverage: Seq<u8>, size: int, rows: bool, k: int, line: int)
    requires
        0 <= k <= line < size,
        inked(coverage, size, rows, line),
    ensures
        k <= first_inked(coverage, size, rows, k) <= line,
    decreases line - k,
{
    if !inked(coverage, size, rows, k) {
        first_is_first(coverage, size, rows, k + 1, line);
    }
}

proof fn last_is_last(coverage: Seq<u8>, size: int, rows: bool, k: int, line: int)
    requires
        0 <= line <= k < size,
        inked(coverage, size, rows, line),
    ensures
        line <= last_inked(coverage, size, rows, k) <= k,
    decreases k - line,
{
    if !inked(coverage, size, rows, k) {
        last_is_last(coverage, size, rows, k - 1, line);
    }
}

/// Centering loses no ink: every pixel of it is still inside the icon, moved
/// by the same amount as all the others, and what is left on the two sides
/// differs by at most a pixel, both ways.
pub proof fn centering_loses_no_ink(coverage: Seq<u8>, size: int, x: int, y: int)
    requires
        0 < size,
        coverage.len() == size * size,
        0 <= x < size,
        0 <= y < size,
        ink_at(coverage, size, x, y) > INKED,
    ensures
        ({
            let top = first_inked(coverage, size, true, 0);
            let bottom = last_inked(coverage, size, true, size - 1);
            let left = first_inked(coverage, size, false, 0);
            let right = last_inked(coverage, size, false, size - 1);
            let dx = to_the_middle(size, left, right);
            let dy = to_the_middle(size, top, bottom);
            &&& ink_at(centering(coverage, size), size, x + dx, y + dy) == ink_at(
                coverage,
                size,
                x,
                y,
            )
            &&& 0 <= x + dx < size
            &&& 0 <= y + dy < size
            &&& -1 <= (top + dy) - (size - 1 - (bottom + dy)) <= 1
            &&& -1 <= (left + dx) - (size - 1 - (right + dx)) <= 1
        }),
{
    assert(ink_at(coverage, size, x, y) > INKED);
    assert(along(coverage, size, true, y, x) > INKED);
    assert(along(coverage, size, false, x, y) > INKED);
    first_is_first(coverage, size, true, 0, y);
    last_is_last(coverage, size, true, size - 1, y);
    first_is_first(coverage, size, false, 0, x);
    last_is_last(coverage, size, false, size - 1, x);
    let top = first_inked(coverage, size, true, 0);
    let bottom = last_inked(coverage, size, true, size - 1);
    let left = first_inked(coverage, size, false, 0);
    let right = last_inked(coverage, size, false, size - 1);
    let dx = to_the_middle(size, left, right);
    let dy = to_the_middle(size, top, bottom);
    a_moved_pixel(coverage, size, dx, dy, x + dx, y + dy);
}

/// Whether there is ink anywhere.
pub open spec fn has_any_ink(coverage: Seq<u8>, size: int) -> bool {
    exists|x: int, y: int| #[trigger] ink_at(coverage, size, x, y) > INKED
}

proof fn first_has_ink(coverage: Seq<u8>, size: int, rows: bool, k: int)
    requires
        first_inked(coverage, size, rows, k) < size,
    ensures
        k <= first_inked(coverage, size, rows, k),
        inked(coverage, size, rows, first_inked(coverage, size, rows, k)),
    decreases size - k,
{
    if !inked(coverage, size, rows, k) {
        first_has_ink(coverage, size, rows, k + 1);
    }
}

proof fn last_has_ink(coverage: Seq<u8>, size: int, rows: bool, k: int)
    requires
        0 <= last_inked(coverage, size, rows, k),
    ensures
        last_inked(coverage, size, rows, k) <= k,
        inked(coverage, size, rows, last_inked(coverage, size, rows, k)),
    decreases k + 1,
{
    if k >= 0 && !inked(coverage, size, rows, k) {
        last_has_ink(coverage, size, rows, k - 1);
    }
}

/// A move that keeps all of the ink takes each line of it along.
proof fn a_line_moves(coverage: Seq<u8>, size: int, dx: int, dy: int, rows: bool, k: int)
    requires
        forall|x: int, y: int| #[trigger]
            ink_at(coverage, size, x, y) > INKED ==> 0 <= x + dx < size && 0 <= y + dy < size,
    ensures
        inked(moved(coverage, size, dx, dy), size, rows, if rows {
            k + dy
        } else {
            k + dx
        }) == inked(coverage, size, rows, k),
{
    let m = moved(coverage, size, dx, dy);
    let (step, slip) = if rows {
        (dy, dx)
    } else {
        (dx, dy)
    };
    if inked(coverage, size, rows, k) {
        let j = choose|j: int| 0 <= j < size && #[trigger] along(coverage, size, rows, k, j) > INKED;
        if rows {
            assert(ink_at(coverage, size, j, k) > INKED);
            a_moved_pixel(coverage, size, dx, dy, j + dx, k + dy);
        } else {
            assert(ink_at(coverage, size, k, j) > INKED);
            a_moved_pixel(coverage, size, dx, dy, k + dx, j + dy);
        }
        assert(along(m, size, rows, k + step, j + slip) > INKED);
    }
    if inked(m, size, rows, k + step) {
        let j = choose|j: int| 0 <= j < size && #[trigger] along(m, size, rows, k + step, j) > INKED;
        if rows {
            a_moved_pixel(coverage, size, dx, dy, j, k + dy);
        } else {
            a_moved_pixel(coverage, size, dx, dy, k + dx, j);
        }
        assert(along(coverage, size, rows, k, j - slip) > INKED);
    }
}

/// A move that keeps all of the ink takes its outermost lines along.
proof fn the_edges_move(coverage: Seq<u8>, size: int, dx: int, dy: int, rows: bool)
    requires
        forall|x: int, y: int| #[trigger]
            ink_at(coverage, size, x, y) > INKED ==> 0 <= x + dx < size && 0 <= y + dy < size,
        has_any_ink(coverage, size),
    ensures
        ({
            let m = moved(coverage, size, dx, dy);
            let step = if rows {
                dy
            } else {
                dx
            };
            &&& first_inked(m, size, rows, 0) == first_inked(coverage, size, rows, 0) + step
            &&& last_inked(m, size, rows, size - 1) == last_inked(coverage, size, rows, size - 1)
                + step
        }),
{
    let m = moved(coverage, size, dx, dy);
    let step = if rows {
        dy
    } else {
        dx
    };
    let (x, y) = choose|x: int, y: int| #[trigger] ink_at(coverage, size, x, y) > INKED;
    let line = if rows {
        y
    } else {
        x
    };
    assert(along(coverage, size, rows, line, if rows {
        x
    } else {
        y
    }) > INKED);
    first_is_first(coverage, size, rows, 0, line);
    last_is_last(coverage, size, rows, size - 1, line);
    let first = first_inked(coverage, size, rows, 0);
    let last = last_inked(coverage, size, rows, size - 1);
    first_has_ink(coverage, size, rows, 0);
    last_has_ink(coverage, size, rows, size - 1);
    a_line_moves(coverage, size, dx, dy, rows, first);
    a_line_moves(coverage, size, dx, dy, rows, last);
    a_line_moves(coverage, size, dx, dy, rows, line);
    first_is_first(m, size, rows, 0, first + step);
    last_is_last(m, size, rows, size - 1, last + step);
    let moved_first = first_inked(m, size, rows, 0);
    let moved_last = last_inked(m, size, rows, size - 1);
    first_has_ink(m, size, rows, 0);
    last_has_ink(m, size, rows, size - 1);
    a_line_moves(coverage, size, dx, dy, rows, moved_first - step);
    a_line_moves(coverage, size, dx, dy, rows, moved_last - step);
    first_is_first(coverage, size, rows, 0, moved_first - step);
    last_is_last(coverage, size, rows, size - 1, moved_last - step);
}

/// How far the two margins of centered ink differ, before they are compared.
proof fn the_ink_is_where_it_was_moved(coverage: Seq<u8>, size: int)
    requires
        0 <= size,
        coverage.len() == size * size,
        has_any_ink(coverage, size),
    ensures
        ({
            let dx = to_the_middle(
                size,
                first_inked(coverage, size, false, 0),
                last_inked(coverage, size, false, size - 1),
            );
            let dy = to_the_middle(
                size,
                first_inked(coverage, size, true, 0),
                last_inked(coverage, size, true, size - 1),
            );
            let c = centering(coverage, size);
            &&& c == moved(coverage, size, dx, dy)
            &&& first_inked(c, size, true, 0) == first_inked(coverage, size, true, 0) + dy
            &&& last_inked(c, size, true, size - 1) == last_inked(coverage, size, true, size - 1)
                + dy
            &&& first_inked(c, size, false, 0) == first_inked(coverage, size, false, 0) + dx
            &&& last_inked(c, size, false, size - 1) == last_inked(coverage, size, false, size - 1)
                + dx
            &&& first_inked(c, size, true, 0) < size
        }),
{
    let (x, y) = choose|x: int, y: int| #[trigger] ink_at(coverage, size, x, y) > INKED;
    assert(along(coverage, size, true, y, x) > INKED);
    first_is_first(coverage, size, true, 0, y);
    let dx = to_the_middle(
        size,
        first_inked(coverage, size, false, 0),
        last_inked(coverage, size, false, size - 1),
    );
    let dy = to_the_middle(
        size,
        first_inked(coverage, size, true, 0),
        last_inked(coverage, size, true, size - 1),
    );
    assert forall|x: int, y: int| #[trigger]
        ink_at(coverage, size, x, y) > INKED implies 0 <= x + dx < size && 0 <= y + dy < size by {
        centering_loses_no_ink(coverage, size, x, y);
    }
    the_edges_move(coverage, size, dx, dy, true);
    the_edges_move(coverage, size, dx, dy, false);
    a_line_moves(coverage, size, dx, dy, true, y);
    first_is_first(moved(coverage, size, dx, dy), size, true, 0, y + dy);
}

/// Centered ink sits in the middle: what is left above it and below it differs
/// by at most a pixel, and so does what is left on its two sides.
pub proof fn centered_ink_sits_in_the_middle(coverage: Seq<u8>, size: int)
    requires
        0 <= size,
        coverage.len() == size * size,
        has_any_ink(coverage, size),
    ensures
        ({
            let c = centering(coverage, size);
            let above = first_inked(c, size, true, 0);
            let below = size - 1 - last_inked(c, size, true, size - 1);
            let left = first_inked(c, size, false, 0);
            let right = size - 1 - last_inked(c, size, false, size - 1);
            &&& -1 <= above - below <= 1
            &&& -1 <= left - right <= 1
        }),
{
    the_ink_is_where_it_was_moved(coverage, size);
}

/// Centering what is centered changes nothing.
pub proof fn centering_again_changes_nothing(coverage: Seq<u8>, size: int)
    requires
        0 <= size,
        coverage.len() == size * size,
    ensures
        centering(centering(coverage, size), size) == centering(coverage, size),
{
    let c = centering(coverage, size);
    if has_any_ink(coverage, size) {
        the_ink_is_where_it_was_moved(coverage, size);
        let again = centering(c, size);
        assert(again == moved(c, size, 0, 0));
        assert forall|i: int| 0 <= i < size * size implies #[trigger] again[i] == c[i] by {
            place_of_pixel(i, size);
        }
        assert(again =~= c);
    } else if first_inked(coverage, size, true, 0) < size {
        first_has_ink(coverage, size, true, 0);
        let k = first_inked(coverage, size, true, 0);
        let j = choose|j: int| 0 <= j < size && #[trigger] along(coverage, size, true, k, j) > INKED;
        assert(ink_at(coverage, size, j, k) > INKED);
    }
}

/// Every pixel of an icon with a number in it is premultiplied.
pub proof fn an_icon_is_premultiplied(color: u32, glyph: u8, edge: u8)
    ensures
        premultiplied_pixel(digit_pixel(color, glyph, edge)),
{
    nothing_is_brighter_than_its_own_alpha(OUTLINE, edge as int);
    nothing_is_brighter_than_its_own_alpha(color, glyph as int);
    assert(premultiplied_pixel(0));
    let under = if edge > 0 {
        scaled(OUTLINE, edge as int)
    } else {
        0
    };
    drawing_over_stays_premultiplied(scaled(color, glyph as int), under);
}

/// How much the renderer left at a place: the brightest of its three color
/// channels, and nothing beyond the edges.
pub open spec fn left_at(raw: Seq<u32>, size: int, x: int, y: int) -> int {
    if 0 <= x < size && 0 <= y < size {
        let p = raw[y * size + x] as int;
        let red = p / 65536 % 256;
        let green = p / 256 % 256;
        let blue = p % 256;
        if red >= green && red >= blue {
            red
        } else if green >= blue {
            green
        } else {
            blue
        }
    } else {
        0
    }
}

/// Whether the ink, which is coverage above 24, lies between these lines and
/// touches all four.
pub open spec fn ink_spans(
    raw: Seq<u32>,
    size: int,
    left: int,
    top: int,
    right: int,
    bottom: int,
) -> bool {
    &&& forall|x: int, y: int| #[trigger]
        left_at(raw, size, x, y) > 24 ==> left <= x <= right && top <= y <= bottom
    &&& exists|y: int| #[trigger] left_at(raw, size, left, y) > 24
    &&& exists|y: int| #[trigger] left_at(raw, size, right, y) > 24
    &&& exists|x: int| #[trigger] left_at(raw, size, x, top) > 24
    &&& exists|x: int| #[trigger] left_at(raw, size, x, bottom) > 24
}

/// Whether a step is half of the room there is, to the pixel below it.
pub open spec fn halves(step: int, room: int) -> bool {
    if room >= 0 {
        room - 1 <= 2 * step <= room
    } else {
        room <= 2 * step <= room + 1
    }
}

/// Whether a move puts the ink in the middle of the icon. With no ink there is
/// no move.
pub open spec fn centers(raw: Seq<u32>, size: int, dx: int, dy: int) -> bool {
    ||| (forall|x: int, y: int| !(#[trigger] left_at(raw, size, x, y) > 24)) && dx == 0 && dy == 0
    ||| exists|left: int, top: int, right: int, bottom: int|
        {
            &&& #[trigger] ink_spans(raw, size, left, top, right, bottom)
            &&& halves(dx, (size - 1 - right) - left)
            &&& halves(dy, (size - 1 - bottom) - top)
        }
}

/// What a move brings to a place of the icon.
pub open spec fn brought(raw: Seq<u32>, size: int, dx: int, dy: int, x: int, y: int) -> int {
    if 0 <= x < size && 0 <= y < size {
        left_at(raw, size, x - dx, y - dy)
    } else {
        0
    }
}

/// How far the outline reaches: two pixels on icons of 20 and more, one on
/// smaller ones.
pub open spec fn reach(size: int) -> int {
    if size >= 20 {
        2
    } else {
        1
    }
}

/// Whether nothing within the outline's reach of a place is stronger than a
/// coverage.
pub open spec fn none_stronger(
    raw: Seq<u32>,
    size: int,
    dx: int,
    dy: int,
    x: int,
    y: int,
    most: int,
) -> bool {
    forall|i: int, j: int|
        -reach(size) <= i <= reach(size) && -reach(size) <= j <= reach(size) ==> #[trigger] brought(
            raw,
            size,
            dx,
            dy,
            x + i,
            y + j,
        ) <= most
}

proof fn coverage_is_what_was_left(raw: Seq<u32>, size: int, x: int, y: int)
    requires
        0 <= size,
        raw.len() == size * size,
    ensures
        ink_at(raw.map_values(|p: u32| brightest(p)), size, x, y) == left_at(raw, size, x, y),
        0 <= left_at(raw, size, x, y) <= 255,
{
    if 0 <= x < size && 0 <= y < size {
        in_the_grid(x, y, size);
    }
}

proof fn a_line_with_ink(raw: Seq<u32>, size: int, rows: bool, k: int, j: int)
    requires
        0 <= size,
        raw.len() == size * size,
        left_at(raw, size, if rows {
            j
        } else {
            k
        }, if rows {
            k
        } else {
            j
        }) > 24,
    ensures
        inked(raw.map_values(|p: u32| brightest(p)), size, rows, k),
        0 <= k < size,
{
    let coverage = raw.map_values(|p: u32| brightest(p));
    if rows {
        coverage_is_what_was_left(raw, size, j, k);
    } else {
        coverage_is_what_was_left(raw, size, k, j);
    }
    assert(along(coverage, size, rows, k, j) > INKED);
}

proof fn the_glyph_is_moved(raw: Seq<u32>, size: int, dx: int, dy: int, x: int, y: int)
    requires
        0 < size,
        raw.len() == size * size,
        centers(raw, size, dx, dy),
    ensures
        ink_at(centering(raw.map_values(|p: u32| brightest(p)), size), size, x, y) == brought(
            raw,
            size,
            dx,
            dy,
            x,
            y,
        ),
{
    let coverage = raw.map_values(|p: u32| brightest(p));
    let top = first_inked(coverage, size, true, 0);
    let bottom = last_inked(coverage, size, true, size - 1);
    let left = first_inked(coverage, size, false, 0);
    let right = last_inked(coverage, size, false, size - 1);
    coverage_is_what_was_left(raw, size, x - dx, y - dy);
    if forall|x: int, y: int| !(#[trigger] left_at(raw, size, x, y) > 24) {
        if top < size {
            first_has_ink(coverage, size, true, 0);
            let j = choose|j: int|
                0 <= j < size && #[trigger] along(coverage, size, true, top, j) > INKED;
            coverage_is_what_was_left(raw, size, j, top);
            assert(left_at(raw, size, j, top) > 24);
        }
        assert(!exists|l: int, t: int, r: int, b: int| #[trigger]
            ink_spans(raw, size, l, t, r, b));
        assert(dx == 0 && dy == 0);
    } else {
        let (l, t, r, b) = choose|l: int, t: int, r: int, b: int|
            {
                &&& #[trigger] ink_spans(raw, size, l, t, r, b)
                &&& halves(dx, (size - 1 - r) - l)
                &&& halves(dy, (size - 1 - b) - t)
            };
        let on_left = choose|y: int| #[trigger] left_at(raw, size, l, y) > 24;
        let on_right = choose|y: int| #[trigger] left_at(raw, size, r, y) > 24;
        let on_top = choose|x: int| #[trigger] left_at(raw, size, x, t) > 24;
        let on_bottom = choose|x: int| #[trigger] left_at(raw, size, x, b) > 24;
        a_line_with_ink(raw, size, false, l, on_left);
        a_line_with_ink(raw, size, false, r, on_right);
        a_line_with_ink(raw, size, true, t, on_top);
        a_line_with_ink(raw, size, true, b, on_bottom);
        first_is_first(coverage, size, true, 0, t);
        first_is_first(coverage, size, false, 0, l);
        last_is_last(coverage, size, true, size - 1, b);
        last_is_last(coverage, size, false, size - 1, r);
        first_has_ink(coverage, size, true, 0);
        first_has_ink(coverage, size, false, 0);
        last_has_ink(coverage, size, true, size - 1);
        last_has_ink(coverage, size, false, size - 1);
        let above = choose|j: int|
            0 <= j < size && #[trigger] along(coverage, size, true, top, j) > INKED;
        let below = choose|j: int|
            0 <= j < size && #[trigger] along(coverage, size, true, bottom, j) > INKED;
        let before = choose|j: int|
            0 <= j < size && #[trigger] along(coverage, size, false, left, j) > INKED;
        let after = choose|j: int|
            0 <= j < size && #[trigger] along(coverage, size, false, right, j) > INKED;
        coverage_is_what_was_left(raw, size, above, top);
        coverage_is_what_was_left(raw, size, below, bottom);
        coverage_is_what_was_left(raw, size, left, before);
        coverage_is_what_was_left(raw, size, right, after);
        assert(left_at(raw, size, above, top) > 24);
        assert(left_at(raw, size, below, bottom) > 24);
        assert(left_at(raw, size, left, before) > 24);
        assert(left_at(raw, size, right, after) > 24);
        assert(top == t && bottom == b && left == l && right == r);
        assert(dx == to_the_middle(size, left, right));
        assert(dy == to_the_middle(size, top, bottom));
        if 0 <= x < size && 0 <= y < size {
            a_moved_pixel(coverage, size, dx, dy, x, y);
        }
    }
}

proof fn a_fattened_pixel(coverage: Seq<u8>, size: int, x: int, y: int)
    requires
        0 <= x < size,
        0 <= y < size,
    ensures
        forall|i: int, j: int|
            -1 <= i <= 1 && -1 <= j <= 1 ==> #[trigger] ink_at(coverage, size, x + i, y + j)
                <= ink_at(fattened(coverage, size), size, x, y),
        exists|i: int, j: int|
            -1 <= i <= 1 && -1 <= j <= 1 && #[trigger] ink_at(coverage, size, x + i, y + j)
                == ink_at(fattened(coverage, size), size, x, y),
{
    in_the_grid(x, y, size);
    vstd::arithmetic::div_mod::lemma_fundamental_div_mod_converse(y * size + x, size, y, x);
    let fat = ink_at(fattened(coverage, size), size, x, y);
    assert forall|i: int, j: int| -1 <= i <= 1 && -1 <= j <= 1 implies #[trigger] ink_at(
        coverage,
        size,
        x + i,
        y + j,
    ) <= fat by {
        assert(i == -1 || i == 0 || i == 1);
        assert(j == -1 || j == 0 || j == 1);
        assert(x + (-1) == x - 1 && y + (-1) == y - 1);
    }
    let (j, row) = if fat == strongest_of_three(coverage, size, x, y - 1) {
        (-1int, y - 1)
    } else if fat == strongest_of_three(coverage, size, x, y) {
        (0int, y)
    } else {
        (1int, y + 1)
    };
    assert(fat == strongest_of_three(coverage, size, x, row));
    let i = if fat == ink_at(coverage, size, x - 1, row) {
        -1int
    } else if fat == ink_at(coverage, size, x, row) {
        0int
    } else {
        1int
    };
    assert(ink_at(coverage, size, x + i, y + j) == fat);
}

proof fn the_halo_reaches(glyph: Seq<u8>, size: int, x: int, y: int)
    requires
        0 <= x < size,
        0 <= y < size,
        glyph.len() == size * size,
    ensures
        exists|most: u8|
            {
                &&& #[trigger] hardened(most) == ink_at(halo(glyph, size), size, x, y)
                &&& forall|i: int, j: int|
                    -reach(size) <= i <= reach(size) && -reach(size) <= j <= reach(size)
                        ==> #[trigger] ink_at(glyph, size, x + i, y + j) <= most
                &&& exists|i: int, j: int|
                    -reach(size) <= i <= reach(size) && -reach(size) <= j <= reach(size)
                        && #[trigger] ink_at(glyph, size, x + i, y + j) == most
            },
{
    in_the_grid(x, y, size);
    let once = fattened(glyph, size);
    if size >= 20 {
        let twice = fattened(once, size);
        let most = ink_at(twice, size, x, y);
        a_fattened_pixel(once, size, x, y);
        assert forall|i: int, j: int| -2 <= i <= 2 && -2 <= j <= 2 implies #[trigger] ink_at(
            glyph,
            size,
            x + i,
            y + j,
        ) <= most by {
            if 0 <= x + i < size && 0 <= y + j < size {
                let a = if i < 0 {
                    -1int
                } else if i > 0 {
                    1int
                } else {
                    0int
                };
                let b = if j < 0 {
                    -1int
                } else if j > 0 {
                    1int
                } else {
                    0int
                };
                a_fattened_pixel(glyph, size, x + a, y + b);
                assert(ink_at(glyph, size, (x + a) + (i - a), (y + b) + (j - b)) <= ink_at(
                    once,
                    size,
                    x + a,
                    y + b,
                ));
                assert(ink_at(once, size, x + a, y + b) <= most);
            }
        }
        let (a, b) = choose|i: int, j: int|
            -1 <= i <= 1 && -1 <= j <= 1 && #[trigger] ink_at(once, size, x + i, y + j) == most;
        if 0 <= x + a < size && 0 <= y + b < size {
            a_fattened_pixel(glyph, size, x + a, y + b);
            let (i, j) = choose|i: int, j: int|
                -1 <= i <= 1 && -1 <= j <= 1 && #[trigger] ink_at(glyph, size, (x + a) + i, (y + b)
                    + j) == ink_at(once, size, x + a, y + b);
            assert(ink_at(glyph, size, x + (a + i), y + (b + j)) == most);
        } else {
            assert(most == 0);
            assert(ink_at(glyph, size, x + 0, y + 0) == most);
        }
        assert(hardened(most) == ink_at(halo(glyph, size), size, x, y));
    } else {
        let most = ink_at(once, size, x, y);
        a_fattened_pixel(glyph, size, x, y);
        assert(hardened(most) == ink_at(halo(glyph, size), size, x, y));
    }
}

proof fn the_channels_of_a_digit(color: u32, glyph: u8, edge: u8)
    ensures
        ({
            let p = digit_pixel(color, glyph, edge) as int;
            &&& p % 256 == (color as int % 256) * glyph / 255
            &&& p / 256 % 256 == (color as int / 256 % 256) * glyph / 255
            &&& p / 65536 % 256 == (color as int / 65536 % 256) * glyph / 255
            &&& p / 16777216 == capped(glyph + edge * (255 - glyph) / 255)
        }),
{
    scaling_shrinks(channel(color, 0), glyph as int);
    scaling_shrinks(channel(color, 1), glyph as int);
    scaling_shrinks(channel(color, 2), glyph as int);
    laying_is_monotone(edge as int, edge as int, 255 - glyph);
    channels_of_a_pixel(edge as int, 0, 0, 0);
    assert(channel(OUTLINE, 0) == 0 && channel(OUTLINE, 1) == 0 && channel(OUTLINE, 2) == 0);
    assert(forall|c: int| c == 0 ==> #[trigger] (c * edge) == 0) by (nonlinear_arith);
    assert(scaled(OUTLINE, edge as int) == pixel(edge as int, 0, 0, 0));
    let under = if edge > 0 {
        scaled(OUTLINE, edge as int)
    } else {
        0
    };
    assert(under == pixel(edge as int, 0, 0, 0));
    channels_of_a_pixel(
        glyph as int,
        channel(color, 2) * glyph / 255,
        channel(color, 1) * glyph / 255,
        channel(color, 0) * glyph / 255,
    );
    let inverse = 255 - glyph;
    assert(0 * inverse / 255 == 0) by (nonlinear_arith);
    channels_of_a_pixel(
        laid(glyph as int, edge as int, inverse),
        channel(color, 2) * glyph / 255,
        channel(color, 1) * glyph / 255,
        channel(color, 0) * glyph / 255,
    );
    assert(glyph == 0 ==> (color as int % 256) * glyph / 255 == 0) by (nonlinear_arith);
    assert(glyph == 0 ==> (color as int / 256 % 256) * glyph / 255 == 0) by (nonlinear_arith);
    assert(glyph == 0 ==> (color as int / 65536 % 256) * glyph / 255 == 0) by (nonlinear_arith);
    assert(glyph == 0 ==> edge * (255 - glyph) / 255 == edge) by (nonlinear_arith);
}

/// Every pixel of an icon with a number in it is decided by the coverage that
/// centering brings to its own place and to the places around it: the band
/// color in the strength of its own coverage, over black in the strength of
/// the strongest coverage in the outline's reach, which is full strength
/// above 24 and four times that coverage below.
pub proof fn a_pixel_shows_what_is_at_its_place(
    raw: Seq<u32>,
    size: int,
    color: u32,
    disc: Seq<u8>,
    dx: int,
    dy: int,
    x: int,
    y: int,
    i: int,
    j: int,
)
    requires
        raw.len() == size * size,
        centers(raw, size, dx, dy),
        0 <= x < size,
        0 <= y < size,
        -reach(size) <= i <= reach(size),
        -reach(size) <= j <= reach(size),
        none_stronger(raw, size, dx, dy, x, y, brought(raw, size, dx, dy, x + i, y + j)),
    ensures
        ({
            let p = rendered(raw, size, color, true, disc)[y * size + x] as int;
            let own = brought(raw, size, dx, dy, x, y);
            let most = brought(raw, size, dx, dy, x + i, y + j);
            let edge = if most > 24 {
                255
            } else {
                4 * most
            };
            &&& p % 256 == (color as int % 256) * own / 255
            &&& p / 256 % 256 == (color as int / 256 % 256) * own / 255
            &&& p / 65536 % 256 == (color as int / 65536 % 256) * own / 255
            &&& p / 16777216 == capped(own + edge * (255 - own) / 255)
        }),
{
    let coverage = raw.map_values(|p: u32| brightest(p));
    let glyph = centering(coverage, size);
    let edges = halo(glyph, size);
    in_the_grid(x, y, size);
    the_glyph_is_moved(raw, size, dx, dy, x, y);
    the_glyph_is_moved(raw, size, dx, dy, x + i, y + j);
    assert(glyph.len() == size * size);
    the_halo_reaches(glyph, size, x, y);
    let most = choose|most: u8|
        {
            &&& #[trigger] hardened(most) == ink_at(edges, size, x, y)
            &&& forall|i: int, j: int|
                -reach(size) <= i <= reach(size) && -reach(size) <= j <= reach(size)
                    ==> #[trigger] ink_at(glyph, size, x + i, y + j) <= most
            &&& exists|i: int, j: int|
                -reach(size) <= i <= reach(size) && -reach(size) <= j <= reach(size)
                    && #[trigger] ink_at(glyph, size, x + i, y + j) == most
        };
    let (a, b) = choose|i: int, j: int|
        -reach(size) <= i <= reach(size) && -reach(size) <= j <= reach(size) && #[trigger] ink_at(
            glyph,
            size,
            x + i,
            y + j,
        ) == most;
    the_glyph_is_moved(raw, size, dx, dy, x + a, y + b);
    assert(brought(raw, size, dx, dy, x + a, y + b) <= brought(raw, size, dx, dy, x + i, y + j));
    assert(ink_at(glyph, size, x + i, y + j) <= most);
    assert(most == brought(raw, size, dx, dy, x + i, y + j));
    the_channels_of_a_digit(color, glyph[y * size + x], edges[y * size + x]);
}

/// The icon is upright and in its band color: a place the renderer covered
/// fully is opaque band color at the place the centering move takes it to.
pub proof fn what_was_covered_fully_is_the_band_color(
    raw: Seq<u32>,
    size: int,
    color: u32,
    disc: Seq<u8>,
    dx: int,
    dy: int,
    x: int,
    y: int,
)
    requires
        raw.len() == size * size,
        centers(raw, size, dx, dy),
        0 <= x < size,
        0 <= y < size,
        left_at(raw, size, x, y) == 255,
    ensures
        0 <= x + dx < size,
        0 <= y + dy < size,
        rendered(raw, size, color, true, disc)[(y + dy) * size + (x + dx)] == 0xff00_0000
            + color % 0x0100_0000,
{
    let (l, t, r, b) = choose|l: int, t: int, r: int, b: int|
        {
            &&& #[trigger] ink_spans(raw, size, l, t, r, b)
            &&& halves(dx, (size - 1 - r) - l)
            &&& halves(dy, (size - 1 - b) - t)
        };
    let on_left = choose|y: int| #[trigger] left_at(raw, size, l, y) > 24;
    let on_right = choose|y: int| #[trigger] left_at(raw, size, r, y) > 24;
    let on_top = choose|x: int| #[trigger] left_at(raw, size, x, t) > 24;
    let on_bottom = choose|x: int| #[trigger] left_at(raw, size, x, b) > 24;
    assert(left_at(raw, size, x, y) > 24);
    assert(left_at(raw, size, l, on_left) > 24 && left_at(raw, size, r, on_right) > 24);
    assert(left_at(raw, size, on_top, t) > 24 && left_at(raw, size, on_bottom, b) > 24);
    assert(brought(raw, size, dx, dy, x + dx, y + dy) == left_at(raw, size, x, y));
    assert forall|i: int, j: int|
        -reach(size) <= i <= reach(size) && -reach(size) <= j <= reach(
            size,
        ) implies #[trigger] brought(raw, size, dx, dy, (x + dx) + i, (y + dy) + j) <= 255 by {
        coverage_is_what_was_left(raw, size, (x + dx) + i - dx, (y + dy) + j - dy);
    }
    assert((x + dx) + 0 == x + dx && (y + dy) + 0 == y + dy);
    a_pixel_shows_what_is_at_its_place(raw, size, color, disc, dx, dy, x + dx, y + dy, 0, 0);
    let p = rendered(raw, size, color, true, disc)[(y + dy) * size + (x + dx)];
    a_pixel_is_its_channels(p);
    a_pixel_is_its_channels(color);
}

/// Where nothing is in the outline's reach the icon is transparent.
pub proof fn where_nothing_is_near_the_icon_is_clear(
    raw: Seq<u32>,
    size: int,
    color: u32,
    disc: Seq<u8>,
    dx: int,
    dy: int,
    x: int,
    y: int,
)
    requires
        raw.len() == size * size,
        centers(raw, size, dx, dy),
        0 <= x < size,
        0 <= y < size,
        none_stronger(raw, size, dx, dy, x, y, 0),
    ensures
        rendered(raw, size, color, true, disc)[y * size + x] == 0,
{
    coverage_is_what_was_left(raw, size, x - dx, y - dy);
    assert(brought(raw, size, dx, dy, x + 0, y + 0) <= 0);
    in_the_grid(x, y, size);
    assert(brought(raw, size, dx, dy, x, y) == 0);
    a_pixel_shows_what_is_at_its_place(raw, size, color, disc, dx, dy, x, y, 0, 0);
    a_pixel_is_its_channels(rendered(raw, size, color, true, disc)[y * size + x]);
}

/// The digits are outlined: a place with no coverage of its own, but with ink
/// in the outline's reach, is opaque black.
pub proof fn beside_the_ink_the_icon_is_black(
    raw: Seq<u32>,
    size: int,
    color: u32,
    disc: Seq<u8>,
    dx: int,
    dy: int,
    x: int,
    y: int,
    i: int,
    j: int,
)
    requires
        raw.len() == size * size,
        centers(raw, size, dx, dy),
        0 <= x < size,
        0 <= y < size,
        brought(raw, size, dx, dy, x, y) == 0,
        -reach(size) <= i <= reach(size),
        -reach(size) <= j <= reach(size),
        none_stronger(raw, size, dx, dy, x, y, brought(raw, size, dx, dy, x + i, y + j)),
        brought(raw, size, dx, dy, x + i, y + j) > 24,
    ensures
        rendered(raw, size, color, true, disc)[y * size + x] == 0xff00_0000,
{
    a_pixel_shows_what_is_at_its_place(raw, size, color, disc, dx, dy, x, y, i, j);
    a_pixel_is_its_channels(rendered(raw, size, color, true, disc)[y * size + x]);
}

proof fn one_channel_scaled(c: int, a: int)
    requires
        0 <= c <= 255,
        0 <= a <= 255,
    ensures
        255 * (c * a / 255) <= c * a < 255 * (c * a / 255) + 255,
        0 <= c * a / 255 <= 255,
{
    scaling_shrinks(c, a);
}

proof fn the_channels_of_a_scaled_color(color: u32, alpha: int)
    requires
        0 <= alpha <= 255,
    ensures
        channel(scaled(color, alpha), 3) == alpha,
        channel(scaled(color, alpha), 2) == channel(color, 2) * alpha / 255,
        channel(scaled(color, alpha), 1) == channel(color, 1) * alpha / 255,
        channel(scaled(color, alpha), 0) == channel(color, 0) * alpha / 255,
        alpha == 255 ==> scaled(color, alpha) == 0xff00_0000 + color % 0x0100_0000,
        alpha == 0 ==> scaled(color, alpha) == 0,
{
    a_pixel_is_its_channels(color);
    scaling_shrinks(channel(color, 2), alpha);
    scaling_shrinks(channel(color, 1), alpha);
    scaling_shrinks(channel(color, 0), alpha);
    channels_of_a_pixel(
        alpha,
        channel(color, 2) * alpha / 255,
        channel(color, 1) * alpha / 255,
        channel(color, 0) * alpha / 255,
    );
    a_pixel_is_its_channels(scaled(color, alpha));
}

proof fn over_nothing(source: u32)
    ensures
        composed(source, 0) == source,
{
    let inverse = 255 - channel(source, 3);
    assert(channel(0, 0) == 0 && channel(0, 1) == 0 && channel(0, 2) == 0 && channel(0, 3) == 0);
    assert(0 * inverse / 255 == 0);
    a_pixel_is_its_channels(source);
}

/// A disc leaves alone what it does not cover, is the color where it covers
/// everything, and in between is as strong as it covers. Under a pixel it shows
/// where that pixel is clear and not where it is opaque.
pub proof fn a_disc_goes_over_or_under(
    pixels: Seq<u32>,
    coverage: Seq<u8>,
    color: u32,
    i: int,
)
    requires
        0 <= i < pixels.len(),
        pixels.len() == coverage.len(),
    ensures
        ({
            let on_top = disc_painted(pixels, coverage, color, false)[i];
            let beneath = disc_painted(pixels, coverage, color, true)[i];
            &&& coverage[i] == 0 ==> on_top == pixels[i] && beneath == pixels[i]
            &&& coverage[i] == 255 ==> on_top == 0xff00_0000 + color % 0x0100_0000
            &&& pixels[i] >= 0xff00_0000 ==> beneath == pixels[i]
            &&& pixels[i] == 0 ==> {
                &&& on_top == beneath
                &&& on_top / 0x0100_0000 == coverage[i]
                &&& 255 * (on_top / 65536 % 256) <= (color / 65536 % 256) * coverage[i] < 255 * (
                on_top / 65536 % 256) + 255
                &&& 255 * (on_top / 256 % 256) <= (color / 256 % 256) * coverage[i] < 255 * (on_top
                    / 256 % 256) + 255
                &&& 255 * (on_top % 256) <= (color % 256) * coverage[i] < 255 * (on_top % 256) + 255
            }
        }),
{
    let a = coverage[i] as int;
    let disc = scaled(color, a);
    let p = pixels[i];
    the_channels_of_a_scaled_color(color, a);
    drawing_over_keeps_what_is_not_covered(color, p);
    over_nothing(p);
    over_nothing(disc);
    a_pixel_is_its_channels(p);
    a_pixel_is_its_channels(disc);
    a_pixel_is_its_channels(color);
    one_channel_scaled(channel(color, 2), a);
    one_channel_scaled(channel(color, 1), a);
    one_channel_scaled(channel(color, 0), a);
    if p == 0 {
        the_channels_of_a_scaled_color(0, 0);
        assert(p == scaled(0, 0));
        drawing_over_keeps_what_is_not_covered(0, disc);
    }
    if p >= 0xff00_0000 {
        assert(channel(p, 3) == 255);
        assert(channel(disc, 3) * 0 / 255 == 0 && channel(disc, 2) * 0 / 255 == 0 && channel(
            disc,
            1,
        ) * 0 / 255 == 0 && channel(disc, 0) * 0 / 255 == 0);
    }
}

/// Where no number was drawn the icon is its disc: opaque band color where the
/// disc covers everything, and clear where it covers nothing and the renderer
/// left nothing.
pub proof fn without_a_number_there_is_a_disc(
    raw: Seq<u32>,
    size: int,
    color: u32,
    disc: Seq<u8>,
    i: int,
)
    requires
        0 <= i < raw.len(),
        raw.len() == disc.len(),
    ensures
        ({
            let p = rendered(raw, size, color, false, disc)[i];
            &&& disc[i] == 255 ==> p == 0xff00_0000 + color % 0x0100_0000
            &&& raw[i] % 0x0100_0000 == 0 ==> {
                &&& p / 0x0100_0000 == disc[i]
                &&& 255 * (p / 65536 % 256) <= (color / 65536 % 256) * disc[i] < 255 * (p / 65536
                    % 256) + 255
                &&& 255 * (p / 256 % 256) <= (color / 256 % 256) * disc[i] < 255 * (p / 256 % 256)
                    + 255
                &&& 255 * (p % 256) <= (color % 256) * disc[i] < 255 * (p % 256) + 255
            }
        }),
{
    let ink = raw.map_values(|p: u32| scaled(INK, brightest(p) as int));
    a_disc_goes_over_or_under(ink, disc, color, i);
    if raw[i] % 0x0100_0000 == 0 {
        let p = raw[i] as int;
        assert(channel(raw[i], 0) == 0 && channel(raw[i], 1) == 0 && channel(raw[i], 2) == 0);
        the_channels_of_a_scaled_color(INK, 0);
    }
}

/// What the renderer leaves becomes white ink as strong as the brightest of
/// its three channels.
pub proof fn coverage_becomes_white_ink(raw: Seq<u32>, x: int)
    requires
        0 <= x < raw.len(),
    ensures
        raw.map_values(|p: u32| scaled(INK, brightest(p) as int))[x] == left_at(
            raw,
            raw.len() as int,
            x,
            0,
        ) * 0x0101_0101,
{
    let b = brightest(raw[x]) as int;
    a_pixel_is_its_channels(raw[x]);
    the_channels_of_a_scaled_color(INK, b);
    assert(channel(INK, 0) == 255 && channel(INK, 1) == 255 && channel(INK, 2) == 255);
    a_pixel_is_its_channels(scaled(INK, b));
    assert(0 * raw.len() + x == x);
}

/// One digit stands as it is. Two are pulled together by a fourteenth of the
/// height and more by a ninth, and by a pixel at least.
pub proof fn digits_are_pulled_together(height: int, digits: int)
    ensures
        digits <= 1 ==> tightening(height, digits) == 0,
        digits > 1 ==> tightening(height, digits) <= -1,
        digits == 2 && height >= 14 ==> 0 <= height + 14 * tightening(height, digits) < 14,
        digits == 2 && height < 14 ==> tightening(height, digits) == -1,
        digits >= 3 && height >= 9 ==> 0 <= height + 9 * tightening(height, digits) < 9,
        digits >= 3 && height < 9 ==> tightening(height, digits) == -1,
{
}

/// Text is put with the same room on both sides, to the pixel.
pub proof fn text_is_put_in_the_middle(size: int, extent: int)
    ensures
        halves(quotient(size - extent, 2), size - extent),
{
}

/// Whether a measurement is inside the room and its box no more than half as
/// tall again as the icon.
pub open spec fn fits(measured: Option<(i32, i32)>, size: int, room: int) -> bool {
    measured matches Some((width, tall)) && width <= room && 2 * tall <= 3 * size
}

/// Whether a height is the one a measured width asks for: the tallest at which
/// text as wide in proportion fits the room, from 5 to half as tall again as
/// the icon.
pub open spec fn in_proportion(height: int, size: int, room: int, width: int) -> bool {
    let most = size * 3 / 2;
    &&& 5 <= height <= most
    &&& height > 5 ==> height * width <= size * room
    &&& height < most ==> size * room < (height + 1) * width
}

proof fn a_misfit_is_lowered(
    size: int,
    room: int,
    height: int,
    heard: Seq<Option<(i32, i32)>>,
    i: int,
    n: int,
)
    requires
        0 <= i <= n <= heard.len(),
        height - (n - i) >= 4,
        forall|k: int|
            i <= k < n ==> (#[trigger] heard[k]) is Some && !fits(heard[k], size, room),
    ensures
        fitting_from(size, room, height, heard, i) == fitting_from(
            size,
            room,
            height - (n - i),
            heard,
            n,
        ),
    decreases n - i,
{
    if i < n {
        assert(heard[i] is Some && !fits(heard[i], size, room));
        a_misfit_is_lowered(size, room, height - 1, heard, i + 1, n);
    }
}

/// The number is as tall as fits: it is measured at the icon's own height
/// first, then at the height that width asks for, then a pixel lower at a time,
/// and the first that fits is taken. Below 5 pixels, or where it cannot be
/// measured, there is none.
pub proof fn the_number_is_as_tall_as_fits(
    size: int,
    room: int,
    heard: Seq<Option<(i32, i32)>>,
    first: int,
    n: int,
)
    requires
        8 <= size <= 46340,
        0 <= room <= size,
        1 <= n <= heard.len(),
        heard[0] matches Some((width, _)) && width > 0 && in_proportion(
            first,
            size,
            room,
            width as int,
        ),
        first - (n - 1) >= 4,
        forall|k: int|
            1 <= k < n ==> (#[trigger] heard[k]) is Some && !fits(heard[k], size, room),
    ensures
        ({
            let height = first - (n - 1);
            &&& height < 5 ==> fitting(size, room, heard) == Fit::Nothing
            &&& height >= 5 && n == heard.len() ==> fitting(size, room, heard) == Fit::Measure(
                height as i32,
            )
            &&& height >= 5 && n < heard.len() && heard[n] is None ==> fitting(size, room, heard)
                == Fit::Nothing
            &&& height >= 5 && n < heard.len() && fits(heard[n], size, room) ==> fitting(
                size,
                room,
                heard,
            ) == Fit::Found(height as i32)
        }),
{
    let (wide, _) = heard[0].unwrap();
    let width = wide as int;
    let guess = size * room / width;
    let most = size * 3 / 2;
    assert(guess * width <= size * room < (guess + 1) * width) by {
        vstd::arithmetic::div_mod::lemma_fundamental_div_mod(size * room, width);
        assert(width * guess == guess * width) by (nonlinear_arith);
        assert((guess + 1) * width == guess * width + width) by (nonlinear_arith);
    }
    assert(first == first_height(size, room, width)) by {
        assert(first < guess ==> (first + 1) * width <= guess * width) by (nonlinear_arith)
            requires
                width > 0,
        ;
        assert(first > guess ==> (guess + 1) * width <= first * width) by (nonlinear_arith)
            requires
                width > 0,
        ;
    }
    a_misfit_is_lowered(size, room, first, heard, 1, n);
}

/// Nothing is drawn that was not measured.
pub proof fn a_number_is_measured_first(size: i32, room: int, heard: Seq<Option<(i32, i32)>>)
    ensures
        heard.len() == 0 ==> fitting(size as int, room, heard) == Fit::Measure(size),
        heard.len() > 0 && !(heard[0] matches Some((width, _)) && width > 0) ==> fitting(
            size as int,
            room,
            heard,
        ) == Fit::Nothing,
{
}

} // verus!
