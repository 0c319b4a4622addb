use yamato::icon::{
    centered, coverage_to_ink, fill_disc, grown_by_one, largest_that_fits, over, paint_disc,
    premultiplied, render, text_origin, tracking, Fit, INK, SMALLEST,
};

/// How much of each pixel a disc filling the icon covers, with one pixel of
/// feathering.
fn disc(size: i32) -> Vec<u8> {
    let radius = size as f32 / 2.0 - 0.5;
    let center = size as f32 / 2.0;
    let mut v = vec![];
    for y in 0..size {
        for x in 0..size {
            let dx = x as f32 + 0.5 - center;
            let dy = y as f32 + 0.5 - center;
            let coverage = (radius - (dx * dx + dy * dy).sqrt() + 0.5).clamp(0.0, 1.0);
            v.push((coverage * 255.0) as u8);
        }
    }
    v
}

#[test]
fn coverage_becomes_alpha_rather_than_color() {
    // What drawing text leaves behind: white where a glyph covered a pixel
    // fully, gray at its edges, black everywhere else.
    let mut pixels = vec![0x00ff_ffff, 0x0080_8080, 0x0000_0000];
    coverage_to_ink(&mut pixels, INK);

    assert_eq!(pixels[0] >> 24, 255, "a covered pixel should be opaque");
    assert!((pixels[1] >> 24) > 100 && (pixels[1] >> 24) < 150, "an edge should be partial");
    assert_eq!(pixels[2], 0, "an untouched pixel must stay transparent");
}

#[test]
fn nothing_is_ever_brighter_than_its_own_alpha() {
    for alpha in [0u32, 1, 64, 128, 254, 255] {
        let pixel = premultiplied(0x00ff_ffff, alpha);

        assert_eq!(pixel >> 24, alpha);
        for shift in [0, 8, 16] {
            assert!((pixel >> shift) & 0xff <= alpha, "channel above alpha at {alpha}");
        }
    }
}

#[test]
fn the_dot_covers_its_own_corner_and_leaves_the_rest_alone() {
    let size = 16;
    let mut pixels = vec![0u32; (size * size) as usize];
    fill_disc(&mut pixels, &disc(size), 0x00ff_0000);

    let at = |x: i32, y: i32| pixels[(y * size + x) as usize];

    assert!(at(8, 8) >> 24 > 200, "the middle should be solid");
    assert!(at(2, 8) >> 24 > 200, "the left edge should be inside the disc");
    assert!(at(13, 8) >> 24 > 200, "the right edge should be inside the disc");
    assert_eq!(at(0, 0), 0, "a corner should be outside the disc");
    assert_eq!(at(15, 15), 0, "the opposite corner too");
}

#[test]
fn an_impossible_size_is_refused_rather_than_drawn_badly() {
    for size in [0, -4, SMALLEST - 1, 1] {
        assert!(render(size, 0x00ff_0000, &vec![], true, &vec![]).is_none());
    }
}

/// The rows of each digit, three pixels wide and five high.
const DIGITS: [[u8; 5]; 10] = [
    [0b111, 0b101, 0b101, 0b101, 0b111],
    [0b010, 0b110, 0b010, 0b010, 0b111],
    [0b111, 0b001, 0b111, 0b100, 0b111],
    [0b111, 0b001, 0b111, 0b001, 0b111],
    [0b101, 0b101, 0b111, 0b001, 0b001],
    [0b111, 0b100, 0b111, 0b001, 0b111],
    [0b111, 0b100, 0b111, 0b101, 0b111],
    [0b111, 0b001, 0b010, 0b010, 0b010],
    [0b111, 0b101, 0b111, 0b101, 0b111],
    [0b111, 0b101, 0b111, 0b001, 0b111],
];

/// How wide and high text of so many digits is in a font of this height: a
/// digit is half as wide as the font is high, and the font has room below its
/// digits for letters that hang.
fn extent(height: i32, digits: usize) -> (i32, i32) {
    let each = (height + 1) / 2 + tracking(height, digits);
    (each * digits as i32, height)
}

/// A number on an icon, as drawing text leaves it: white on nothing, in the
/// tallest font that fits.
fn drawn_number(size: i32, number: u32) -> Vec<u32> {
    let text = format!("{number}");
    let mut heard: Vec<Option<(i32, i32)>> = vec![];
    let height = loop {
        match largest_that_fits(size, size - 2, &heard) {
            Fit::Measure(height) => heard.push(Some(extent(height, text.len()))),
            Fit::Found(height) => break height,
            Fit::Nothing => panic!("{number} does not fit in {size} pixels"),
        }
    };

    let (wide, high) = extent(height, text.len());
    let (left, top) = (text_origin(size, wide), text_origin(size, high));
    let each = wide / text.len() as i32;
    let tall = height * 3 / 4;
    let mut raw = vec![0u32; (size * size) as usize];
    for (at, digit) in text.bytes().enumerate() {
        let rows = DIGITS[(digit - b'0') as usize];
        for y in 0..tall {
            for x in 0..each {
                let lit = rows[(y * 5 / tall) as usize] >> (2 - x * 3 / each) & 1 == 1;
                let (px, py) = (left + at as i32 * each + x, top + y);
                if lit && (0..size).contains(&px) && (0..size).contains(&py) {
                    raw[(py * size + px) as usize] = 0x00ff_ffff;
                }
            }
        }
    }
    raw
}

fn icon_of(size: i32, number: u32) -> Vec<u32> {
    render(size, 0x0022_a844, &drawn_number(size, number), true, &disc(size))
        .expect("nothing rendered")
}

/// How many pixels of a slice of the icon, from one column to another, have
/// ink in them.
fn ink_in(pixels: &[u32], size: i32, from: i32, to: i32) -> usize {
    let mut count = 0;
    for y in 0..size {
        for x in from..to {
            if pixels[(y * size + x) as usize] >> 24 > 40 {
                count += 1;
            }
        }
    }
    count
}

#[test]
fn the_number_is_actually_drawn_and_not_just_promised() {
    // Ink in the right-hand two thirds is the number being there at all.
    for size in [16, 20, 24, 32] {
        for number in [7, 61, 100, 212] {
            let pixels = icon_of(size, number);

            assert_eq!(pixels.len(), (size * size) as usize);

            let digits = ink_in(&pixels, size, size / 3, size);
            assert!(
                digits > (size as usize) / 2,
                "{number} at {size} pixels drew almost nothing: {digits} pixels of ink"
            );

            let colored =
                pixels.iter().filter(|p| (**p & 0x00ff_ffff) != 0 && (**p >> 24) > 40).count();
            assert!(colored > 0, "nothing was colored at {size} pixels");
        }
    }
}

#[test]
fn the_digits_do_not_run_into_the_dot() {
    let size = 16;
    let pixels = icon_of(size, 61);
    let ink = |x: i32, y: i32| pixels[(y * size + x) as usize] & 0x00ff_ffff;

    let has_band = (0..size).any(|y| (0..size).any(|x| ink(x, y) == 0x0022_a844));
    assert!(has_band, "the band color is not in the icon at all");

    let center_band = (size / 4..3 * size / 4)
        .flat_map(|y| (size / 4..3 * size / 4).map(move |x| (x, y)))
        .filter(|(x, y)| ink(*x, *y) != 0x0022_a844)
        .count();
    assert!(center_band > 0, "no digits were drawn inside the disc");
}

#[test]
fn without_a_number_there_is_only_the_dot() {
    let size = 16;
    let pixels = render(size, 0x0022_a844, &vec![0; 256], false, &disc(size)).unwrap();
    assert!(pixels.iter().any(|p| p & 0x00ff_ffff == 0x0022_a844));
    assert_eq!(pixels[0], 0);
}

#[test]
fn the_digits_sit_in_the_middle() {
    // Centering on the font's box, which reserves space for letters that hang,
    // would sit the number high or low against the icons beside it.
    for size in [16, 20, 24, 32] {
        for number in [7, 61, 100] {
            let pixels = icon_of(size, number);
            let ink = |x: i32, y: i32| pixels[(y * size + x) as usize] >> 24 > 40;

            let rows: Vec<i32> = (0..size).filter(|y| (0..size).any(|x| ink(x, *y))).collect();
            let above = rows[0];
            let below = size - 1 - rows[rows.len() - 1];
            assert!(
                (above - below).abs() <= 2,
                "{number} at {size} px: {above} above, {below} below"
            );

            let columns: Vec<i32> = (0..size).filter(|x| (0..size).any(|y| ink(*x, y))).collect();
            let left = columns[0];
            let right = size - 1 - columns[columns.len() - 1];
            assert!(
                (left - right).abs() <= 2,
                "{number} at {size} px: {left} to the left, {right} to the right"
            );
        }
    }
}

#[test]
fn drawing_over_something_keeps_what_it_does_not_cover() {
    let ground = premultiplied(0x0000_00ff, 255);

    assert_eq!(over(premultiplied(0x00ff_0000, 0), ground), ground);
    assert_eq!(over(premultiplied(0x00ff_0000, 255), ground) >> 24, 255);
}

#[test]
fn a_disc_beneath_leaves_what_stands_over_it() {
    let white = premultiplied(0x00ff_ffff, 255);
    let mut pixels = vec![white; 4];
    paint_disc(&mut pixels, &vec![255, 255, 0, 0], 0x00ff_0000, true);
    assert_eq!(pixels, vec![white; 4]);
    paint_disc(&mut pixels, &vec![255, 0, 0, 0], 0x00ff_0000, false);
    assert_eq!(pixels[0], 0xffff_0000);
    assert_eq!(pixels[1], white);
}

#[test]
fn ink_is_moved_to_the_middle_and_none_is_lost() {
    let size = 8;
    let mut coverage = vec![0u8; 64];
    coverage[0] = 255;
    let moved = centered(&coverage, size);
    assert_eq!(moved.iter().filter(|c| **c == 255).count(), 1);
    let at = moved.iter().position(|c| *c == 255).unwrap() as i32;
    assert!((3..=4).contains(&(at % size)) && (3..=4).contains(&(at / size)));
    assert_eq!(centered(&moved, size), moved, "what is centered stays");
    let fat = grown_by_one(&moved, size);
    assert_eq!(fat.iter().filter(|c| **c > 0).count(), 9);

    // With no ink, and with no icon at all, there is nothing to move.
    assert_eq!(centered(&vec![24; 64], size), vec![24; 64]);
    assert!(centered(&vec![], 0).is_empty());
    assert!(grown_by_one(&vec![], 0).is_empty());
}

#[test]
fn text_is_drawn_as_large_as_fits() {
    let mut heard: Vec<Option<(i32, i32)>> = vec![];
    let mut tried = 0;
    loop {
        match largest_that_fits(16, 16, &heard) {
            Fit::Measure(height) => {
                tried += 1;
                assert!(tried < 100, "it never settles");
                heard.push(Some((height * 2, height)));
            }
            Fit::Found(height) => {
                assert!(height >= 5);
                break;
            }
            other => panic!("unexpected: {other:?}"),
        }
    }
    assert_eq!(text_origin(16, 10), 3);
    assert!(tracking(16, 3) <= 0);
}
