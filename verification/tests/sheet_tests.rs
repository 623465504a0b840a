use sprite_splitter::names::make_sprite_file_name;
use sprite_splitter::names::split_file_name;
use sprite_splitter::names::push_decimal;
use sprite_splitter::Image;
use sprite_splitter::SpriteSheet;

fn blank_image(width: u32, height: u32) -> Image {
    let pixels = vec![0u8; (4 * width * height) as usize];
    Image::new(width, height, pixels).unwrap()
}

#[test]
fn image_new_checks_buffer_length() {
    assert!(Image::new(2, 2, vec![0u8; 16]).is_some());
    assert!(Image::new(2, 2, vec![0u8; 15]).is_none());
    assert!(Image::new(2, 2, vec![0u8; 12]).is_none());
    assert!(Image::new(0, 0, vec![]).is_some());
}

#[test]
fn crop_copies_the_requested_region() {
    // A 3x2 image whose pixel (x, y) has all four channel bytes equal to
    // 10 * y + x, so every pixel is distinguishable.
    let mut pixels = Vec::new();
    for y in 0..2u8 {
        for x in 0..3u8 {
            for _ in 0..4 {
                pixels.push(10 * y + x);
            }
        }
    }
    let img = Image::new(3, 2, pixels).unwrap();
    let cell = img.crop(1, 0, 2, 2);
    assert_eq!(cell.width, 2);
    assert_eq!(cell.height, 2);
    assert_eq!(cell.pixels, vec![
        1, 1, 1, 1, 2, 2, 2, 2, // row 0: pixels (1,0), (2,0)
        11, 11, 11, 11, 12, 12, 12, 12, // row 1: pixels (1,1), (2,1)
    ]);
}

#[test]
fn crop_leaves_the_source_unchanged() {
    let mut pixels = Vec::new();
    for i in 0..(4 * 4 * 2) {
        pixels.push(i as u8);
    }
    let img = Image::new(4, 2, pixels.clone()).unwrap();
    let _ = img.crop(2, 1, 2, 1);
    let _ = img.crop(0, 0, 4, 2);
    assert_eq!(img.pixels, pixels);
}

#[test]
fn four_cells_from_even_grid() {
    let img = blank_image(100, 100);
    let mut sheet = SpriteSheet::new(img, "img".to_string(), "png".to_string(), 2, 2);
    assert_eq!(sheet.img_width(), 100);
    assert_eq!(sheet.img_height(), 100);
    assert_eq!(sheet.sprite_width(), 50);
    assert_eq!(sheet.sprite_height(), 50);

    let mut names = Vec::new();
    while let Some(sprite) = sheet.next() {
        assert_eq!(sprite.image.width, 50);
        assert_eq!(sprite.image.height, 50);
        assert_eq!(sprite.image.pixels.len(), 4 * 50 * 50);
        names.push(sprite.file_name);
    }
    assert_eq!(names, vec![
        "img_1_1.png".to_string(),
        "img_1_2.png".to_string(),
        "img_2_1.png".to_string(),
        "img_2_2.png".to_string(),
    ]);
}

#[test]
fn remainder_pixels_are_dropped() {
    let img = blank_image(101, 100);
    let mut sheet = SpriteSheet::new(img, "img".to_string(), "png".to_string(), 1, 2);
    assert_eq!(sheet.sprite_width(), 50);
    assert_eq!(sheet.sprite_height(), 100);

    let mut count = 0;
    while let Some(sprite) = sheet.next() {
        assert_eq!(sprite.image.width, 50);
        assert_ne!(sprite.image.width, 51);
        assert_eq!(sprite.image.height, 100);
        count += 1;
    }
    assert_eq!(count, 2);
}

#[test]
fn zero_rows_produce_nothing() {
    let img = blank_image(100, 100);
    let mut sheet = SpriteSheet::new(img, "img".to_string(), "png".to_string(), 0, 5);
    assert_eq!(sheet.img_width(), 100);
    assert_eq!(sheet.img_height(), 100);
    assert!(sheet.next().is_none());
    assert!(sheet.next().is_none());
}

#[test]
fn zero_columns_produce_nothing() {
    let img = blank_image(64, 64);
    let mut sheet = SpriteSheet::new(img, "img".to_string(), "png".to_string(), 4, 0);
    assert!(sheet.next().is_none());
}

#[test]
fn exhaustion_is_permanent_and_leaves_state_alone() {
    let img = blank_image(10, 10);
    let mut sheet = SpriteSheet::new(img, "s".to_string(), "bmp".to_string(), 1, 1);
    assert!(sheet.next().is_some());
    for _ in 0..3 {
        assert!(sheet.next().is_none());
    }
    assert_eq!(sheet.img_width(), 10);
    assert_eq!(sheet.img_height(), 10);
    assert_eq!(sheet.sprite_width(), 10);
    assert_eq!(sheet.sprite_height(), 10);
}

#[test]
fn cells_carry_their_own_pixels() {
    // A 4x2 image split into a 1x2 grid: the left cell holds columns 0..2,
    // the right cell columns 2..4.
    let mut pixels = Vec::new();
    for y in 0..2u8 {
        for x in 0..4u8 {
            for _ in 0..4 {
                pixels.push(10 * y + x);
            }
        }
    }
    let img = Image::new(4, 2, pixels).unwrap();
    let mut sheet = SpriteSheet::new(img, "cell".to_string(), "png".to_string(), 1, 2);

    let left = sheet.next().unwrap();
    assert_eq!(left.file_name, "cell_1_1.png");
    assert_eq!(left.image.pixels, vec![
        0, 0, 0, 0, 1, 1, 1, 1, // row 0: pixels (0,0), (1,0)
        10, 10, 10, 10, 11, 11, 11, 11, // row 1: pixels (0,1), (1,1)
    ]);

    let right = sheet.next().unwrap();
    assert_eq!(right.file_name, "cell_1_2.png");
    assert_eq!(right.image.pixels, vec![
        2, 2, 2, 2, 3, 3, 3, 3, // row 0: pixels (2,0), (3,0)
        12, 12, 12, 12, 13, 13, 13, 13, // row 1: pixels (2,1), (3,1)
    ]);

    assert!(sheet.next().is_none());
}

#[test]
fn file_names_use_one_based_multi_digit_positions() {
    assert_eq!(make_sprite_file_name("sheet", "png", 1, 1), "sheet_1_1.png");
    assert_eq!(make_sprite_file_name("sheet", "png", 10, 7), "sheet_10_7.png");
    assert_eq!(make_sprite_file_name("a_b", "tar.gz", 123, 405), "a_b_123_405.tar.gz");
}

#[test]
fn decimal_rendering_matches_usual_notation() {
    let cases: Vec<(u32, &str)> = vec![
        (0, "0"),
        (7, "7"),
        (10, "10"),
        (99, "99"),
        (100, "100"),
        (4294967295, "4294967295"),
    ];
    for (n, expected) in cases {
        let mut s = String::new();
        push_decimal(&mut s, n);
        assert_eq!(s, expected);
    }
}

#[test]
fn wide_grid_walks_row_major() {
    let img = blank_image(12, 9);
    let mut sheet = SpriteSheet::new(img, "t".to_string(), "png".to_string(), 3, 4);
    assert_eq!(sheet.sprite_width(), 3);
    assert_eq!(sheet.sprite_height(), 3);
    let mut names = Vec::new();
    while let Some(sprite) = sheet.next() {
        names.push(sprite.file_name);
    }
    assert_eq!(names.len(), 12);
    let mut expected = Vec::new();
    for r in 1..=3 {
        for c in 1..=4 {
            expected.push(format!("t_{}_{}.png", r, c));
        }
    }
    assert_eq!(names, expected);
}

#[test]
fn split_file_name_takes_the_last_dot() {
    assert_eq!(
        split_file_name("img.png"),
        Some(("img".to_string(), "png".to_string()))
    );
    assert_eq!(
        split_file_name("archive.tar.gz"),
        Some(("archive.tar".to_string(), "gz".to_string()))
    );
    assert_eq!(
        split_file_name("trailing."),
        Some(("trailing".to_string(), "".to_string()))
    );
    assert_eq!(split_file_name("no_extension"), None);
    assert_eq!(split_file_name(".hidden"), None);
    assert_eq!(split_file_name(""), None);
    assert_eq!(split_file_name("a"), None);
}
