use fractal_gen::image::{Image, Pixel, PixelParseError};

#[test]
fn pixel_from_string() {
    assert_eq!(Pixel::from_string("0   0 0"), Ok(Pixel::new(0, 0, 0)));
    assert_eq!(Pixel::from_string("   1 2 3 "), Ok(Pixel::new(1, 2, 3)));
    assert_eq!(Pixel::from_string("0 0  0   "), Ok(Pixel::new(0, 0, 0)));
    assert_eq!(Pixel::from_string("  255 255   255   "), Ok(Pixel::new(255, 255, 255)));
}

#[test]
fn pixel_from_string_spaced_scenario() {
    assert_eq!(Pixel::from_string("  1 2 3 "), Ok(Pixel::new(1, 2, 3)));
    assert_eq!(Pixel::from_string("1 2"), Err(PixelParseError::WrongCount(2)));
    assert_eq!(Pixel::from_string("256 0 0"), Err(PixelParseError::InvalidNumber));
}

#[test]
fn pixel_number_out_of_range_is_rejected() {
    assert_eq!(Pixel::from_string("256 0 0"), Err(PixelParseError::InvalidNumber));
    assert_eq!(Pixel::from_string("-1 42 13"), Err(PixelParseError::InvalidNumber));
    assert_eq!(Pixel::from_string("1000 0 0"), Err(PixelParseError::InvalidNumber));
}

#[test]
fn pixel_wrong_count_is_rejected() {
    assert_eq!(Pixel::from_string("0 0"), Err(PixelParseError::WrongCount(2)));
    assert_eq!(Pixel::from_string("0 0 0 0"), Err(PixelParseError::WrongCount(4)));
    assert_eq!(Pixel::from_string(""), Err(PixelParseError::WrongCount(0)));
    assert_eq!(Pixel::from_string("   "), Err(PixelParseError::WrongCount(0)));
}

#[test]
fn pixel_bad_word_wins_over_count() {
    assert_eq!(Pixel::from_string("1 x"), Err(PixelParseError::InvalidNumber));
    assert_eq!(Pixel::from_string("1 2 3 +"), Err(PixelParseError::InvalidNumber));
}

#[test]
fn pixel_from_string_sign_zeros_and_unicode_space() {
    assert_eq!(Pixel::from_string("+1 007\t255"), Ok(Pixel::new(1, 7, 255)));
    assert_eq!(Pixel::from_string("4\u{a0}5\u{3000}6\n"), Ok(Pixel::new(4, 5, 6)));
}

#[test]
fn pixel_default_is_opaque_black() {
    let p = Pixel::default();
    assert_eq!(p, Pixel { red: 0, green: 0, blue: 0, alfa: 255 });
    assert_eq!(Pixel::new(9, 8, 7).alfa, 255);
    assert_eq!(Pixel::from_rgb_tuple((9, 8, 7)), Pixel::new(9, 8, 7));
}

#[test]
fn pixel_plain_format() {
    assert_eq!(Pixel::new(255, 0, 7).plain_ppm_pixel_format(), " 255 0 7 ");
    assert_eq!(Pixel::new(10, 99, 100).plain_ppm_pixel_format(), " 10 99 100 ");
}

#[test]
fn image_plain_format_header() {
    let img = Image::new(2, 2);
    let text = img.plain_ppm_format();
    assert!(text.starts_with("P3\n2 2\n255\n"));
    assert_eq!(text, "P3\n2 2\n255\n 0 0 0  0 0 0  0 0 0  0 0 0 ");
}

#[test]
fn image_plain_format_wraps_every_five_pixels() {
    let mut img = Image::new(3, 2);
    img.set_pixel(5, Pixel::new(1, 2, 3));
    assert_eq!(
        img.plain_ppm_format(),
        "P3\n3 2\n255\n 0 0 0  0 0 0  0 0 0  0 0 0  0 0 0 \n 1 2 3 "
    );
    let img = Image::new(5, 2);
    let text = img.plain_ppm_format();
    assert!(text.ends_with(" 0 0 0 \n"));
    assert_eq!(text.matches('\n').count(), 3 + 2);
}

#[test]
fn image_empty_plain_format() {
    let img = Image::new(0, 7);
    assert_eq!(img.plain_ppm_format(), "P3\n0 7\n255\n");
    assert_eq!(img.raw_pixels().len(), 0);
}

#[test]
fn image_setters_change_one_channel() {
    let mut img = Image::new(2, 2);
    img.set_red(1, 10);
    img.set_green(1, 20);
    img.set_blue(3, 30);
    let px = img.raw_pixels();
    assert_eq!(px.len(), 4);
    assert_eq!(px[0], Pixel::default());
    assert_eq!(px[1], Pixel { red: 10, green: 20, blue: 0, alfa: 255 });
    assert_eq!(px[2], Pixel::default());
    assert_eq!(px[3], Pixel { red: 0, green: 0, blue: 30, alfa: 255 });
}

#[test]
fn image_clear_buffer_restores_background() {
    let mut img = Image::new(3, 1);
    img.set_pixel(0, Pixel::new(1, 1, 1));
    img.set_pixel(2, Pixel { red: 5, green: 6, blue: 7, alfa: 0 });
    img.clear_buffer();
    assert_eq!(img.raw_pixels(), &[Pixel::default(); 3][..]);
    assert_eq!(img.width, 3);
    assert_eq!(img.height, 1);
}
