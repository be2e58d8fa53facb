use fractal_gen::color::hsl_to_rgb;
use fractal_gen::image::Pixel;
use fractal_gen::render::{paint_escapes, RenderTarget};

#[test]
fn render_colours_escapes_only() {
    let mut t = RenderTarget::new(2, 2);
    t.render(&[Some(0), None, Some(30), None]);
    let px = t.raw_pixels();
    assert_eq!(px[0], Pixel::from_rgb_tuple(hsl_to_rgb(0)));
    assert_eq!(px[0], Pixel::new(0, 255, 255));
    assert_eq!(px[1], Pixel::default());
    assert_eq!(px[2], Pixel::new(0, 128, 255));
    assert_eq!(px[3], Pixel::default());
}

#[test]
fn render_twice_gives_same_buffer() {
    let counts = vec![Some(3), None, Some(200), Some(0), None, Some(61)];
    let mut t = RenderTarget::new(3, 2);
    t.render(&counts);
    let first: Vec<Pixel> = t.raw_pixels().to_vec();
    t.render(&counts);
    assert_eq!(t.raw_pixels(), &first[..]);
}

#[test]
fn render_clears_earlier_pass() {
    let mut t = RenderTarget::new(2, 1);
    t.render(&[Some(5), Some(6)]);
    t.render(&[None, None]);
    assert_eq!(t.raw_pixels(), &[Pixel::default(); 2][..]);
    assert_eq!(t.image().width, 2);
    assert_eq!(t.image().height, 1);
}

#[test]
fn paint_keeps_unescaped_pixels() {
    let mut t = RenderTarget::new(2, 1);
    t.render(&[Some(5), None]);
    let mut img = fractal_gen::image::Image::new(2, 1);
    img.set_pixel(1, Pixel::new(1, 2, 3));
    paint_escapes(&mut img, &[Some(5), None]);
    assert_eq!(img.raw_pixels()[0], t.raw_pixels()[0]);
    assert_eq!(img.raw_pixels()[1], Pixel::new(1, 2, 3));
}
