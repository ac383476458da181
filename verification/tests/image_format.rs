use ray_tracing_rust::color::Pixel;
use ray_tracing_rust::color::push_dec;
use ray_tracing_rust::image::Image;
use ray_tracing_rust::image::ImageCoordinate;

#[test]
fn pixel_construction_keeps_the_channels() {
    let p = Pixel::new(12, 34, 56);
    assert_eq!(p.r, 12);
    assert_eq!(p.g, 34);
    assert_eq!(p.b, 56);
}

#[test]
fn default_pixel_is_black() {
    let p = Pixel::default();
    assert_eq!(p, Pixel::new(0, 0, 0));
}

#[test]
fn pixel_renders_as_one_text_line() {
    let mut out: Vec<u8> = Vec::new();
    Pixel::new(0, 128, 255).render_into(&mut out);
    assert_eq!(out, b"0 128 255\n".to_vec());
}

#[test]
fn decimal_rendering_is_exact() {
    let cases: [(u64, &[u8]); 5] = [
        (0, b"0"),
        (7, b"7"),
        (10, b"10"),
        (255, b"255"),
        (18446744073709551615, b"18446744073709551615"),
    ];
    for (n, expected) in cases {
        let mut out: Vec<u8> = Vec::new();
        push_dec(&mut out, n);
        assert_eq!(out, expected.to_vec());
    }
}

#[test]
fn default_image_is_all_black() {
    let image: Image<4, 3> = Image::default();
    for y in 0..3 {
        for x in 0..4 {
            let p = image.get(ImageCoordinate { x, y });
            assert_eq!(p, Pixel::new(0, 0, 0));
        }
    }
}

#[test]
fn set_replaces_one_pixel_only() {
    let mut image: Image<4, 3> = Image::default();
    let marked = Pixel::new(9, 8, 7);
    image.set(ImageCoordinate { x: 2, y: 1 }, marked);
    for y in 0..3 {
        for x in 0..4 {
            let p = image.get(ImageCoordinate { x, y });
            if x == 2 && y == 1 {
                assert_eq!(p, marked);
            } else {
                assert_eq!(p, Pixel::new(0, 0, 0));
            }
        }
    }
}

#[test]
fn gradient_scales_span_the_channel_range() {
    assert_eq!(Image::<512, 512>::ppm_scale_x(0), 0);
    assert_eq!(Image::<512, 512>::ppm_scale_x(255), 127);
    assert_eq!(Image::<512, 512>::ppm_scale_x(511), 255);
    assert_eq!(Image::<2, 2>::ppm_scale_y(0), 0);
    assert_eq!(Image::<2, 2>::ppm_scale_y(1), 255);
}

#[test]
fn gradient_image_round_trips_to_the_exact_text() {
    let image: Image<2, 2> = Image::generate_red_green_scan();
    let text = image.to_ppm();
    let expected = b"P3 2 2 255\n\n0 0 0\n255 0 0\n0 255 0\n255 255 0\n".to_vec();
    assert_eq!(text, expected);
}

#[test]
fn serialization_has_header_blank_line_and_pixel_lines() {
    let image: Image<3, 2> = Image::default();
    let text = image.to_ppm();
    let expected = b"P3 3 2 255\n\n0 0 0\n0 0 0\n0 0 0\n0 0 0\n0 0 0\n0 0 0\n".to_vec();
    assert_eq!(text, expected);
}

#[test]
fn iteration_yields_width_times_height_pixels_in_row_major_order() {
    let mut image: Image<4, 3> = Image::default();
    for y in 0..3 {
        for x in 0..4 {
            image.set(
                ImageCoordinate { x, y },
                Pixel::new(x as u8, y as u8, 0),
            );
        }
    }
    let pixels = image.into_pixels();
    assert_eq!(pixels.len(), 12);
    for y in 0..3 {
        for x in 0..4 {
            assert_eq!(pixels[y * 4 + x], Pixel::new(x as u8, y as u8, 0));
        }
    }
}

#[test]
fn gradient_pixels_follow_the_scale_formula() {
    let image: Image<5, 4> = Image::generate_red_green_scan();
    for y in 0..4usize {
        for x in 0..5usize {
            let p = image.get(ImageCoordinate { x, y });
            let red = (x * 256 / 4).min(255) as u8;
            let green = (y * 256 / 3).min(255) as u8;
            assert_eq!(p, Pixel::new(red, green, 0));
        }
    }
}
