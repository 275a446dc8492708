use raytracer::ppm::{encode_pixels, encode_ppm, pixel_line, ppm_header, Rgb8};

fn rgb(r: u8, g: u8, b: u8) -> Rgb8 {
    Rgb8 { r, g, b }
}

#[test]
fn header_lists_size_and_depth() {
    assert_eq!(ppm_header(400, 225), b"P3\n400 225\n255\n".to_vec());
    assert_eq!(ppm_header(0, 7), b"P3\n0 7\n255\n".to_vec());
    assert_eq!(ppm_header(4294967295, 10), b"P3\n4294967295 10\n255\n".to_vec());
}

#[test]
fn pixel_line_prints_channels() {
    assert_eq!(pixel_line(rgb(0, 0, 0)), b"0 0 0\n".to_vec());
    assert_eq!(pixel_line(rgb(255, 10, 7)), b"255 10 7\n".to_vec());
    assert_eq!(pixel_line(rgb(100, 99, 250)), b"100 99 250\n".to_vec());
}

#[test]
fn encode_pixels_keeps_order() {
    let row = vec![rgb(1, 2, 3), rgb(40, 50, 60)];
    assert_eq!(encode_pixels(&row), b"1 2 3\n40 50 60\n".to_vec());
    assert_eq!(encode_pixels(&vec![]), Vec::<u8>::new());
}

#[test]
fn encode_ppm_whole_image() {
    let pixels = vec![rgb(255, 0, 0), rgb(0, 255, 0), rgb(0, 0, 255), rgb(9, 9, 9)];
    let text = encode_ppm(2, 2, &pixels);
    assert_eq!(
        String::from_utf8(text).unwrap(),
        "P3\n2 2\n255\n255 0 0\n0 255 0\n0 0 255\n9 9 9\n"
    );
}

#[test]
fn scanlines_concatenate_to_whole_body() {
    let pixels = vec![rgb(1, 1, 1), rgb(2, 2, 2), rgb(3, 3, 3), rgb(4, 4, 4)];
    let mut by_rows = encode_pixels(&pixels[0..2].to_vec());
    by_rows.extend(encode_pixels(&pixels[2..4].to_vec()));
    assert_eq!(by_rows, encode_pixels(&pixels));
}
