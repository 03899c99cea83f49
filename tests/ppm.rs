use raytracer::{encode_ppm, Rgb8};

fn px(r: u8, g: u8, b: u8) -> Rgb8 {
    Rgb8 { r, g, b }
}

/// A decoder for the tests alone: width, height and the pixel triples.
fn decode_ppm(text: &str) -> (usize, usize, Vec<Rgb8>) {
    let mut lines = text.lines();
    assert_eq!(lines.next(), Some("P3"));
    let dims: Vec<usize> = lines
        .next()
        .unwrap()
        .split(' ')
        .map(|t| t.parse().unwrap())
        .collect();
    assert_eq!(dims.len(), 2);
    assert_eq!(lines.next(), Some("255"));
    let mut pixels = Vec::new();
    for line in lines {
        let c: Vec<u8> = line.split(' ').map(|t| t.parse().unwrap()).collect();
        assert_eq!(c.len(), 3);
        pixels.push(px(c[0], c[1], c[2]));
    }
    (dims[0], dims[1], pixels)
}

#[test]
fn ppm_header_and_lines() {
    let pixels = vec![px(255, 0, 128), px(1, 22, 7)];
    assert_eq!(encode_ppm(2, 1, &pixels), "P3\n2 1\n255\n255 0 128\n1 22 7\n");
}

#[test]
fn ppm_empty_image() {
    assert_eq!(encode_ppm(0, 0, &Vec::new()), "P3\n0 0\n255\n");
}

#[test]
fn ppm_large_dimensions() {
    let text = encode_ppm(1920, 1080, &Vec::new());
    assert_eq!(text, "P3\n1920 1080\n255\n");
}

#[test]
fn ppm_channel_extremes() {
    let pixels = vec![px(0, 0, 0), px(255, 255, 255), px(9, 10, 99), px(100, 200, 250)];
    assert_eq!(
        encode_ppm(2, 2, &pixels),
        "P3\n2 2\n255\n0 0 0\n255 255 255\n9 10 99\n100 200 250\n"
    );
}

#[test]
fn ppm_round_trip_through_decoder() {
    let mut pixels = Vec::new();
    for y in 0..3u32 {
        for x in 0..4u32 {
            pixels.push(px((x * 60) as u8, (y * 120) as u8, ((x * 7 + y * 31) % 256) as u8));
        }
    }
    let text = encode_ppm(4, 3, &pixels);
    assert_eq!(decode_ppm(&text), (4, 3, pixels));
}
