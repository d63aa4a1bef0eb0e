use base64::Engine;
use usehid::encoding::{bgra_to_rgba, png_from_bgra, to_base64};
use usehid::screenshot::crop_geometry;
use usehid::Error;

#[test]
fn base64_vectors() {
    let cases: [(&[u8], &str); 7] = [
        (b"", ""),
        (b"f", "Zg=="),
        (b"fo", "Zm8="),
        (b"foo", "Zm9v"),
        (b"foob", "Zm9vYg=="),
        (b"fooba", "Zm9vYmE="),
        (b"foobar", "Zm9vYmFy"),
    ];
    for (input, expected) in cases {
        assert_eq!(to_base64(&input.to_vec()), expected);
    }
    let bytes: Vec<u8> = (0..=255u8).collect();
    let text = to_base64(&bytes);
    assert_eq!(text.len(), 4 * ((bytes.len() + 2) / 3));
    assert_eq!(base64::engine::general_purpose::STANDARD.decode(text).unwrap(), bytes);
}

#[test]
fn swap_red_and_blue() {
    let mut p = vec![1, 2, 3, 4, 5, 6, 7, 8, 9, 10];
    bgra_to_rgba(&mut p);
    assert_eq!(p, vec![3, 2, 1, 4, 7, 6, 5, 8, 9, 10]);
}

#[test]
fn png_of_a_capture() {
    // Two pixels, BGRA: pure blue, then pure red, both opaque.
    let pixels = vec![255, 0, 0, 255, 0, 0, 255, 255];
    let png = png_from_bgra(2, 1, pixels).expect("encodes");
    assert_eq!(&png[..8], &[137, 80, 78, 71, 13, 10, 26, 10]);
    let decoder = png::Decoder::new(std::io::Cursor::new(png));
    let mut reader = decoder.read_info().expect("header");
    let mut buf = vec![0u8; reader.output_buffer_size()];
    let info = reader.next_frame(&mut buf).expect("frame");
    assert_eq!((info.width, info.height), (2, 1));
    assert_eq!(info.color_type, png::ColorType::Rgba);
    assert_eq!(&buf[..8], &[0, 0, 255, 255, 255, 0, 0, 255]);
}

#[test]
fn png_errors() {
    match png_from_bgra(0, 5, vec![]) {
        Err(Error::ScreenshotFailed(m)) => assert_eq!(m, "PNG encode error: Zero width not allowed"),
        other => panic!("unexpected {:?}", other.map(|v| v.len())),
    }
    match png_from_bgra(5, 0, vec![]) {
        Err(Error::ScreenshotFailed(m)) => assert_eq!(m, "PNG encode error: Zero height not allowed"),
        other => panic!("unexpected {:?}", other.map(|v| v.len())),
    }
    match png_from_bgra(2, 2, vec![0; 15]) {
        Err(Error::ScreenshotFailed(m)) => assert_eq!(m, "PNG write error: wrong data size, expected 16 got 15"),
        other => panic!("unexpected {:?}", other.map(|v| v.len())),
    }
}

#[test]
fn crop_geometry_text() {
    assert_eq!(crop_geometry(100, 100, 400, 300), "400x300+100+100");
    assert_eq!(crop_geometry(-5, 0, 1, 2), "1x2+-5+0");
    assert_eq!(crop_geometry(i32::MIN, i32::MAX, u32::MAX, 0), format!("{}x{}+{}+{}", u32::MAX, 0, i32::MIN, i32::MAX));
}

#[test]
fn png_data_size_error_counts_bytes() {
    match png_from_bgra(1, 1, vec![]) {
        Err(Error::ScreenshotFailed(m)) => assert_eq!(m, "PNG write error: wrong data size, expected 4 got 0"),
        other => panic!("unexpected {:?}", other.map(|v| v.len())),
    }
    match png_from_bgra(3, 7, vec![0; 100]) {
        Err(Error::ScreenshotFailed(m)) => assert_eq!(m, "PNG write error: wrong data size, expected 84 got 100"),
        other => panic!("unexpected {:?}", other.map(|v| v.len())),
    }
}

#[test]
fn base64_decodes_back() {
    for n in 0..10usize {
        let bytes: Vec<u8> = (0..n).map(|i| (i * 97 + 13) as u8).collect();
        let text = to_base64(&bytes);
        assert_eq!(base64::engine::general_purpose::STANDARD.decode(&text).unwrap(), bytes);
    }
}
