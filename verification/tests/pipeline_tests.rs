use rust_gallery::pipeline::{render_thumbnail, PipelineError, PixelFormat};

/// A small interleaved RGB buffer: `width * height` red pixels.
fn red_pixels(width: u16, height: u16) -> Vec<u8> {
    let mut out = Vec::new();
    for _ in 0..(width as usize * height as usize) {
        out.extend_from_slice(&[0xff, 0x00, 0x00]);
    }
    out
}

/// One IRB block whose single {0x04, 0x04} resource carries the given
/// keywords as IPTC-IIM records.
fn keyword_block(keywords: &[&str]) -> Vec<u8> {
    let mut payload = Vec::new();
    for k in keywords {
        payload.extend_from_slice(&[0x1c, 2, 25]);
        payload.push((k.len() >> 8) as u8);
        payload.push(k.len() as u8);
        payload.extend_from_slice(k.as_bytes());
    }
    let mut block = Vec::new();
    block.extend_from_slice(b"8BIM\x04\x04\x00\x00");
    block.extend_from_slice(&(payload.len() as u32).to_be_bytes());
    block.extend_from_slice(&payload);
    if payload.len() % 2 == 1 {
        block.push(0);
    }
    block
}

#[test]
fn round_trip_keeps_keywords_in_order() {
    let blocks = vec![keyword_block(&["alpha", "beta"]), keyword_block(&["gamma"])];
    let result = render_thumbnail(
        red_pixels(4, 4),
        4,
        4,
        PixelFormat::Rgb24,
        &blocks,
        "photo.jpg",
    );
    let (info, encoded) = result.expect("pipeline should succeed on RGB24");
    assert_eq!(
        info.keywords,
        vec!["alpha".to_string(), "beta".to_string(), "gamma".to_string()]
    );
    assert_eq!(info.filename, "600/photo.jpg");
    assert!(!encoded.is_empty());
}

#[test]
fn no_metadata_yields_empty_keywords() {
    let result = render_thumbnail(red_pixels(2, 2), 2, 2, PixelFormat::Rgb24, &[], "p.jpg");
    let (info, _) = result.expect("pipeline should succeed on RGB24");
    assert_eq!(info.keywords, Vec::<String>::new());
    assert_eq!(info.filename, "600/p.jpg");
}

#[test]
fn non_rgb24_format_fails() {
    for format in [PixelFormat::L8, PixelFormat::L16, PixelFormat::Cmyk32] {
        let result = render_thumbnail(vec![0; 16], 4, 4, format, &[], "p.jpg");
        assert!(matches!(result, Err(PipelineError::UnsupportedPixelFormat)));
    }
}

#[test]
fn oversized_pixel_buffer_still_succeeds() {
    // The codec contract asks only for at least 3 * width * height bytes.
    let mut pixels = red_pixels(2, 2);
    pixels.extend_from_slice(&[7, 7, 7]);
    let result = render_thumbnail(pixels, 2, 2, PixelFormat::Rgb24, &[], "p.jpg");
    assert!(result.is_ok());
}

#[test]
fn short_pixel_buffer_fails() {
    let mut pixels = red_pixels(4, 4);
    pixels.pop();
    let result = render_thumbnail(pixels, 4, 4, PixelFormat::Rgb24, &[], "p.jpg");
    assert!(matches!(result, Err(PipelineError::BufferTooSmall)));
}

#[test]
fn bad_block_still_writes_thumbnail() {
    let mut bad = keyword_block(&["lost"]);
    bad[0] = b'X';
    let blocks = vec![bad, keyword_block(&["kept"])];
    let result = render_thumbnail(red_pixels(2, 2), 2, 2, PixelFormat::Rgb24, &blocks, "p.jpg");
    let (info, _) = result.expect("a malformed block must not lose the thumbnail");
    assert_eq!(info.keywords, vec!["kept".to_string()]);
}
