use rust_gallery::container::photoshop_irb_blocks;

const PSIR_HEADER: &[u8] = b"Photoshop 3.0\0";

/// One JPEG segment: marker, 16-bit big-endian length (payload + 2), payload.
fn segment(marker: u8, payload: &[u8]) -> Vec<u8> {
    let mut out = vec![0xff, marker];
    out.extend_from_slice(&((payload.len() + 2) as u16).to_be_bytes());
    out.extend_from_slice(payload);
    out
}

fn app13(block: &[u8]) -> Vec<u8> {
    let mut payload = PSIR_HEADER.to_vec();
    payload.extend_from_slice(block);
    segment(0xed, &payload)
}

#[test]
fn app13_block_is_extracted() {
    let mut jpeg = vec![0xff, 0xd8]; // start of image
    jpeg.extend_from_slice(&app13(b"8BIM-bytes"));
    jpeg.extend_from_slice(&[0xff, 0xda, 0x00, 0x04, 0, 0]); // start of scan
    assert_eq!(photoshop_irb_blocks(&jpeg), vec![b"8BIM-bytes".to_vec()]);
}

#[test]
fn blocks_come_in_segment_order() {
    let mut jpeg = vec![0xff, 0xd8];
    jpeg.extend_from_slice(&segment(0xe0, b"JFIF\0rest"));
    jpeg.extend_from_slice(&app13(b"first"));
    jpeg.extend_from_slice(&app13(b"second"));
    assert_eq!(
        photoshop_irb_blocks(&jpeg),
        vec![b"first".to_vec(), b"second".to_vec()]
    );
}

#[test]
fn fill_bytes_before_marker_are_skipped() {
    // Extra 0xff fill bytes may pad the stream before a marker byte; the
    // walk must not read a fill byte as a marker with a bogus length.
    let mut jpeg = vec![0xff, 0xd8];
    jpeg.extend_from_slice(&[0xff, 0xff, 0xff]);
    jpeg.extend_from_slice(&app13(b"padded"));
    assert_eq!(photoshop_irb_blocks(&jpeg), vec![b"padded".to_vec()]);
}

#[test]
fn standalone_markers_are_stepped_over() {
    let mut jpeg = vec![0xff, 0xd8];
    jpeg.extend_from_slice(&[0xff, 0x01]); // temporary marker, no length
    jpeg.extend_from_slice(&app13(b"after"));
    assert_eq!(photoshop_irb_blocks(&jpeg), vec![b"after".to_vec()]);
}

#[test]
fn app13_without_photoshop_header_is_skipped() {
    let mut jpeg = vec![0xff, 0xd8];
    jpeg.extend_from_slice(&segment(0xed, b"Adobe_Photoshop2.5:ignored"));
    jpeg.extend_from_slice(&app13(b"kept"));
    assert_eq!(photoshop_irb_blocks(&jpeg), vec![b"kept".to_vec()]);
}

#[test]
fn other_marker_with_photoshop_payload_is_not_collected() {
    let mut payload = PSIR_HEADER.to_vec();
    payload.extend_from_slice(b"not-app13");
    let mut jpeg = vec![0xff, 0xd8];
    jpeg.extend_from_slice(&segment(0xe2, &payload));
    assert_eq!(photoshop_irb_blocks(&jpeg), Vec::<Vec<u8>>::new());
}

#[test]
fn walk_stops_at_start_of_scan() {
    let mut jpeg = vec![0xff, 0xd8];
    jpeg.extend_from_slice(&[0xff, 0xda, 0x00, 0x04, 0, 0]);
    jpeg.extend_from_slice(&app13(b"in-scan-data"));
    assert_eq!(photoshop_irb_blocks(&jpeg), Vec::<Vec<u8>>::new());
}

#[test]
fn truncated_segment_ends_the_walk_quietly() {
    let mut jpeg = vec![0xff, 0xd8];
    jpeg.extend_from_slice(&app13(b"kept"));
    jpeg.extend_from_slice(&[0xff, 0xe1, 0xff, 0xff, 0, 0]); // length runs past the end
    assert_eq!(photoshop_irb_blocks(&jpeg), vec![b"kept".to_vec()]);
}

#[test]
fn not_a_jpeg_yields_no_blocks() {
    assert_eq!(photoshop_irb_blocks(b"plain text"), Vec::<Vec<u8>>::new());
    assert_eq!(photoshop_irb_blocks(&[]), Vec::<Vec<u8>>::new());
}
