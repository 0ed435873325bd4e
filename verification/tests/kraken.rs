use bimage::error::ConvertError;
use bimage::kraken::{begin_frame, compress_bound, finish_frame, FRAME_HEADER_LEN};

#[test]
fn frame_of_testcompression() {
    let input = b"testcompression";
    assert_eq!(input.len(), 15);
    let mut frame = begin_frame(input.len()).unwrap();
    assert_eq!(frame[0..8], [0x44, 0x49, 0x56, 0x49, 0x4E, 0x49, 0x54, 0x59]);
    assert_eq!(frame[0..8], *b"DIVINITY");
    assert_eq!(frame[8..16], [15, 0, 0, 0, 0, 0, 0, 0]);
    assert_eq!(frame.len(), 16 + 15 + 274);
    assert!(frame[16..].iter().all(|b| *b == 0));

    // What the compressor writes for this input: two bytes and the text.
    let mut compressed = vec![204u8, 6];
    compressed.extend_from_slice(input);
    frame[16..16 + compressed.len()].copy_from_slice(&compressed);
    let framed = finish_frame(frame, compressed.len() as i32).unwrap();
    let expected = vec![
        68, 73, 86, 73, 78, 73, 84, 89, 15, 0, 0, 0, 0, 0, 0, 0, 204, 6, 116, 101, 115, 116, 99, 111, 109,
        112, 114, 101, 115, 115, 105, 111, 110,
    ];
    assert_eq!(framed, expected);
}

#[test]
fn compress_bound_formula() {
    assert_eq!(compress_bound(0), Some(0));
    assert_eq!(compress_bound(1), Some(1 + 274));
    assert_eq!(compress_bound(15), Some(15 + 274));
    assert_eq!(compress_bound(0x40000), Some(0x40000 + 274));
    assert_eq!(compress_bound(0x40001), Some(0x40001 + 2 * 274));
    assert_eq!(compress_bound(0x80000), Some(0x80000 + 2 * 274));
    assert_eq!(compress_bound(1_000_000), Some(1_000_000 + 4 * 274));
}

#[test]
fn compress_bound_stops_at_what_the_compressor_can_report() {
    // 2_145_239_168 + 274 * 8184 = 2_147_481_584, under i32::MAX.
    assert_eq!(compress_bound(2_145_239_168), Some(2_147_481_584));
    assert_eq!(compress_bound(0x7FFF_FFFF), None);
    assert_eq!(compress_bound(2_145_400_000), None);
    assert_eq!(begin_frame(0x7FFF_FFFF), Err(ConvertError::CodecFailure));
}

#[test]
fn frame_header_holds_the_length() {
    assert_eq!(FRAME_HEADER_LEN, 16);
    let frame = begin_frame(0x0102_0304).unwrap();
    assert_eq!(frame[0..8], *b"DIVINITY");
    assert_eq!(frame[8..16], [4, 3, 2, 1, 0, 0, 0, 0]);
    assert_eq!(frame.len(), 16 + 0x0102_0304 + 274 * 65);
    let empty = begin_frame(0).unwrap();
    assert_eq!(empty, [0x44, 0x49, 0x56, 0x49, 0x4E, 0x49, 0x54, 0x59, 0, 0, 0, 0, 0, 0, 0, 0]);
}

#[test]
fn a_report_that_is_not_positive_is_a_codec_failure() {
    let frame = begin_frame(10).unwrap();
    assert_eq!(finish_frame(frame.clone(), 0), Err(ConvertError::CodecFailure));
    assert_eq!(finish_frame(frame.clone(), -1), Err(ConvertError::CodecFailure));
    assert_eq!(finish_frame(frame, i32::MIN), Err(ConvertError::CodecFailure));
}

#[test]
fn finish_cuts_behind_the_reported_bytes() {
    let mut frame = begin_frame(4).unwrap();
    for (i, byte) in frame.iter_mut().enumerate().skip(16) {
        *byte = i as u8;
    }
    let cut = finish_frame(frame.clone(), 1).unwrap();
    assert_eq!(cut, frame[..17]);
    let cut = finish_frame(frame.clone(), 278).unwrap();
    assert_eq!(cut, frame);
    // A report beyond the buffer leaves the buffer as it is.
    let cut = finish_frame(frame.clone(), 279).unwrap();
    assert_eq!(cut, frame);
    let cut = finish_frame(frame.clone(), i32::MAX).unwrap();
    assert_eq!(cut, frame);
}
