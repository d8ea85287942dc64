use ovid::jpeg::{parse_jpeg_header, parse_jpeg_info};

fn make_minimal_jpeg(width: u16, height: u16, components: u8) -> Vec<u8> {
    let mut buf = Vec::new();
    buf.extend_from_slice(&[0xFF, 0xD8]);
    let sof_len: u16 = 8 + 3 * components as u16;
    buf.extend_from_slice(&[0xFF, 0xC0]);
    buf.extend_from_slice(&sof_len.to_be_bytes());
    buf.push(8);
    buf.extend_from_slice(&height.to_be_bytes());
    buf.extend_from_slice(&width.to_be_bytes());
    buf.push(components);
    for i in 0..components {
        buf.push(i + 1);
        buf.push(0x11);
        buf.push(0);
    }
    buf.extend_from_slice(&[0xFF, 0xD9]);
    buf
}

#[test]
fn jpeg_header_rgb() {
    let data = make_minimal_jpeg(640, 480, 3);
    let (w, h, c) = parse_jpeg_header(&data).unwrap();
    assert_eq!((w, h, c), (640, 480, 3));
}

#[test]
fn jpeg_header_grayscale() {
    let data = make_minimal_jpeg(100, 200, 1);
    let (w, h, c) = parse_jpeg_header(&data).unwrap();
    assert_eq!((w, h, c), (100, 200, 1));
}

#[test]
fn jpeg_header_large_dimensions() {
    let data = make_minimal_jpeg(4096, 3000, 3);
    let (w, h, c) = parse_jpeg_header(&data).unwrap();
    assert_eq!((w, h, c), (4096, 3000, 3));
}

#[test]
fn jpeg_header_with_app0_before_sof() {
    let mut buf = Vec::new();
    buf.extend_from_slice(&[0xFF, 0xD8]);
    buf.extend_from_slice(&[0xFF, 0xE0]);
    let app0_payload = vec![0u8; 14];
    let app0_len = (app0_payload.len() + 2) as u16;
    buf.extend_from_slice(&app0_len.to_be_bytes());
    buf.extend_from_slice(&app0_payload);
    let sof_len: u16 = 8 + 3 * 3;
    buf.extend_from_slice(&[0xFF, 0xC0]);
    buf.extend_from_slice(&sof_len.to_be_bytes());
    buf.push(8);
    buf.extend_from_slice(&480u16.to_be_bytes());
    buf.extend_from_slice(&640u16.to_be_bytes());
    buf.push(3);
    for i in 0..3u8 {
        buf.push(i + 1);
        buf.push(0x11);
        buf.push(0);
    }
    buf.extend_from_slice(&[0xFF, 0xD9]);
    let (w, h, c) = parse_jpeg_header(&buf).unwrap();
    assert_eq!((w, h, c), (640, 480, 3));
}

#[test]
fn jpeg_header_sof2_progressive() {
    let mut buf = Vec::new();
    buf.extend_from_slice(&[0xFF, 0xD8]);
    let sof_len: u16 = 8 + 3 * 3;
    buf.extend_from_slice(&[0xFF, 0xC2]);
    buf.extend_from_slice(&sof_len.to_be_bytes());
    buf.push(8);
    buf.extend_from_slice(&768u16.to_be_bytes());
    buf.extend_from_slice(&1024u16.to_be_bytes());
    buf.push(3);
    for i in 0..3u8 {
        buf.push(i + 1);
        buf.push(0x11);
        buf.push(0);
    }
    buf.extend_from_slice(&[0xFF, 0xD9]);
    let (w, h, c) = parse_jpeg_header(&buf).unwrap();
    assert_eq!((w, h, c), (1024, 768, 3));
}

#[test]
fn jpeg_header_err_not_jpeg() {
    assert!(parse_jpeg_header(&[0x89, 0x50]).is_err());
}

#[test]
fn jpeg_header_err_too_short() {
    assert!(parse_jpeg_header(&[0xFF]).is_err());
}

#[test]
fn jpeg_header_err_no_sof() {
    let mut buf = Vec::new();
    buf.extend_from_slice(&[0xFF, 0xD8]);
    buf.extend_from_slice(&[0xFF, 0xD9]);
    assert!(parse_jpeg_header(&buf).is_err());
}

/// Fill bytes and restart markers before the start-of-frame marker are
/// skipped without affecting the parsed dimensions.
#[test]
fn jpeg_header_skips_fill_and_restart_markers() {
    let mut buf = Vec::new();
    buf.extend_from_slice(&[0xFF, 0xD8]);
    buf.extend_from_slice(&[0xFF, 0xFF, 0xFF, 0xD0, 0xFF, 0x00]);
    let sof_len: u16 = 8 + 3;
    buf.extend_from_slice(&[0xFF, 0xC0]);
    buf.extend_from_slice(&sof_len.to_be_bytes());
    buf.push(8);
    buf.extend_from_slice(&7u16.to_be_bytes());
    buf.extend_from_slice(&9u16.to_be_bytes());
    buf.push(1);
    buf.extend_from_slice(&[1, 0x11, 0]);
    buf.extend_from_slice(&[0xFF, 0xD9]);
    let (w, h, c) = parse_jpeg_header(&buf).unwrap();
    assert_eq!((w, h, c), (9, 7, 1));
}

/// A JFIF APP0 marker with density unit 1 carries the image resolution.
#[test]
fn jpeg_info_reads_jfif_dpi() {
    let mut buf = Vec::new();
    buf.extend_from_slice(&[0xFF, 0xD8]);
    buf.extend_from_slice(&[0xFF, 0xE0]);
    buf.extend_from_slice(&14u16.to_be_bytes());
    buf.extend_from_slice(b"JFIF\0");
    buf.push(1);
    buf.push(2);
    buf.push(1); // dots per inch
    buf.extend_from_slice(&150u16.to_be_bytes());
    buf.extend_from_slice(&150u16.to_be_bytes());
    let sof_len: u16 = 8 + 3;
    buf.extend_from_slice(&[0xFF, 0xC0]);
    buf.extend_from_slice(&sof_len.to_be_bytes());
    buf.push(8);
    buf.extend_from_slice(&10u16.to_be_bytes());
    buf.extend_from_slice(&20u16.to_be_bytes());
    buf.push(1);
    buf.extend_from_slice(&[1, 0x11, 0]);
    buf.extend_from_slice(&[0xFF, 0xD9]);
    let info = parse_jpeg_info(&buf).unwrap();
    assert_eq!(info.dpi, Some(150));
    assert_eq!((info.width, info.height), (20, 10));
}

/// An Adobe APP14 marker carries the color-transform code.
#[test]
fn jpeg_info_reads_adobe_transform() {
    let mut buf = Vec::new();
    buf.extend_from_slice(&[0xFF, 0xD8]);
    buf.extend_from_slice(&[0xFF, 0xEE]);
    buf.extend_from_slice(&14u16.to_be_bytes());
    buf.extend_from_slice(b"Adobe");
    buf.extend_from_slice(&[0, 100, 0, 0, 0, 0]);
    buf.push(2); // YCCK
    let sof_len: u16 = 8 + 3 * 4;
    buf.extend_from_slice(&[0xFF, 0xC0]);
    buf.extend_from_slice(&sof_len.to_be_bytes());
    buf.push(8);
    buf.extend_from_slice(&4u16.to_be_bytes());
    buf.extend_from_slice(&4u16.to_be_bytes());
    buf.push(4);
    for i in 0..4u8 {
        buf.push(i + 1);
        buf.push(0x11);
        buf.push(0);
    }
    buf.extend_from_slice(&[0xFF, 0xD9]);
    let info = parse_jpeg_info(&buf).unwrap();
    assert_eq!(info.adobe_color_transform, Some(2));
    assert_eq!(info.components, 4);
}
