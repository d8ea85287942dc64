use ovid::png::parse_png_header;
use std::io::Write;

fn write_chunk(buf: &mut Vec<u8>, chunk_type: &[u8; 4], data: &[u8]) {
    buf.extend_from_slice(&(data.len() as u32).to_be_bytes());
    buf.extend_from_slice(chunk_type);
    buf.extend_from_slice(data);
    let crc = crc32(chunk_type, data);
    buf.extend_from_slice(&crc.to_be_bytes());
}

fn crc32(chunk_type: &[u8], data: &[u8]) -> u32 {
    let mut crc: u32 = 0xFFFF_FFFF;
    for &b in chunk_type.iter().chain(data.iter()) {
        let mut c = (crc ^ b as u32) & 0xFF;
        for _ in 0..8 {
            if c & 1 != 0 {
                c = 0xEDB8_8320 ^ (c >> 1);
            } else {
                c >>= 1;
            }
        }
        crc = c ^ (crc >> 8);
    }
    crc ^ 0xFFFF_FFFF
}

fn zlib(data: &[u8]) -> Vec<u8> {
    let mut encoder = flate2::write::ZlibEncoder::new(Vec::new(), flate2::Compression::fast());
    encoder.write_all(data).unwrap();
    encoder.finish().unwrap()
}

fn make_minimal_png(width: u32, height: u32, color_type: u8, bit_depth: u8) -> Vec<u8> {
    let mut buf = Vec::new();
    buf.extend_from_slice(&[137, 80, 78, 71, 13, 10, 26, 10]);

    let mut ihdr = Vec::new();
    ihdr.extend_from_slice(&width.to_be_bytes());
    ihdr.extend_from_slice(&height.to_be_bytes());
    ihdr.push(bit_depth);
    ihdr.push(color_type);
    ihdr.push(0);
    ihdr.push(0);
    ihdr.push(0);
    write_chunk(&mut buf, b"IHDR", &ihdr);

    if color_type == 3 {
        let palette = vec![255, 0, 0, 0, 255, 0, 0, 0, 255, 255, 255, 255];
        write_chunk(&mut buf, b"PLTE", &palette);
    }

    let channels: usize = match color_type {
        0 => 1,
        2 => 3,
        3 => 1,
        4 => 2,
        6 => 4,
        _ => 1,
    };
    let row_bytes = width as usize * channels * (bit_depth as usize / 8);
    let mut raw = Vec::new();
    for _ in 0..height {
        raw.push(0);
        raw.extend(vec![128u8; row_bytes]);
    }
    write_chunk(&mut buf, b"IDAT", &zlib(&raw));

    write_chunk(&mut buf, b"IEND", &[]);
    buf
}

#[test]
fn png_header_rgb() {
    let data = make_minimal_png(16, 8, 2, 8);
    let info = parse_png_header(&data).unwrap();
    assert_eq!(info.width, 16);
    assert_eq!(info.height, 8);
    assert_eq!(info.color_type, 2);
    assert_eq!(info.bit_depth, 8);
    assert!(!info.idat_data.is_empty());
    assert!(info.plte_data.is_empty());
}

#[test]
fn png_header_grayscale() {
    let data = make_minimal_png(32, 32, 0, 8);
    let info = parse_png_header(&data).unwrap();
    assert_eq!(info.width, 32);
    assert_eq!(info.height, 32);
    assert_eq!(info.color_type, 0);
    assert_eq!(info.bit_depth, 8);
}

#[test]
fn png_header_palette() {
    let data = make_minimal_png(4, 4, 3, 8);
    let info = parse_png_header(&data).unwrap();
    assert_eq!(info.color_type, 3);
    assert_eq!(info.plte_data.len(), 12);
}

#[test]
fn png_header_rgba() {
    let data = make_minimal_png(10, 10, 6, 8);
    let info = parse_png_header(&data).unwrap();
    assert_eq!(info.color_type, 6);
    assert_eq!(info.bit_depth, 8);
}

#[test]
fn png_header_gray_alpha() {
    let data = make_minimal_png(10, 10, 4, 8);
    let info = parse_png_header(&data).unwrap();
    assert_eq!(info.color_type, 4);
}

#[test]
fn png_header_16bit() {
    let data = make_minimal_png(8, 8, 2, 16);
    let info = parse_png_header(&data).unwrap();
    assert_eq!(info.bit_depth, 16);
    assert_eq!(info.color_type, 2);
}

#[test]
fn png_header_large_dimensions() {
    let data = make_minimal_png(4096, 3000, 2, 8);
    let info = parse_png_header(&data).unwrap();
    assert_eq!(info.width, 4096);
    assert_eq!(info.height, 3000);
}

#[test]
fn png_header_err_not_png() {
    assert!(parse_png_header(&[0xFF, 0xD8, 0xFF, 0xE0, 0, 0, 0, 0]).is_err());
}

#[test]
fn png_header_err_too_short() {
    assert!(parse_png_header(&[137, 80, 78, 71]).is_err());
}

#[test]
fn png_header_err_no_idat() {
    let mut buf = Vec::new();
    buf.extend_from_slice(&[137, 80, 78, 71, 13, 10, 26, 10]);
    let mut ihdr = Vec::new();
    ihdr.extend_from_slice(&4u32.to_be_bytes());
    ihdr.extend_from_slice(&4u32.to_be_bytes());
    ihdr.push(8);
    ihdr.push(2);
    ihdr.push(0);
    ihdr.push(0);
    ihdr.push(0);
    write_chunk(&mut buf, b"IHDR", &ihdr);
    write_chunk(&mut buf, b"IEND", &[]);
    assert!(parse_png_header(&buf).is_err());
}

#[test]
fn png_header_multiple_idat_chunks() {
    let mut buf = Vec::new();
    buf.extend_from_slice(&[137, 80, 78, 71, 13, 10, 26, 10]);

    let mut ihdr = Vec::new();
    ihdr.extend_from_slice(&4u32.to_be_bytes());
    ihdr.extend_from_slice(&4u32.to_be_bytes());
    ihdr.push(8);
    ihdr.push(2);
    ihdr.push(0);
    ihdr.push(0);
    ihdr.push(0);
    write_chunk(&mut buf, b"IHDR", &ihdr);

    let mut raw = Vec::new();
    for _ in 0..4u32 {
        raw.push(0);
        raw.extend(vec![128u8; 12]);
    }
    let compressed = zlib(&raw);
    let mid = compressed.len() / 2;
    write_chunk(&mut buf, b"IDAT", &compressed[..mid]);
    write_chunk(&mut buf, b"IDAT", &compressed[mid..]);
    write_chunk(&mut buf, b"IEND", &[]);

    let info = parse_png_header(&buf).unwrap();
    assert_eq!(info.width, 4);
    assert_eq!(info.height, 4);
    assert_eq!(info.idat_data.len(), compressed.len());
    assert_eq!(info.idat_data, compressed);
}

/// An iCCP chunk's profile is extracted and decompressed; a corrupt
/// profile stream leaves the field absent.
#[test]
fn png_header_reads_iccp_profile() {
    let profile: Vec<u8> = b"a color profile".to_vec();
    let mut iccp = Vec::new();
    iccp.push(b'p'); // profile name
    iccp.push(0); // name terminator
    iccp.push(0); // compression method
    iccp.extend_from_slice(&zlib(&profile));
    let mut ihdr = Vec::new();
    ihdr.extend_from_slice(&4u32.to_be_bytes());
    ihdr.extend_from_slice(&4u32.to_be_bytes());
    ihdr.push(8);
    ihdr.push(2);
    ihdr.push(0);
    ihdr.push(0);
    ihdr.push(0);
    let mut raw = Vec::new();
    for _ in 0..4u32 {
        raw.push(0);
        raw.extend(vec![128u8; 12]);
    }

    let mut buf = Vec::new();
    buf.extend_from_slice(&[137, 80, 78, 71, 13, 10, 26, 10]);
    write_chunk(&mut buf, b"IHDR", &ihdr);
    write_chunk(&mut buf, b"iCCP", &iccp);
    write_chunk(&mut buf, b"IDAT", &zlib(&raw));
    write_chunk(&mut buf, b"IEND", &[]);
    let info = parse_png_header(&buf).unwrap();
    assert_eq!(info.icc_profile, Some(profile));

    let mut bad = Vec::new();
    bad.extend_from_slice(&[137, 80, 78, 71, 13, 10, 26, 10]);
    write_chunk(&mut bad, b"IHDR", &ihdr);
    write_chunk(&mut bad, b"iCCP", &[b'p', 0, 0, 9, 9, 9]);
    write_chunk(&mut bad, b"IDAT", &zlib(&raw));
    write_chunk(&mut bad, b"IEND", &[]);
    let info = parse_png_header(&bad).unwrap();
    assert_eq!(info.icc_profile, None);
}

/// A tRNS chunk is recorded; a pHYs chunk with the per-metre unit yields
/// the rounded resolution.
#[test]
fn png_header_reads_trns_and_phys() {
    let mut buf = Vec::new();
    buf.extend_from_slice(&[137, 80, 78, 71, 13, 10, 26, 10]);
    let mut ihdr = Vec::new();
    ihdr.extend_from_slice(&4u32.to_be_bytes());
    ihdr.extend_from_slice(&4u32.to_be_bytes());
    ihdr.push(8);
    ihdr.push(2);
    ihdr.push(0);
    ihdr.push(0);
    ihdr.push(0);
    write_chunk(&mut buf, b"IHDR", &ihdr);
    let mut phys = Vec::new();
    phys.extend_from_slice(&11811u32.to_be_bytes());
    phys.extend_from_slice(&11811u32.to_be_bytes());
    phys.push(1);
    write_chunk(&mut buf, b"pHYs", &phys);
    write_chunk(&mut buf, b"tRNS", &[0, 0, 0, 0, 0, 0]);
    let mut raw = Vec::new();
    for _ in 0..4u32 {
        raw.push(0);
        raw.extend(vec![128u8; 12]);
    }
    write_chunk(&mut buf, b"IDAT", &zlib(&raw));
    write_chunk(&mut buf, b"IEND", &[]);

    let info = parse_png_header(&buf).unwrap();
    assert!(info.has_trns);
    assert_eq!(info.dpi, Some(300));
}
