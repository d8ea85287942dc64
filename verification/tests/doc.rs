use ovid::assemble::{assemble_document, DocOptions};
use ovid::err::Error;
use ovid::layout::PageSize;
use ovid::object::{Dict, Document, PdfKey, PdfName, PdfObject};
use ovid::pdfdate::pdf_date_string;
use ovid::prepare::{prepare_image_bytes, PreparedImage};
use std::io::Write;

fn opts() -> DocOptions {
    DocOptions { dpi: None, pagesize: None, title: None, author: None, creation_epoch_secs: None }
}

fn crc32(chunk_type: &[u8], data: &[u8]) -> u32 {
    let mut crc: u32 = 0xFFFF_FFFF;
    for &b in chunk_type.iter().chain(data.iter()) {
        let mut c = (crc ^ b as u32) & 0xFF;
        for _ in 0..8 {
            if c & 1 != 0 {
                c = 0xEDB8_8320 ^ (c >> 1);
            } else {
                c >>= 1;
            }
        }
        crc = c ^ (crc >> 8);
    }
    crc ^ 0xFFFF_FFFF
}

fn write_chunk(buf: &mut Vec<u8>, chunk_type: &[u8; 4], data: &[u8]) {
    buf.extend_from_slice(&(data.len() as u32).to_be_bytes());
    buf.extend_from_slice(chunk_type);
    buf.extend_from_slice(data);
    let crc = crc32(chunk_type, data);
    buf.extend_from_slice(&crc.to_be_bytes());
}

fn zlib(data: &[u8]) -> Vec<u8> {
    let mut encoder = flate2::write::ZlibEncoder::new(Vec::new(), flate2::Compression::fast());
    encoder.write_all(data).unwrap();
    encoder.finish().unwrap()
}

fn unzlib(data: &[u8]) -> Vec<u8> {
    let mut decoder = flate2::write::ZlibDecoder::new(Vec::new());
    decoder.write_all(data).unwrap();
    decoder.finish().unwrap()
}

fn make_png(width: u32, height: u32, color_type: u8) -> Vec<u8> {
    let mut buf = Vec::new();
    buf.extend_from_slice(&[137, 80, 78, 71, 13, 10, 26, 10]);
    let mut ihdr = Vec::new();
    ihdr.extend_from_slice(&width.to_be_bytes());
    ihdr.extend_from_slice(&height.to_be_bytes());
    ihdr.push(8);
    ihdr.push(color_type);
    ihdr.push(0);
    ihdr.push(0);
    ihdr.push(0);
    write_chunk(&mut buf, b"IHDR", &ihdr);
    if color_type == 3 {
        let palette = vec![255, 0, 0, 0, 255, 0, 0, 0, 255, 255, 255, 255];
        write_chunk(&mut buf, b"PLTE", &palette);
    }
    let channels: usize = match color_type {
        0 => 1,
        2 => 3,
        3 => 1,
        4 => 2,
        6 => 4,
        _ => 1,
    };
    let row_bytes = width as usize * channels;
    let mut raw = Vec::new();
    for _ in 0..height {
        raw.push(0);
        raw.extend(vec![128u8; row_bytes]);
    }
    write_chunk(&mut buf, b"IDAT", &zlib(&raw));
    write_chunk(&mut buf, b"IEND", &[]);
    buf
}

fn make_jpeg(width: u16, height: u16, components: u8, adobe_transform: Option<u8>) -> Vec<u8> {
    let mut buf = Vec::new();
    buf.extend_from_slice(&[0xFF, 0xD8]);
    if let Some(t) = adobe_transform {
        buf.extend_from_slice(&[0xFF, 0xEE]);
        buf.extend_from_slice(&14u16.to_be_bytes());
        buf.extend_from_slice(b"Adobe");
        buf.extend_from_slice(&[0, 100, 0, 0, 0, 0]);
        buf.push(t);
    }
    let sof_len: u16 = 8 + 3 * components as u16;
    buf.extend_from_slice(&[0xFF, 0xC0]);
    buf.extend_from_slice(&sof_len.to_be_bytes());
    buf.push(8);
    buf.extend_from_slice(&height.to_be_bytes());
    buf.extend_from_slice(&width.to_be_bytes());
    buf.push(components);
    for i in 0..components {
        buf.push(i + 1);
        buf.push(0x11);
        buf.push(0);
    }
    buf.extend_from_slice(&[0xFF, 0xD9]);
    buf
}

fn assemble_one(data: Vec<u8>, options: &DocOptions) -> Document {
    let mut results: Vec<Result<PreparedImage, Error>> = Vec::new();
    results.push(prepare_image_bytes(data));
    assemble_document(results, options).ok().expect("assembly failed")
}

fn page_count(doc: &Document) -> usize {
    let pages = match doc.get_object(1) {
        Some(PdfObject::Dict(d)) => d,
        _ => panic!("object 1 is not the page tree"),
    };
    match pages.get(PdfKey::Kids) {
        Some(PdfObject::Array(v)) => v.len(),
        _ => panic!("no kids array"),
    }
}

fn page_dict(doc: &Document, index: usize) -> &Dict {
    let pages = match doc.get_object(1) {
        Some(PdfObject::Dict(d)) => d,
        _ => panic!("object 1 is not the page tree"),
    };
    let kids = match pages.get(PdfKey::Kids) {
        Some(PdfObject::Array(v)) => v,
        _ => panic!("no kids array"),
    };
    let pid = match &kids[index] {
        PdfObject::Reference(r) => *r,
        _ => panic!("kid is not a reference"),
    };
    match doc.get_object(pid) {
        Some(PdfObject::Dict(d)) => d,
        _ => panic!("page is not a dictionary"),
    }
}

fn page_image(doc: &Document, index: usize) -> (&Dict, &Vec<u8>) {
    let pg = page_dict(doc, index);
    let rid = match pg.get(PdfKey::Resources) {
        Some(PdfObject::Reference(r)) => *r,
        _ => panic!("no resources reference"),
    };
    let rd = match doc.get_object(rid) {
        Some(PdfObject::Dict(d)) => d,
        _ => panic!("resources is not a dictionary"),
    };
    let xd = match rd.get(PdfKey::XObject) {
        Some(PdfObject::Dict(d)) => d,
        _ => panic!("no XObject dictionary"),
    };
    let iid = match xd.get(PdfKey::ImageResource) {
        Some(PdfObject::Reference(r)) => *r,
        _ => panic!("no image reference"),
    };
    match doc.get_object(iid) {
        Some(PdfObject::Stream(d, b)) => (d, b),
        _ => panic!("image is not a stream"),
    }
}

#[test]
fn test_merge_jpeg_rgb() {
    let doc = assemble_one(make_jpeg(4, 4, 3, None), &opts());
    assert_eq!(page_count(&doc), 1);
    let (dict, _) = page_image(&doc, 0);
    assert!(matches!(dict.get(PdfKey::Filter), Some(PdfObject::Name(PdfName::DCTDecode))));
    assert!(matches!(dict.get(PdfKey::ColorSpace), Some(PdfObject::Name(PdfName::DeviceRGB))));
}

#[test]
fn test_merge_png_rgb() {
    let doc = assemble_one(make_png(4, 4, 2), &opts());
    assert_eq!(page_count(&doc), 1);
    let (dict, _) = page_image(&doc, 0);
    assert!(matches!(dict.get(PdfKey::Filter), Some(PdfObject::Name(PdfName::FlateDecode))));
    assert!(matches!(dict.get(PdfKey::ColorSpace), Some(PdfObject::Name(PdfName::DeviceRGB))));
}

#[test]
fn test_merge_png_gray() {
    let doc = assemble_one(make_png(4, 4, 0), &opts());
    assert_eq!(page_count(&doc), 1);
    let (dict, _) = page_image(&doc, 0);
    assert!(matches!(dict.get(PdfKey::ColorSpace), Some(PdfObject::Name(PdfName::DeviceGray))));
}

#[test]
fn test_merge_png_rgba() {
    let doc = assemble_one(make_png(4, 4, 6), &opts());
    assert_eq!(page_count(&doc), 1);
    let (dict, _) = page_image(&doc, 0);
    assert!(matches!(dict.get(PdfKey::Filter), Some(PdfObject::Name(PdfName::FlateDecode))));
    assert!(matches!(dict.get(PdfKey::ColorSpace), Some(PdfObject::Name(PdfName::DeviceRGB))));
    let smask = dict.get(PdfKey::SMask);
    assert!(smask.is_some(), "RGBA image should have SMask for alpha channel");
    // the soft mask itself is a DeviceGray image
    let sid = match smask {
        Some(PdfObject::Reference(r)) => *r,
        _ => panic!("SMask is not a reference"),
    };
    let sd = match doc.get_object(sid) {
        Some(PdfObject::Stream(d, _)) => d,
        _ => panic!("soft mask is not a stream"),
    };
    assert!(matches!(sd.get(PdfKey::ColorSpace), Some(PdfObject::Name(PdfName::DeviceGray))));
}

#[test]
fn test_merge_png_palette() {
    let doc = assemble_one(make_png(4, 4, 3), &opts());
    assert_eq!(page_count(&doc), 1);
    let (dict, _) = page_image(&doc, 0);
    assert!(matches!(dict.get(PdfKey::Filter), Some(PdfObject::Name(PdfName::FlateDecode))));
    match dict.get(PdfKey::ColorSpace) {
        Some(PdfObject::Array(arr)) => {
            assert_eq!(arr.len(), 4, "Indexed color space should have 4 elements");
            assert!(matches!(arr[0], PdfObject::Name(PdfName::Indexed)));
            assert!(matches!(arr[1], PdfObject::Name(PdfName::DeviceRGB)));
            // 4 palette entries -> max index 3
            match arr[2] {
                PdfObject::Integer(max_idx) => assert_eq!(max_idx, 3),
                _ => panic!("max index is not an integer"),
            }
        },
        _ => panic!("Expected array color space for palette PNG"),
    }
}

#[test]
fn test_merge_multiple_images() {
    let mut results: Vec<Result<PreparedImage, Error>> = Vec::new();
    results.push(prepare_image_bytes(make_jpeg(4, 4, 3, None)));
    results.push(prepare_image_bytes(make_png(4, 4, 2)));
    results.push(prepare_image_bytes(make_png(4, 4, 6)));
    let doc = assemble_document(results, &opts()).ok().expect("assembly failed");
    assert_eq!(page_count(&doc), 3);
}

/// Pages come out in input order: the first page holds the JPEG (DCT), the
/// second the PNG (Flate), matching how the inputs were supplied.
#[test]
fn pages_follow_input_order() {
    let mut results: Vec<Result<PreparedImage, Error>> = Vec::new();
    results.push(prepare_image_bytes(make_jpeg(4, 4, 3, None)));
    results.push(prepare_image_bytes(make_png(4, 4, 2)));
    let doc = assemble_document(results, &opts()).ok().expect("assembly failed");
    let (first, _) = page_image(&doc, 0);
    let (second, _) = page_image(&doc, 1);
    assert!(matches!(first.get(PdfKey::Filter), Some(PdfObject::Name(PdfName::DCTDecode))));
    assert!(matches!(second.get(PdfKey::Filter), Some(PdfObject::Name(PdfName::FlateDecode))));
}

/// A CMYK JPEG without an Adobe marker gets the inverting Decode array; the
/// same JPEG with transform code 0 gets none.
#[test]
fn cmyk_decode_array_follows_adobe_marker() {
    let doc = assemble_one(make_jpeg(4, 4, 4, None), &opts());
    let (dict, _) = page_image(&doc, 0);
    match dict.get(PdfKey::Decode) {
        Some(PdfObject::Array(v)) => {
            assert_eq!(v.len(), 8);
            for (i, o) in v.iter().enumerate() {
                match o {
                    PdfObject::Integer(x) => {
                        assert_eq!(*x, if i % 2 == 0 { 1 } else { 0 });
                    },
                    _ => panic!("Decode entry is not an integer"),
                }
            }
        },
        _ => panic!("CMYK JPEG without Adobe marker should carry a Decode array"),
    }
    assert!(matches!(dict.get(PdfKey::ColorSpace), Some(PdfObject::Name(PdfName::DeviceCMYK))));

    let doc2 = assemble_one(make_jpeg(4, 4, 4, Some(0)), &opts());
    let (dict2, _) = page_image(&doc2, 0);
    assert!(dict2.get(PdfKey::Decode).is_none());

    let doc3 = assemble_one(make_jpeg(4, 4, 4, Some(2)), &opts());
    let (dict3, _) = page_image(&doc3, 0);
    assert!(dict3.get(PdfKey::Decode).is_some());
}

/// At 300 dpi a 900 by 600 pixel image yields a 216 by 144 point page
/// (86400 by 57600 in 1/400 point units).
#[test]
fn media_box_at_300_dpi() {
    let doc = assemble_one(make_jpeg(900, 600, 3, None), &opts());
    let pg = page_dict(&doc, 0);
    match pg.get(PdfKey::MediaBox) {
        Some(PdfObject::Array(mb)) => {
            assert_eq!(mb.len(), 4);
            assert!(matches!(mb[0], PdfObject::Integer(0)));
            assert!(matches!(mb[1], PdfObject::Integer(0)));
            match (&mb[2], &mb[3]) {
                (PdfObject::Fixed(w), PdfObject::Fixed(h)) => {
                    assert_eq!(*w, 86400); // 216 pt
                    assert_eq!(*h, 57600); // 144 pt
                },
                _ => panic!("media box sides are not fixed-point numbers"),
            }
        },
        _ => panic!("no media box"),
    }
}

/// With a fixed page size the page is the paper and the image is centred:
/// twice the offset plus the image side equals the page side.
#[test]
fn fixed_page_size_centres_image() {
    let mut options = opts();
    options.pagesize = Some(PageSize::A4);
    let doc = assemble_one(make_jpeg(900, 300, 3, None), &options);
    let pg = page_dict(&doc, 0);
    let (pw, ph) = match pg.get(PdfKey::MediaBox) {
        Some(PdfObject::Array(mb)) => match (&mb[2], &mb[3]) {
            (PdfObject::Fixed(w), PdfObject::Fixed(h)) => (*w, *h),
            _ => panic!("media box sides are not fixed-point numbers"),
        },
        _ => panic!("no media box"),
    };
    assert_eq!((pw, ph), (238112, 336756)); // A4 in 1/400 pt
    let cid = match pg.get(PdfKey::Contents) {
        Some(PdfObject::Reference(r)) => *r,
        _ => panic!("no contents"),
    };
    let ops = match doc.get_object(cid) {
        Some(PdfObject::Content(ops)) => ops,
        _ => panic!("contents is not a content stream"),
    };
    assert_eq!(ops.len(), 4);
    match ops[1] {
        ovid::object::ContentOp::Transform { w, h, x, y } => {
            assert_eq!(2 * x + w, pw as u64);
            assert_eq!(2 * y + h, ph as u64);
            assert_eq!(w, pw as u64); // wide image fills the page width
            assert!(h < ph as u64);
            assert!(y > 0);
        },
        _ => panic!("second operation is not the transform"),
    }
}

/// If image 2 of 5 is corrupt, the run reports exactly one total failure
/// referencing that image, and produces no document.
#[test]
fn failure_aggregation_single_bad_image() {
    let mut results: Vec<Result<PreparedImage, Error>> = Vec::new();
    results.push(prepare_image_bytes(make_png(4, 4, 2)));
    results.push(prepare_image_bytes(vec![0xDE, 0xAD, 0xBE, 0xEF, 1, 2, 3, 4]));
    results.push(prepare_image_bytes(make_png(4, 4, 2)));
    results.push(prepare_image_bytes(make_jpeg(4, 4, 3, None)));
    results.push(prepare_image_bytes(make_png(4, 4, 0)));
    match assemble_document(results, &opts()) {
        Ok(_) => panic!("assembly should fail"),
        Err(fails) => {
            assert_eq!(fails.len(), 1);
            assert_eq!(fails[0].0, 1); // zero-based index of image 2
        },
    }
}

/// All failures are collected, each with its input position.
#[test]
fn failure_aggregation_collects_all() {
    let mut results: Vec<Result<PreparedImage, Error>> = Vec::new();
    results.push(prepare_image_bytes(vec![0, 1, 2, 3, 4, 5]));
    results.push(prepare_image_bytes(make_png(4, 4, 2)));
    results.push(prepare_image_bytes(vec![0xFF, 0xD8, 0xFF, 0xD9]));
    match assemble_document(results, &opts()) {
        Ok(_) => panic!("assembly should fail"),
        Err(fails) => {
            assert_eq!(fails.len(), 2);
            assert_eq!(fails[0].0, 0);
            assert_eq!(fails[1].0, 2);
        },
    }
}

#[test]
fn trailer_has_catalog_and_info() {
    let mut options = opts();
    options.title = Some(b"A title".to_vec());
    options.author = Some(b"An author".to_vec());
    options.creation_epoch_secs = Some(0);
    let doc = assemble_one(make_png(4, 4, 2), &options);
    let cid = match doc.trailer.get(PdfKey::Root) {
        Some(PdfObject::Reference(r)) => *r,
        _ => panic!("no Root"),
    };
    let cd = match doc.get_object(cid) {
        Some(PdfObject::Dict(d)) => d,
        _ => panic!("catalog is not a dictionary"),
    };
    assert!(matches!(cd.get(PdfKey::Type), Some(PdfObject::Name(PdfName::Catalog))));
    assert!(matches!(cd.get(PdfKey::Pages), Some(PdfObject::Reference(1))));
    let iid = match doc.trailer.get(PdfKey::Info) {
        Some(PdfObject::Reference(r)) => *r,
        _ => panic!("no Info"),
    };
    let infod = match doc.get_object(iid) {
        Some(PdfObject::Dict(d)) => d,
        _ => panic!("info is not a dictionary"),
    };
    match infod.get(PdfKey::Title) {
        Some(PdfObject::LiteralString(t)) => assert_eq!(t, b"A title"),
        _ => panic!("no title"),
    }
    match infod.get(PdfKey::Author) {
        Some(PdfObject::LiteralString(a)) => assert_eq!(a, b"An author"),
        _ => panic!("no author"),
    }
    match infod.get(PdfKey::CreationDate) {
        Some(PdfObject::LiteralString(d)) => assert_eq!(d, b"D:19700101000000Z"),
        _ => panic!("no creation date"),
    }
    match infod.get(PdfKey::Producer) {
        Some(PdfObject::LiteralString(p)) => assert_eq!(p, b"ovid"),
        _ => panic!("no producer"),
    }
}

#[test]
fn pdf_date_epoch_and_modern() {
    assert_eq!(pdf_date_string(0), b"D:19700101000000Z");
    assert_eq!(pdf_date_string(1_700_000_000), b"D:20231114221320Z");
}

/// The embedded color stream of a recompressed image really is a deflate
/// stream of the split pixel bytes, not the bytes themselves.
#[test]
fn recompressed_stream_is_deflated() {
    let doc = assemble_one(make_png(4, 4, 6), &opts());
    let (_, color) = page_image(&doc, 0);
    let raw = unzlib(color);
    assert_eq!(raw.len(), 4 * 4 * 3);
    assert_ne!(*color, raw);
}

/// A PNG carrying an ICC profile gets an `[ICCBased ref]` color space whose
/// stream deflates back to the embedded profile.
#[test]
fn icc_profile_becomes_iccbased_colorspace() {
    let profile: Vec<u8> = b"a color profile".to_vec();
    let mut iccp = Vec::new();
    iccp.push(b'p');
    iccp.push(0);
    iccp.push(0);
    iccp.extend_from_slice(&zlib(&profile));

    let mut buf = Vec::new();
    buf.extend_from_slice(&[137, 80, 78, 71, 13, 10, 26, 10]);
    let mut ihdr = Vec::new();
    ihdr.extend_from_slice(&4u32.to_be_bytes());
    ihdr.extend_from_slice(&4u32.to_be_bytes());
    ihdr.push(8);
    ihdr.push(2);
    ihdr.push(0);
    ihdr.push(0);
    ihdr.push(0);
    write_chunk(&mut buf, b"IHDR", &ihdr);
    write_chunk(&mut buf, b"iCCP", &iccp);
    let mut raw = Vec::new();
    for _ in 0..4u32 {
        raw.push(0);
        raw.extend(vec![128u8; 12]);
    }
    write_chunk(&mut buf, b"IDAT", &zlib(&raw));
    write_chunk(&mut buf, b"IEND", &[]);

    let doc = assemble_one(buf, &opts());
    let (dict, _) = page_image(&doc, 0);
    match dict.get(PdfKey::ColorSpace) {
        Some(PdfObject::Array(arr)) => {
            assert_eq!(arr.len(), 2);
            assert!(matches!(arr[0], PdfObject::Name(PdfName::ICCBased)));
            let iid = match arr[1] {
                PdfObject::Reference(r) => r,
                _ => panic!("ICC entry is not a reference"),
            };
            match doc.get_object(iid) {
                Some(PdfObject::Stream(sd, sb)) => {
                    assert!(matches!(
                        sd.get(PdfKey::Filter),
                        Some(PdfObject::Name(PdfName::FlateDecode))
                    ));
                    assert!(matches!(sd.get(PdfKey::IccComponents), Some(PdfObject::Integer(3))));
                    assert_eq!(unzlib(sb), profile);
                },
                _ => panic!("ICC color space does not reference a stream"),
            }
        },
        _ => panic!("expected an ICC-based color space array"),
    }
}

#[test]
fn page_size_dimensions() {
    let (w, h) = PageSize::A4.dimensions_qpt();
    assert_eq!((w, h), (238112, 336756)); // 595.28 x 841.89 pt
    let (w, h) = PageSize::Letter.dimensions_qpt();
    assert_eq!((w, h), (244800, 316800)); // 612 x 792 pt
    let (w, h) = PageSize::Legal.dimensions_qpt();
    assert_eq!((w, h), (244800, 403200)); // 612 x 1008 pt
    let (w, h) = PageSize::A3.dimensions_qpt();
    assert_eq!((w, h), (336756, 476220)); // 841.89 x 1190.55 pt
}

#[test]
fn page_size_portrait_orientation() {
    for ps in [PageSize::A4, PageSize::Letter, PageSize::Legal, PageSize::A3] {
        let (w, h) = ps.dimensions_qpt();
        assert!(h > w);
    }
}

/// The interleaved pixels of an RGBA PNG are split: the color stream holds
/// the RGB bytes, the soft mask the alpha bytes.
#[test]
fn rgba_split_streams_hold_expected_bytes() {
    // 1x2 RGBA PNG with distinct channel values
    let mut buf = Vec::new();
    buf.extend_from_slice(&[137, 80, 78, 71, 13, 10, 26, 10]);
    let mut ihdr = Vec::new();
    ihdr.extend_from_slice(&1u32.to_be_bytes());
    ihdr.extend_from_slice(&2u32.to_be_bytes());
    ihdr.push(8);
    ihdr.push(6);
    ihdr.push(0);
    ihdr.push(0);
    ihdr.push(0);
    write_chunk(&mut buf, b"IHDR", &ihdr);
    let raw = vec![0u8, 10, 20, 30, 40, 0, 50, 60, 70, 80];
    write_chunk(&mut buf, b"IDAT", &zlib(&raw));
    write_chunk(&mut buf, b"IEND", &[]);

    let doc = assemble_one(buf, &opts());
    let (dict, color) = page_image(&doc, 0);
    assert_eq!(unzlib(color), vec![10, 20, 30, 50, 60, 70]);
    let sid = match dict.get(PdfKey::SMask) {
        Some(PdfObject::Reference(r)) => *r,
        _ => panic!("no soft mask"),
    };
    let alpha = match doc.get_object(sid) {
        Some(PdfObject::Stream(_, b)) => b,
        _ => panic!("soft mask is not a stream"),
    };
    assert_eq!(unzlib(alpha), vec![40, 80]);
}

/// A PNG passthrough embeds the concatenated IDAT stream unchanged, with
/// the PNG predictor declared.
#[test]
fn png_passthrough_keeps_idat_bytes() {
    let data = make_png(4, 4, 2);
    let info = ovid::png::parse_png_header(&data).unwrap();
    let doc = assemble_one(data, &opts());
    let (dict, bytes) = page_image(&doc, 0);
    assert_eq!(*bytes, info.idat_data);
    match dict.get(PdfKey::DecodeParms) {
        Some(PdfObject::Dict(dp)) => {
            assert!(matches!(dp.get(PdfKey::Predictor), Some(PdfObject::Integer(15))));
            assert!(matches!(dp.get(PdfKey::Colors), Some(PdfObject::Integer(3))));
            assert!(matches!(dp.get(PdfKey::Columns), Some(PdfObject::Integer(4))));
        },
        _ => panic!("no predictor parameters"),
    }
}
