//! The document object assembler: builds the complete PDF object graph
//! (image XObjects, soft masks, content streams, page tree, catalog and
//! metadata) from prepared images, strictly in input order.
//!
//! Object 1 is always the page tree node, reserved before any page is
//! built; every other object id is assigned append-only as assembly
//! proceeds.

use vstd::prelude::*;

use crate::codec;
use crate::err::Error;
use crate::layout::{self, PageSize};
use crate::object::{ContentOp, Dict, Document, PdfKey, PdfName, PdfObject};
use crate::pdfdate;
use crate::png::PngInfo;
use crate::prepare::PreparedImage;

verus! {

broadcast use vstd::seq_lib::group_seq_lib_default;

/// Options of one assembly run.
pub struct DocOptions {
    /// Overrides every image's resolution for page sizing (72-2400 in the
    /// interface; anything positive is accepted here).
    pub dpi: Option<u32>,
    /// A fixed paper size; when absent each page matches its image.
    pub pagesize: Option<PageSize>,
    /// Document title metadata, as PDF string bytes.
    pub title: Option<Vec<u8>>,
    /// Document author metadata, as PDF string bytes.
    pub author: Option<Vec<u8>>,
    /// Creation time as seconds since the epoch (UTC); omitted when absent.
    pub creation_epoch_secs: Option<u64>,
}

pub open spec fn spec_opts_wf(o: DocOptions) -> bool {
    &&& (o.dpi matches Some(d) ==> 1 <= d)
    &&& (o.creation_epoch_secs matches Some(s) ==> s <= 0xFFFF_FFFF_FFFF)
}

/// The resolution used for page sizing: the override if given, else the
/// image's own, else 300.
pub open spec fn spec_effective_dpi(over: Option<u32>, img: Option<u32>) -> int {
    match over {
        Some(d) => d as int,
        None => match img {
            Some(d) => d as int,
            None => 300int,
        },
    }
}

pub open spec fn spec_prepared_width(img: PreparedImage) -> int {
    match img {
        PreparedImage::Jpeg { width, .. } => width as int,
        PreparedImage::PngPassthrough { info } => info.width as int,
        PreparedImage::Compressed { width, .. } => width as int,
    }
}

pub open spec fn spec_prepared_height(img: PreparedImage) -> int {
    match img {
        PreparedImage::Jpeg { height, .. } => height as int,
        PreparedImage::PngPassthrough { info } => info.height as int,
        PreparedImage::Compressed { height, .. } => height as int,
    }
}

pub open spec fn spec_prepared_dpi(img: PreparedImage) -> Option<u32> {
    match img {
        PreparedImage::Jpeg { dpi, .. } => dpi,
        PreparedImage::PngPassthrough { info } => info.dpi,
        PreparedImage::Compressed { dpi, .. } => dpi,
    }
}

/// The page and image rectangle of one page, in units of 1/400 point:
/// `(page_w, page_h, img_w, img_h)`.
pub open spec fn spec_page_geometry(img: PreparedImage, opts: DocOptions) -> (int, int, int, int) {
    let dpi = spec_effective_dpi(opts.dpi, spec_prepared_dpi(img));
    let iw = layout::spec_side_200(spec_prepared_width(img), dpi);
    let ih = layout::spec_side_200(spec_prepared_height(img), dpi);
    match opts.pagesize {
        None => (2 * iw, 2 * ih, 2 * iw, 2 * ih),
        Some(ps) => {
            let pw = ps.spec_dimensions_qpt().0 / 2;
            let ph = ps.spec_dimensions_qpt().1 / 2;
            (
                2 * pw,
                2 * ph,
                2 * layout::spec_fit_w_200(iw, ih, pw, ph),
                2 * layout::spec_fit_h_200(iw, ih, pw, ph),
            )
        },
    }
}

/// `d2` extends `d1`: objects are only ever appended.
pub open spec fn spec_doc_extends(d2: Document, d1: Document) -> bool {
    &&& d1.objects@.len() <= d2.objects@.len()
    &&& d2.objects@.take(d1.objects@.len() as int) == d1.objects@
}

/// The ICC color-space stream object: the profile bytes deflate-compressed,
/// with the component count and filter recorded.
pub open spec fn spec_icc_stream(doc: Document, iid: int, icc: Seq<u8>, ncomp: i64) -> bool {
    &&& 2 <= iid <= doc.objects@.len()
    &&& doc.spec_object(iid) matches PdfObject::Stream(sd, sb) && {
        &&& sb@ == codec::spec_zlib_fast(icc)
        &&& sd.spec_get(PdfKey::IccComponents) == Some(PdfObject::Integer(ncomp))
        &&& sd.spec_get(PdfKey::Filter) == Some(PdfObject::Name(PdfName::FlateDecode))
    }
}

/// The byte view of an optional byte vector.
pub open spec fn spec_opt_view(o: Option<Vec<u8>>) -> Option<Seq<u8>> {
    match o {
        Some(v) => Some(v@),
        None => None,
    }
}

/// A color-space entry: an `[ICCBased ref]` array when a profile was
/// captured, else the plain device space.
pub open spec fn spec_colorspace_matches(
    doc: Document,
    cs: Option<PdfObject>,
    icc: Option<Seq<u8>>,
    plain: PdfName,
    ncomp: i64,
) -> bool {
    match icc {
        Some(z) => cs matches Some(PdfObject::Array(v)) && {
            &&& v@.len() == 2
            &&& v@[0] == PdfObject::Name(PdfName::ICCBased)
            &&& v@[1] matches PdfObject::Reference(iid) && spec_icc_stream(
                doc,
                iid as int,
                z,
                ncomp,
            )
        },
        None => cs == Some(PdfObject::Name(plain)),
    }
}

/// The `[Indexed base max_index palette]` color space of a palette PNG: the
/// maximum index is `palette_byte_length / 3 - 1`.
pub open spec fn spec_indexed_colorspace(doc: Document, cs: Option<PdfObject>, info: PngInfo) -> bool {
    cs matches Some(PdfObject::Array(v)) && {
        &&& v@.len() == 4
        &&& v@[0] == PdfObject::Name(PdfName::Indexed)
        &&& spec_colorspace_matches(
            doc,
            Some(v@[1]),
            spec_opt_view(info.icc_profile),
            PdfName::DeviceRGB,
            3,
        )
        &&& v@[2] == PdfObject::Integer((info.plte_data@.len() / 3 - 1) as i64)
        &&& v@[3] matches PdfObject::HexString(p) && p@ == info.plte_data@
    }
}

/// The `[1 0 1 0 1 0 1 0]` decode array that flips all four CMYK channels
/// at render time.
pub open spec fn spec_invert_decode(o: Option<PdfObject>) -> bool {
    o matches Some(PdfObject::Array(v)) && {
        &&& v@.len() == 8
        &&& forall|i: int|
            0 <= i < 8 ==> #[trigger] v@[i] == (if i % 2 == 0 {
                PdfObject::Integer(1)
            } else {
                PdfObject::Integer(0)
            })
    }
}

/// The entries common to every image XObject dictionary.
pub open spec fn spec_image_dict_core(d: Dict, w: i64, h: i64, bpc: i64, filter: PdfName) -> bool {
    &&& d.spec_get(PdfKey::Type) == Some(PdfObject::Name(PdfName::XObject))
    &&& d.spec_get(PdfKey::Subtype) == Some(PdfObject::Name(PdfName::Image))
    &&& d.spec_get(PdfKey::Width) == Some(PdfObject::Integer(w))
    &&& d.spec_get(PdfKey::Height) == Some(PdfObject::Integer(h))
    &&& d.spec_get(PdfKey::BitsPerComponent) == Some(PdfObject::Integer(bpc))
    &&& d.spec_get(PdfKey::Filter) == Some(PdfObject::Name(filter))
}

/// The PNG-predictor parameters that let a PDF consumer reverse PNG's own
/// row filtering.
pub open spec fn spec_png_decode_parms(dp: Option<PdfObject>, colors: i64, bpc: i64, columns: i64) -> bool {
    dp matches Some(PdfObject::Dict(d)) && {
        &&& d.spec_get(PdfKey::Predictor) == Some(PdfObject::Integer(15))
        &&& d.spec_get(PdfKey::Colors) == Some(PdfObject::Integer(colors))
        &&& d.spec_get(PdfKey::BitsPerComponent) == Some(PdfObject::Integer(bpc))
        &&& d.spec_get(PdfKey::Columns) == Some(PdfObject::Integer(columns))
    }
}

/// A soft-mask image object: the alpha channel as a DeviceGray
/// Flate-compressed image of the same dimensions.
pub open spec fn spec_smask_matches(doc: Document, sid: int, alpha: Seq<u8>, w: i64, h: i64) -> bool {
    &&& 2 <= sid <= doc.objects@.len()
    &&& doc.spec_object(sid) matches PdfObject::Stream(sd, sb) && {
        &&& sb@ == alpha
        &&& spec_image_dict_core(sd, w, h, 8, PdfName::FlateDecode)
        &&& sd.spec_get(PdfKey::ColorSpace) == Some(PdfObject::Name(PdfName::DeviceGray))
        &&& (alpha.len() <= 0x7FFF_FFFF_FFFF_FFFF ==> sd.spec_get(PdfKey::Length) == Some(
            PdfObject::Integer(alpha.len() as i64),
        ))
    }
}

/// The image XObject the assembler builds for one prepared image, together
/// with its satellite objects (ICC stream, soft mask).
pub open spec fn spec_image_object_matches(doc: Document, id: int, img: PreparedImage) -> bool {
    &&& 2 <= id <= doc.objects@.len()
    &&& match img {
        PreparedImage::Jpeg {
            width,
            height,
            components,
            invert_cmyk,
            data,
            dpi,
            icc_profile,
        } => doc.spec_object(id) matches PdfObject::Stream(d, bytes) && {
            &&& bytes@ == data@
            &&& spec_image_dict_core(d, width as i64, height as i64, 8, PdfName::DCTDecode)
            &&& spec_colorspace_matches(
                doc,
                d.spec_get(PdfKey::ColorSpace),
                spec_opt_view(icc_profile),
                if components == 1 {
                    PdfName::DeviceGray
                } else if components == 3 {
                    PdfName::DeviceRGB
                } else {
                    PdfName::DeviceCMYK
                },
                components as i64,
            )
            &&& (invert_cmyk ==> spec_invert_decode(d.spec_get(PdfKey::Decode)))
            &&& (!invert_cmyk ==> d.spec_get(PdfKey::Decode) is None)
            &&& (data@.len() <= 0x7FFF_FFFF_FFFF_FFFF ==> d.spec_get(PdfKey::Length) == Some(
                PdfObject::Integer(data@.len() as i64),
            ))
        },
        PreparedImage::PngPassthrough { info } => doc.spec_object(id) matches PdfObject::Stream(
            d,
            bytes,
        ) && {
            let channels: i64 = if info.color_type == 2 {
                3
            } else {
                1
            };
            &&& bytes@ == info.idat_data@
            &&& spec_image_dict_core(
                d,
                info.width as i64,
                info.height as i64,
                info.bit_depth as i64,
                PdfName::FlateDecode,
            )
            &&& (info.color_type == 0 ==> spec_colorspace_matches(
                doc,
                d.spec_get(PdfKey::ColorSpace),
                spec_opt_view(info.icc_profile),
                PdfName::DeviceGray,
                1,
            ))
            &&& (info.color_type == 2 ==> spec_colorspace_matches(
                doc,
                d.spec_get(PdfKey::ColorSpace),
                spec_opt_view(info.icc_profile),
                PdfName::DeviceRGB,
                3,
            ))
            &&& (info.color_type == 3 ==> spec_indexed_colorspace(
                doc,
                d.spec_get(PdfKey::ColorSpace),
                info,
            ))
            &&& spec_png_decode_parms(
                d.spec_get(PdfKey::DecodeParms),
                channels,
                info.bit_depth as i64,
                info.width as i64,
            )
            &&& (info.idat_data@.len() <= 0x7FFF_FFFF_FFFF_FFFF ==> d.spec_get(PdfKey::Length)
                == Some(PdfObject::Integer(info.idat_data@.len() as i64)))
        },
        PreparedImage::Compressed {
            width,
            height,
            color_channels,
            color_compressed,
            alpha_compressed,
            dpi,
            icc_profile,
        } => doc.spec_object(id) matches PdfObject::Stream(d, bytes) && {
            &&& bytes@ == color_compressed@
            &&& spec_image_dict_core(d, width as i64, height as i64, 8, PdfName::FlateDecode)
            &&& spec_colorspace_matches(
                doc,
                d.spec_get(PdfKey::ColorSpace),
                spec_opt_view(icc_profile),
                if color_channels == 1 {
                    PdfName::DeviceGray
                } else {
                    PdfName::DeviceRGB
                },
                color_channels as i64,
            )
            &&& (match alpha_compressed {
                Some(a) => d.spec_get(PdfKey::SMask) matches Some(PdfObject::Reference(sid))
                    && spec_smask_matches(doc, sid as int, a@, width as i64, height as i64),
                None => d.spec_get(PdfKey::SMask) is None,
            })
            &&& (color_compressed@.len() <= 0x7FFF_FFFF_FFFF_FFFF ==> d.spec_get(PdfKey::Length)
                == Some(PdfObject::Integer(color_compressed@.len() as i64)))
        },
    }
}

/// What the page loop needs to know about a built image object.
pub struct BuiltImage {
    pub id: u32,
    pub width: u32,
    pub height: u32,
    pub dpi: Option<u32>,
}

fn len_i64(n: usize) -> (r: i64)
    ensures
        n <= 0x7FFF_FFFF_FFFF_FFFF ==> r == n,
{
    if (n as u64) <= 0x7FFF_FFFF_FFFF_FFFFu64 {
        n as i64
    } else {
        0x7FFF_FFFF_FFFF_FFFF
    }
}

/// Builds an ICC-based color-space array, adding the compressed profile
/// stream to the document.
fn make_icc_color_space(doc: &mut Document, icc: &[u8], ncomp: u8) -> (cs: PdfObject)
    requires
        old(doc).objects@.len() + 1 < 0xFFFF_FFFF,
    ensures
        spec_doc_extends(*final(doc), *old(doc)),
        final(doc).objects@.len() == old(doc).objects@.len() + 1,
        final(doc).trailer == old(doc).trailer,
        old(doc).objects@.len() >= 1 ==> spec_colorspace_matches(
            *final(doc),
            Some(cs),
            Some(icc@),
            PdfName::DeviceGray,
            ncomp as i64,
        ) && spec_colorspace_matches(
            *final(doc),
            Some(cs),
            Some(icc@),
            PdfName::DeviceRGB,
            ncomp as i64,
        ) && spec_colorspace_matches(
            *final(doc),
            Some(cs),
            Some(icc@),
            PdfName::DeviceCMYK,
            ncomp as i64,
        ),
{
    let compressed = codec::zlib_compress_fast(icc);
    let mut sd = Dict::new();
    sd.set(PdfKey::IccComponents, PdfObject::Integer(ncomp as i64));
    sd.set(PdfKey::Filter, PdfObject::Name(PdfName::FlateDecode));
    let iid = doc.add_object(PdfObject::Stream(sd, compressed));
    let mut arr: Vec<PdfObject> = Vec::new();
    arr.push(PdfObject::Name(PdfName::ICCBased));
    arr.push(PdfObject::Reference(iid));
    proof {
        assert(doc.objects@.take(old(doc).objects@.len() as int) =~= old(doc).objects@);
    }
    PdfObject::Array(arr)
}

/// Appending objects preserves every object a prefix id refers to.
proof fn lemma_extends_objects(d1: Document, d2: Document)
    requires
        spec_doc_extends(d2, d1),
    ensures
        forall|k: int|
            1 <= k <= d1.objects@.len() ==> #[trigger] d2.spec_object(k) == d1.spec_object(k),
{
    assert forall|k: int|
        1 <= k <= d1.objects@.len() implies #[trigger] d2.spec_object(k) == d1.spec_object(
        k,
    ) by {
        assert(d2.objects@.take(d1.objects@.len() as int)[k - 1] == d2.objects@[k - 1]);
        assert(d1.objects@[k - 1] == d2.objects@.take(d1.objects@.len() as int)[k - 1]);
    }
}

proof fn lemma_extends_weak(d1: Document, d0: Document)
    requires
        d1 == d0 || spec_doc_extends(d1, d0),
    ensures
        spec_doc_extends(d1, d0),
{
    if d1 == d0 {
        assert(d1.objects@.take(d0.objects@.len() as int) =~= d0.objects@);
    }
}

proof fn lemma_extends_trans(d3: Document, d2: Document, d1: Document)
    requires
        spec_doc_extends(d3, d2),
        spec_doc_extends(d2, d1),
    ensures
        spec_doc_extends(d3, d1),
{
    lemma_extends_objects(d1, d2);
    lemma_extends_objects(d2, d3);
    assert forall|i: int|
        0 <= i < d1.objects@.len() implies d3.objects@.take(d1.objects@.len() as int)[i]
        == d1.objects@[i] by {
        assert(d3.spec_object(i + 1) == d2.spec_object(i + 1));
        assert(d2.spec_object(i + 1) == d1.spec_object(i + 1));
    }
    assert(d3.objects@.take(d1.objects@.len() as int) =~= d1.objects@);
}

/// A color-space entry stays valid when the document grows.
proof fn lemma_colorspace_extend(
    d1: Document,
    d2: Document,
    cs: Option<PdfObject>,
    icc: Option<Seq<u8>>,
    plain: PdfName,
    ncomp: i64,
)
    requires
        spec_colorspace_matches(d1, cs, icc, plain, ncomp),
        spec_doc_extends(d2, d1),
    ensures
        spec_colorspace_matches(d2, cs, icc, plain, ncomp),
{
    lemma_extends_objects(d1, d2);
}

/// An image object and its satellites stay valid when the document grows.
pub proof fn lemma_image_matches_extend(d1: Document, d2: Document, id: int, img: PreparedImage)
    requires
        spec_image_object_matches(d1, id, img),
        spec_doc_extends(d2, d1),
    ensures
        spec_image_object_matches(d2, id, img),
{
    lemma_extends_objects(d1, d2);
}

/// Builds the image XObject (and ICC / soft-mask satellites) for one
/// prepared image and returns its id with the data the page loop needs.
#[verifier::rlimit(100)]
fn build_image_object(doc: &mut Document, img: PreparedImage) -> (b: BuiltImage)
    requires
        crate::prepare::spec_prepared_wf(img),
        1 <= old(doc).objects@.len(),
        old(doc).objects@.len() + 4 < 0xFFFF_FFFF,
    ensures
        spec_doc_extends(*final(doc), *old(doc)),
        final(doc).objects@.len() <= old(doc).objects@.len() + 3,
        final(doc).trailer == old(doc).trailer,
        spec_image_object_matches(*final(doc), b.id as int, img),
        b.width as int == spec_prepared_width(img),
        b.height as int == spec_prepared_height(img),
        b.dpi == spec_prepared_dpi(img),
{
    let ghost doc0 = *doc;
    match img {
        PreparedImage::Jpeg { width, height, components, invert_cmyk, data, dpi, icc_profile } => {
            let ghost gicc = icc_profile;
            let cs: PdfObject = match &icc_profile {
                Some(z) => make_icc_color_space(doc, z.as_slice(), components),
                None => PdfObject::Name(
                    if components == 1 {
                        PdfName::DeviceGray
                    } else if components == 3 {
                        PdfName::DeviceRGB
                    } else {
                        PdfName::DeviceCMYK
                    },
                ),
            };
            let ghost doc1 = *doc;
            let ghost gcs = cs;
            let mut d = Dict::new();
            d.set(PdfKey::Type, PdfObject::Name(PdfName::XObject));
            d.set(PdfKey::Subtype, PdfObject::Name(PdfName::Image));
            d.set(PdfKey::Width, PdfObject::Integer(width as i64));
            d.set(PdfKey::Height, PdfObject::Integer(height as i64));
            d.set(PdfKey::ColorSpace, cs);
            d.set(PdfKey::BitsPerComponent, PdfObject::Integer(8));
            d.set(PdfKey::Filter, PdfObject::Name(PdfName::DCTDecode));
            d.set(PdfKey::Length, PdfObject::Integer(len_i64(data.len())));
            if invert_cmyk {
                let mut dec: Vec<PdfObject> = Vec::new();
                dec.push(PdfObject::Integer(1));
                dec.push(PdfObject::Integer(0));
                dec.push(PdfObject::Integer(1));
                dec.push(PdfObject::Integer(0));
                dec.push(PdfObject::Integer(1));
                dec.push(PdfObject::Integer(0));
                dec.push(PdfObject::Integer(1));
                dec.push(PdfObject::Integer(0));
                proof {
                    assert(spec_invert_decode(Some(PdfObject::Array(dec))));
                }
                d.set(PdfKey::Decode, PdfObject::Array(dec));
            }
            let id = doc.add_object(PdfObject::Stream(d, data));
            proof {
                lemma_extends_weak(doc1, doc0);
                assert(doc.objects@.take(doc1.objects@.len() as int) =~= doc1.objects@);
                lemma_extends_trans(*doc, doc1, doc0);
                match gicc {
                    Some(z) => {
                        lemma_colorspace_extend(
                            doc1,
                            *doc,
                            Some(gcs),
                            Some(z@),
                            if components == 1 {
                                PdfName::DeviceGray
                            } else if components == 3 {
                                PdfName::DeviceRGB
                            } else {
                                PdfName::DeviceCMYK
                            },
                            components as i64,
                        );
                    },
                    None => {},
                }
            }
            BuiltImage { id, width, height, dpi }
        },
        PreparedImage::PngPassthrough { info } => {
            let PngInfo {
                width,
                height,
                bit_depth,
                color_type,
                interlace,
                has_trns,
                idat_data,
                plte_data,
                dpi,
                icc_profile,
            } = info;
            let ghost gicc = icc_profile;
            let channels: u8 = if color_type == 2 {
                3
            } else {
                1
            };
            let cs: PdfObject = if color_type == 3 {
                let base: PdfObject = match &icc_profile {
                    Some(z) => make_icc_color_space(doc, z.as_slice(), 3),
                    None => PdfObject::Name(PdfName::DeviceRGB),
                };
                let num_entries: usize = plte_data.len() / 3;
                let mut arr: Vec<PdfObject> = Vec::new();
                arr.push(PdfObject::Name(PdfName::Indexed));
                arr.push(base);
                arr.push(PdfObject::Integer((num_entries - 1) as i64));
                arr.push(PdfObject::HexString(plte_data));
                PdfObject::Array(arr)
            } else {
                match &icc_profile {
                    Some(z) => make_icc_color_space(doc, z.as_slice(), channels),
                    None => PdfObject::Name(
                        if color_type == 0 {
                            PdfName::DeviceGray
                        } else {
                            PdfName::DeviceRGB
                        },
                    ),
                }
            };
            let ghost doc1 = *doc;
            let ghost gcs = cs;
            let mut dp = Dict::new();
            dp.set(PdfKey::Predictor, PdfObject::Integer(15));
            dp.set(PdfKey::Colors, PdfObject::Integer(channels as i64));
            dp.set(PdfKey::BitsPerComponent, PdfObject::Integer(bit_depth as i64));
            dp.set(PdfKey::Columns, PdfObject::Integer(width as i64));
            let mut d = Dict::new();
            d.set(PdfKey::Type, PdfObject::Name(PdfName::XObject));
            d.set(PdfKey::Subtype, PdfObject::Name(PdfName::Image));
            d.set(PdfKey::Width, PdfObject::Integer(width as i64));
            d.set(PdfKey::Height, PdfObject::Integer(height as i64));
            d.set(PdfKey::ColorSpace, cs);
            d.set(PdfKey::BitsPerComponent, PdfObject::Integer(bit_depth as i64));
            d.set(PdfKey::Filter, PdfObject::Name(PdfName::FlateDecode));
            d.set(PdfKey::DecodeParms, PdfObject::Dict(dp));
            d.set(PdfKey::Length, PdfObject::Integer(len_i64(idat_data.len())));
            let id = doc.add_object(PdfObject::Stream(d, idat_data));
            proof {
                lemma_extends_weak(doc1, doc0);
                assert(doc.objects@.take(doc1.objects@.len() as int) =~= doc1.objects@);
                lemma_extends_trans(*doc, doc1, doc0);
                match gicc {
                    Some(z) => {
                        if color_type == 3 {
                            lemma_colorspace_extend(
                                doc1,
                                *doc,
                                Some(gcs->Array_0@[1]),
                                Some(z@),
                                PdfName::DeviceRGB,
                                3,
                            );
                        } else {
                            lemma_colorspace_extend(
                                doc1,
                                *doc,
                                Some(gcs),
                                Some(z@),
                                if color_type == 0 {
                                    PdfName::DeviceGray
                                } else {
                                    PdfName::DeviceRGB
                                },
                                channels as i64,
                            );
                        }
                    },
                    None => {},
                }
            }
            BuiltImage { id, width, height, dpi }
        },
        PreparedImage::Compressed {
            width,
            height,
            color_channels,
            color_compressed,
            alpha_compressed,
            dpi,
            icc_profile,
        } => {
            let ghost gicc = icc_profile;
            let cs: PdfObject = match &icc_profile {
                Some(z) => make_icc_color_space(doc, z.as_slice(), color_channels),
                None => PdfObject::Name(
                    if color_channels == 1 {
                        PdfName::DeviceGray
                    } else {
                        PdfName::DeviceRGB
                    },
                ),
            };
            let ghost doc1 = *doc;
            let ghost gcs = cs;
            let smask_id: Option<u32> = match &alpha_compressed {
                Some(a) => {
                    let mut sd = Dict::new();
                    sd.set(PdfKey::Type, PdfObject::Name(PdfName::XObject));
                    sd.set(PdfKey::Subtype, PdfObject::Name(PdfName::Image));
                    sd.set(PdfKey::Width, PdfObject::Integer(width as i64));
                    sd.set(PdfKey::Height, PdfObject::Integer(height as i64));
                    sd.set(PdfKey::ColorSpace, PdfObject::Name(PdfName::DeviceGray));
                    sd.set(PdfKey::BitsPerComponent, PdfObject::Integer(8));
                    sd.set(PdfKey::Filter, PdfObject::Name(PdfName::FlateDecode));
                    sd.set(PdfKey::Length, PdfObject::Integer(len_i64(a.len())));
                    let alpha_copy = vstd::slice::slice_to_vec(a.as_slice());
                    Some(doc.add_object(PdfObject::Stream(sd, alpha_copy)))
                },
                None => None,
            };
            let ghost doc2 = *doc;
            let mut d = Dict::new();
            d.set(PdfKey::Type, PdfObject::Name(PdfName::XObject));
            d.set(PdfKey::Subtype, PdfObject::Name(PdfName::Image));
            d.set(PdfKey::Width, PdfObject::Integer(width as i64));
            d.set(PdfKey::Height, PdfObject::Integer(height as i64));
            d.set(PdfKey::ColorSpace, cs);
            d.set(PdfKey::BitsPerComponent, PdfObject::Integer(8));
            d.set(PdfKey::Filter, PdfObject::Name(PdfName::FlateDecode));
            match smask_id {
                Some(sid) => {
                    d.set(PdfKey::SMask, PdfObject::Reference(sid));
                },
                None => {},
            }
            d.set(PdfKey::Length, PdfObject::Integer(len_i64(color_compressed.len())));
            let id = doc.add_object(PdfObject::Stream(d, color_compressed));
            proof {
                lemma_extends_weak(doc1, doc0);
                assert(doc2.objects@.take(doc1.objects@.len() as int) =~= doc1.objects@);
                assert(doc.objects@.take(doc2.objects@.len() as int) =~= doc2.objects@);
                lemma_extends_trans(doc2, doc1, doc0);
                lemma_extends_trans(*doc, doc2, doc0);
                lemma_extends_objects(doc2, *doc);
                match gicc {
                    Some(z) => {
                        lemma_colorspace_extend(
                            doc1,
                            doc2,
                            Some(gcs),
                            Some(z@),
                            if color_channels == 1 {
                                PdfName::DeviceGray
                            } else {
                                PdfName::DeviceRGB
                            },
                            color_channels as i64,
                        );
                        lemma_colorspace_extend(
                            doc2,
                            *doc,
                            Some(gcs),
                            Some(z@),
                            if color_channels == 1 {
                                PdfName::DeviceGray
                            } else {
                                PdfName::DeviceRGB
                            },
                            color_channels as i64,
                        );
                    },
                    None => {},
                }
            }
            BuiltImage { id, width, height, dpi }
        },
    }
}

/// One page's content stream: save state, place the unit image square at
/// the image rectangle, paint it, restore state.
pub open spec fn spec_content_matches(doc: Document, cid: int, g: (int, int, int, int)) -> bool {
    &&& 2 <= cid <= doc.objects@.len()
    &&& doc.spec_object(cid) matches PdfObject::Content(ops) && {
        &&& ops@.len() == 4
        &&& ops@[0] == ContentOp::SaveState
        &&& ops@[1] matches ContentOp::Transform { w, h, x, y } && w == g.2 && h == g.3 && 2 * x
            == g.0 - g.2 && 2 * y == g.1 - g.3
        &&& ops@[2] == ContentOp::PaintImage
        &&& ops@[3] == ContentOp::RestoreState
    }
}

/// The page's resource dictionary: a single image XObject that matches the
/// prepared image.
pub open spec fn spec_resources_matches(doc: Document, rid: int, img: PreparedImage) -> bool {
    &&& 2 <= rid <= doc.objects@.len()
    &&& doc.spec_object(rid) matches PdfObject::Dict(rd) && rd.spec_get(PdfKey::XObject) matches
        Some(PdfObject::Dict(xd)) && xd.spec_get(PdfKey::ImageResource) matches Some(
        PdfObject::Reference(img_id),
    ) && spec_image_object_matches(doc, img_id as int, img)
}

/// One page object: a child of the page tree node (object 1) whose media
/// box, content stream and image resource all agree with the prepared image
/// and the options. The media box is exactly the page geometry, and the
/// image rectangle is centred: its offsets are half the remaining margins.
pub open spec fn spec_page_matches(
    doc: Document,
    pid: int,
    img: PreparedImage,
    opts: DocOptions,
) -> bool {
    &&& 2 <= pid <= doc.objects@.len()
    &&& doc.spec_object(pid) matches PdfObject::Dict(pg) && {
        let g = spec_page_geometry(img, opts);
        &&& pg.spec_get(PdfKey::Type) == Some(PdfObject::Name(PdfName::Page))
        &&& pg.spec_get(PdfKey::Parent) == Some(PdfObject::Reference(1))
        &&& pg.spec_get(PdfKey::MediaBox) matches Some(PdfObject::Array(mb)) && {
            &&& mb@.len() == 4
            &&& mb@[0] == PdfObject::Integer(0)
            &&& mb@[1] == PdfObject::Integer(0)
            &&& mb@[2] == PdfObject::Fixed(g.0 as i64)
            &&& mb@[3] == PdfObject::Fixed(g.1 as i64)
        }
        &&& pg.spec_get(PdfKey::Contents) matches Some(PdfObject::Reference(cid))
            && spec_content_matches(doc, cid as int, g)
        &&& pg.spec_get(PdfKey::Resources) matches Some(PdfObject::Reference(rid))
            && spec_resources_matches(doc, rid as int, img)
    }
}

/// A page object stays valid as long as every object with id 2 or above is
/// unchanged; the page tree node (object 1) and the trailer may change.
pub proof fn lemma_page_matches_frame(
    d1: Document,
    d2: Document,
    pid: int,
    img: PreparedImage,
    opts: DocOptions,
)
    requires
        spec_page_matches(d1, pid, img, opts),
        d1.objects@.len() <= d2.objects@.len(),
        forall|k: int|
            2 <= k <= d1.objects@.len() ==> #[trigger] d2.spec_object(k) == d1.spec_object(k),
    ensures
        spec_page_matches(d2, pid, img, opts),
{
}

/// The positions of the failed entries of a batch, in order.
pub open spec fn spec_err_indices(rs: Seq<Result<PreparedImage, Error>>) -> Seq<int>
    decreases rs.len(),
{
    if rs.len() == 0 {
        Seq::empty()
    } else {
        spec_err_indices(rs.drop_last()) + (if rs.last() is Err {
            seq![rs.len() - 1]
        } else {
            Seq::empty()
        })
    }
}

/// The successful payloads of a batch, in order.
pub open spec fn spec_ok_images(rs: Seq<Result<PreparedImage, Error>>) -> Seq<PreparedImage>
    decreases rs.len(),
{
    if rs.len() == 0 {
        Seq::empty()
    } else {
        spec_ok_images(rs.drop_last()) + (match rs.last() {
            Ok(img) => seq![img],
            Err(_) => Seq::empty(),
        })
    }
}

/// A batch without failures consists of successes only, in order.
pub proof fn lemma_no_errs_all_ok(rs: Seq<Result<PreparedImage, Error>>)
    requires
        spec_err_indices(rs).len() == 0,
    ensures
        spec_ok_images(rs).len() == rs.len(),
        forall|i: int|
            0 <= i < rs.len() ==> (#[trigger] rs[i] matches Ok(img) && spec_ok_images(rs)[i]
                == img),
    decreases rs.len(),
{
    if rs.len() > 0 {
        match rs.last() {
            Ok(img) => {
                lemma_no_errs_all_ok(rs.drop_last());
                assert(spec_ok_images(rs) =~= spec_ok_images(rs.drop_last()).push(img));
                assert forall|i: int| 0 <= i < rs.len() implies #[trigger] rs[i] matches Ok(
                    im2,
                ) && spec_ok_images(rs)[i] == im2 by {
                    if i < rs.len() - 1 {
                        assert(rs.drop_last()[i] == rs[i]);
                    }
                }
            },
            Err(_) => {
                assert(spec_err_indices(rs).len() >= 1);
            },
        }
    }
}

/// The document metadata dictionary: a fixed producer string, and the
/// creation date, title and author exactly when the options carry them.
pub open spec fn spec_info_matches(d: Dict, opts: DocOptions) -> bool {
    &&& d.spec_get(PdfKey::Producer) matches Some(PdfObject::LiteralString(p)) && p@ == seq![
        111u8,
        118u8,
        105u8,
        100u8,
    ]
    &&& (match opts.creation_epoch_secs {
        Some(secs) => d.spec_get(PdfKey::CreationDate) matches Some(
            PdfObject::LiteralString(db),
        ) && spec_is_pdf_date(db@, secs),
        None => d.spec_get(PdfKey::CreationDate) is None,
    })
    &&& (match opts.title {
        Some(t) => d.spec_get(PdfKey::Title) matches Some(PdfObject::LiteralString(tb)) && tb@
            == t@,
        None => d.spec_get(PdfKey::Title) is None,
    })
    &&& (match opts.author {
        Some(a) => d.spec_get(PdfKey::Author) matches Some(PdfObject::LiteralString(ab)) && ab@
            == a@,
        None => d.spec_get(PdfKey::Author) is None,
    })
}

/// Whether `bytes` is the PDF date string of the given epoch second.
pub open spec fn spec_is_pdf_date(bytes: Seq<u8>, secs: u64) -> bool {
    exists|y: int, m: int, d: int|
        {
            &&& pdfdate::spec_days_from_civil(y, m, d) == secs / 86400
            &&& 1 <= m <= 12
            &&& 1 <= d <= 31
            &&& bytes == #[trigger] pdfdate::spec_pdf_date_bytes(
                y,
                m,
                d,
                secs as int % 86400 / 3600,
                secs as int % 86400 % 3600 / 60,
                secs as int % 86400 % 60,
            )
        }
}

/// The whole assembled document: the page tree at object 1 with one page
/// per input in input order, a catalog, and the metadata dictionary.
pub open spec fn spec_document_matches(
    doc: Document,
    results: Seq<Result<PreparedImage, Error>>,
    opts: DocOptions,
) -> bool {
    &&& doc.objects@.len() >= 1
    &&& doc.spec_object(1) matches PdfObject::Dict(pd) && {
        &&& pd.spec_get(PdfKey::Type) == Some(PdfObject::Name(PdfName::Pages))
        &&& pd.spec_get(PdfKey::Count) == Some(PdfObject::Integer(results.len() as i64))
        &&& pd.spec_get(PdfKey::Kids) matches Some(PdfObject::Array(kids)) && {
            &&& kids@.len() == results.len()
            &&& forall|i: int|
                0 <= i < results.len() ==> (#[trigger] kids@[i] matches PdfObject::Reference(
                    pid,
                ) && (results[i] matches Ok(img) ==> spec_page_matches(
                    doc,
                    pid as int,
                    img,
                    opts,
                )))
        }
    }
    &&& doc.trailer.spec_get(PdfKey::Root) matches Some(PdfObject::Reference(cid)) && ({
        &&& 2 <= cid <= doc.objects@.len()
        &&& doc.spec_object(cid as int) matches PdfObject::Dict(cd) && {
            &&& cd.spec_get(PdfKey::Type) == Some(PdfObject::Name(PdfName::Catalog))
            &&& cd.spec_get(PdfKey::Pages) == Some(PdfObject::Reference(1))
        }
    })
    &&& doc.trailer.spec_get(PdfKey::Info) matches Some(PdfObject::Reference(iid)) && ({
        &&& 2 <= iid <= doc.objects@.len()
        &&& doc.spec_object(iid as int) matches PdfObject::Dict(infod) && spec_info_matches(
            infod,
            opts,
        )
    })
}

/// Law: an image prepared with an alpha channel always yields a page whose
/// image XObject carries a soft-mask reference, and the soft mask is a
/// DeviceGray Flate-compressed image of the same dimensions holding the
/// compressed alpha run. Stated for any assembled document and any input
/// position whose prepared image carries an alpha stream.
pub proof fn lemma_alpha_image_has_smask(
    doc: Document,
    results: Seq<Result<PreparedImage, Error>>,
    opts: DocOptions,
    i: int,
)
    requires
        spec_document_matches(doc, results, opts),
        0 <= i < results.len(),
        results[i] matches Ok(img) && img matches PreparedImage::Compressed {
            alpha_compressed: Some(a),
            ..
        },
    ensures
        doc.spec_object(1) matches PdfObject::Dict(pd) && pd.spec_get(PdfKey::Kids) matches Some(
            PdfObject::Array(kids),
        ) && kids@[i] matches PdfObject::Reference(pid) && doc.spec_object(pid as int) matches
            PdfObject::Dict(pg) && pg.spec_get(PdfKey::Resources) matches Some(
            PdfObject::Reference(rid),
        ) && doc.spec_object(rid as int) matches PdfObject::Dict(rd) && rd.spec_get(
            PdfKey::XObject,
        ) matches Some(PdfObject::Dict(xd)) && xd.spec_get(PdfKey::ImageResource) matches Some(
            PdfObject::Reference(img_id),
        ) && doc.spec_object(img_id as int) matches PdfObject::Stream(d, _db) && d.spec_get(
            PdfKey::SMask,
        ) matches Some(PdfObject::Reference(sid)) && ({
            let img = results[i]->Ok_0;
            let a = img->Compressed_alpha_compressed->0;
            &&& doc.spec_object(sid as int) matches PdfObject::Stream(sd, sb) && {
                &&& sb@ == a@
                &&& sd.spec_get(PdfKey::ColorSpace) == Some(
                    PdfObject::Name(PdfName::DeviceGray),
                )
                &&& sd.spec_get(PdfKey::Filter) == Some(PdfObject::Name(PdfName::FlateDecode))
                &&& sd.spec_get(PdfKey::Width) == Some(
                    PdfObject::Integer(img->Compressed_width as i64),
                )
                &&& sd.spec_get(PdfKey::Height) == Some(
                    PdfObject::Integer(img->Compressed_height as i64),
                )
                &&& sd.spec_get(PdfKey::BitsPerComponent) == Some(PdfObject::Integer(8))
            }
        }),
{
}

/// Law: a CMYK JPEG whose inversion flag is set gets the `[1 0 1 0 1 0 1 0]`
/// decode array that flips all four channels at render time, one whose flag
/// is clear gets no Decode entry, and in either case the embedded JPEG bytes
/// are the input file unchanged. Stated for any assembled document and any
/// input position holding a JPEG passthrough.
pub proof fn lemma_jpeg_decode_array_iff_inverted(
    doc: Document,
    results: Seq<Result<PreparedImage, Error>>,
    opts: DocOptions,
    i: int,
)
    requires
        spec_document_matches(doc, results, opts),
        0 <= i < results.len(),
        results[i] matches Ok(img) && img matches PreparedImage::Jpeg { .. },
    ensures
        doc.spec_object(1) matches PdfObject::Dict(pd) && pd.spec_get(PdfKey::Kids) matches Some(
            PdfObject::Array(kids),
        ) && kids@[i] matches PdfObject::Reference(pid) && doc.spec_object(pid as int) matches
            PdfObject::Dict(pg) && pg.spec_get(PdfKey::Resources) matches Some(
            PdfObject::Reference(rid),
        ) && doc.spec_object(rid as int) matches PdfObject::Dict(rd) && rd.spec_get(
            PdfKey::XObject,
        ) matches Some(PdfObject::Dict(xd)) && xd.spec_get(PdfKey::ImageResource) matches Some(
            PdfObject::Reference(img_id),
        ) && doc.spec_object(img_id as int) matches PdfObject::Stream(d, bytes) && ({
            let img = results[i]->Ok_0;
            &&& bytes@ == img->Jpeg_data@
            &&& d.spec_get(PdfKey::Filter) == Some(PdfObject::Name(PdfName::DCTDecode))
            &&& (img->Jpeg_invert_cmyk ==> spec_invert_decode(d.spec_get(PdfKey::Decode)))
            &&& (!img->Jpeg_invert_cmyk ==> d.spec_get(PdfKey::Decode) is None)
        }),
{
}

/// Builds the content stream, resource dictionary and page object for one
/// already-built image.
fn build_page(
    doc: &mut Document,
    b: &BuiltImage,
    opts: &DocOptions,
    Ghost(img): Ghost<PreparedImage>,
) -> (pid: u32)
    requires
        spec_opts_wf(*opts),
        spec_image_object_matches(*old(doc), b.id as int, img),
        b.width as int == spec_prepared_width(img),
        b.height as int == spec_prepared_height(img),
        b.dpi == spec_prepared_dpi(img),
        b.dpi matches Some(d) ==> 1 <= d,
        old(doc).objects@.len() + 4 < 0xFFFF_FFFF,
    ensures
        spec_doc_extends(*final(doc), *old(doc)),
        final(doc).objects@.len() == old(doc).objects@.len() + 3,
        final(doc).trailer == old(doc).trailer,
        spec_page_matches(*final(doc), pid as int, img, *opts),
{
    let ghost doc0 = *doc;
    let dpi: u32 = match opts.dpi {
        Some(d) => d,
        None => match b.dpi {
            Some(d) => d,
            None => 300,
        },
    };
    let l = layout::page_layout(b.width, b.height, dpi, opts.pagesize);
    proof {
        assert(dpi as int == spec_effective_dpi(opts.dpi, spec_prepared_dpi(img)));
        let g = spec_page_geometry(img, *opts);
        assert(l.page_w == g.0 && l.page_h == g.1 && l.img_w == g.2 && l.img_h == g.3);
    }
    let mut ops: Vec<ContentOp> = Vec::new();
    ops.push(ContentOp::SaveState);
    ops.push(ContentOp::Transform { w: l.img_w, h: l.img_h, x: l.x_off, y: l.y_off });
    ops.push(ContentOp::PaintImage);
    ops.push(ContentOp::RestoreState);
    let cid = doc.add_object(PdfObject::Content(ops));
    let ghost doc1 = *doc;
    let mut xd = Dict::new();
    xd.set(PdfKey::ImageResource, PdfObject::Reference(b.id));
    let mut rd = Dict::new();
    rd.set(PdfKey::XObject, PdfObject::Dict(xd));
    let rid = doc.add_object(PdfObject::Dict(rd));
    let ghost doc2 = *doc;
    let mut mb: Vec<PdfObject> = Vec::new();
    mb.push(PdfObject::Integer(0));
    mb.push(PdfObject::Integer(0));
    mb.push(PdfObject::Fixed(l.page_w as i64));
    mb.push(PdfObject::Fixed(l.page_h as i64));
    let mut pg = Dict::new();
    pg.set(PdfKey::Type, PdfObject::Name(PdfName::Page));
    pg.set(PdfKey::Parent, PdfObject::Reference(1));
    pg.set(PdfKey::MediaBox, PdfObject::Array(mb));
    pg.set(PdfKey::Contents, PdfObject::Reference(cid));
    pg.set(PdfKey::Resources, PdfObject::Reference(rid));
    let pid = doc.add_object(PdfObject::Dict(pg));
    proof {
        assert(doc1.objects@.take(doc0.objects@.len() as int) =~= doc0.objects@);
        assert(doc2.objects@.take(doc1.objects@.len() as int) =~= doc1.objects@);
        assert(doc.objects@.take(doc2.objects@.len() as int) =~= doc2.objects@);
        lemma_extends_trans(doc2, doc1, doc0);
        lemma_extends_trans(*doc, doc2, doc1);
        lemma_extends_trans(*doc, doc2, doc0);
        lemma_extends_objects(doc0, *doc);
        lemma_extends_objects(doc1, *doc);
        lemma_extends_objects(doc2, *doc);
        lemma_image_matches_extend(doc0, *doc, b.id as int, img);
    }
    pid
}

/// Assembles the whole document from per-image results, strictly in input
/// order.
///
/// All results are inspected before anything is built: if any image failed,
/// nothing is assembled and every failure is returned with its input
/// position. Otherwise one page per image is built, in input order, followed
/// by the page tree, the catalog and the metadata dictionary.
///
/// A document is produced exactly when every image prepared successfully.
/// On failure the returned list holds the position and error of every
/// failed input, in input order; its length is the total failure count and
/// its first entry the first failure.
#[verifier::rlimit(100)]
pub fn assemble_document(results: Vec<Result<PreparedImage, Error>>, opts: &DocOptions) -> (r:
    Result<Document, Vec<(usize, Error)>>)
    requires
        spec_opts_wf(*opts),
        results@.len() < 0x0010_0000,
        forall|i: int|
            0 <= i < results@.len() ==> (#[trigger] results@[i] matches Ok(img)
                ==> crate::prepare::spec_prepared_wf(img)),
    ensures
        r is Ok <==> spec_err_indices(results@).len() == 0,
        match r {
            Ok(doc) => spec_document_matches(doc, results@, *opts),
            Err(fails) => {
                &&& fails@.len() == spec_err_indices(results@).len()
                &&& fails@.len() >= 1
                &&& forall|j: int|
                    0 <= j < fails@.len() ==> #[trigger] fails@[j].0 as int == spec_err_indices(
                        results@,
                    )[j]
                &&& forall|j: int|
                    0 <= j < fails@.len() ==> (results@[#[trigger] fails@[j].0 as int] matches
                        Err(e) && fails@[j].1.kind() == e.kind())
            },
        },
{
    let ghost rs0 = results@;
    let n = results.len();
    let mut results = results;
    let mut failures: Vec<(usize, Error)> = Vec::new();
    let mut images: Vec<PreparedImage> = Vec::new();
    let mut i: usize = 0;
    proof {
        assert(rs0.skip(0) =~= rs0);
        assert(rs0.take(0) =~= Seq::<Result<PreparedImage, Error>>::empty());
    }
    while i < n
        invariant
            i <= n,
            n == rs0.len(),
            results@ == rs0.skip(i as int),
            failures@.len() == spec_err_indices(rs0.take(i as int)).len(),
            forall|j: int|
                0 <= j < failures@.len() ==> #[trigger] failures@[j].0 as int
                    == spec_err_indices(rs0.take(i as int))[j],
            forall|j: int|
                0 <= j < failures@.len() ==> (rs0[#[trigger] failures@[j].0 as int] matches Err(
                    e,
                ) && failures@[j].1.kind() == e.kind()),
            forall|j: int| 0 <= j < failures@.len() ==> 0 <= #[trigger] failures@[j].0 < i,
            images@.len() == spec_ok_images(rs0.take(i as int)).len(),
            forall|j: int|
                0 <= j < images@.len() ==> #[trigger] images@[j] == spec_ok_images(
                    rs0.take(i as int),
                )[j],
            forall|i2: int|
                0 <= i2 < rs0.len() ==> (#[trigger] rs0[i2] matches Ok(img)
                    ==> crate::prepare::spec_prepared_wf(img)),
        decreases n - i,
    {
        let item = results.remove(0);
        proof {
            assert(item == rs0.skip(i as int)[0]);
            assert(rs0.skip(i as int)[0] == rs0[i as int]);
            assert(rs0.skip(i as int).remove(0) =~= rs0.skip(i as int + 1));
            assert(rs0.take(i as int + 1).drop_last() =~= rs0.take(i as int));
            assert(rs0.take(i as int + 1).last() == rs0[i as int]);
        }
        let ghost prev_fail = failures@;
        let ghost prev_imgs = images@;
        match item {
            Ok(img) => {
                images.push(img);
                proof {
                    assert(spec_err_indices(rs0.take(i as int + 1)) =~= spec_err_indices(
                        rs0.take(i as int),
                    ));
                    assert(spec_ok_images(rs0.take(i as int + 1)) =~= spec_ok_images(
                        rs0.take(i as int),
                    ).push(img));
                }
            },
            Err(e) => {
                failures.push((i, e));
                proof {
                    assert(spec_err_indices(rs0.take(i as int + 1)) =~= spec_err_indices(
                        rs0.take(i as int),
                    ).push(i as int));
                    assert(spec_ok_images(rs0.take(i as int + 1)) =~= spec_ok_images(
                        rs0.take(i as int),
                    ));
                }
            },
        }
        i = i + 1;
    }
    proof {
        assert(rs0.take(n as int) =~= rs0);
    }
    if failures.len() > 0 {
        return Err(failures);
    }
    proof {
        lemma_no_errs_all_ok(rs0);
        assert(images@.len() == n);
        assert forall|j: int| 0 <= j < n implies crate::prepare::spec_prepared_wf(
            #[trigger] images@[j],
        ) by {
            assert(images@[j] == spec_ok_images(rs0)[j]);
            assert(rs0[j] matches Ok(img) && spec_ok_images(rs0)[j] == img);
        }
    }
    let mut doc = Document::new();
    let pages_id = doc.reserve_id();
    let mut page_ids: Vec<u32> = Vec::new();
    let ghost imgs0 = images@;
    let mut images = images;
    let mut k: usize = 0;
    proof {
        assert(imgs0.skip(0) =~= imgs0);
    }
    while k < n
        invariant
            k <= n,
            n == imgs0.len(),
            n < 0x0010_0000,
            images@ == imgs0.skip(k as int),
            spec_opts_wf(*opts),
            forall|j: int|
                0 <= j < imgs0.len() ==> crate::prepare::spec_prepared_wf(#[trigger] imgs0[j]),
            1 <= doc.objects@.len() <= 1 + 6 * k,
            doc.trailer.entries@.len() == 0,
            page_ids@.len() == k,
            forall|j: int|
                0 <= j < k ==> spec_page_matches(
                    doc,
                    #[trigger] page_ids@[j] as int,
                    imgs0[j],
                    *opts,
                ),
        decreases n - k,
    {
        let img = images.remove(0);
        proof {
            assert(img == imgs0.skip(k as int)[0]);
            assert(imgs0.skip(k as int)[0] == imgs0[k as int]);
            assert(imgs0.skip(k as int).remove(0) =~= imgs0.skip(k as int + 1));
        }
        let ghost dpre = doc;
        let b = build_image_object(&mut doc, img);
        let ghost dmid = doc;
        let pid = build_page(&mut doc, &b, opts, Ghost(img));
        page_ids.push(pid);
        proof {
            lemma_extends_trans(doc, dmid, dpre);
            lemma_extends_objects(dpre, doc);
            lemma_image_matches_extend(dmid, doc, b.id as int, img);
            assert forall|j: int| 0 <= j < k + 1 implies spec_page_matches(
                doc,
                #[trigger] page_ids@[j] as int,
                imgs0[j],
                *opts,
            ) by {
                if j < k {
                    lemma_page_matches_frame(dpre, doc, page_ids@[j] as int, imgs0[j], *opts);
                }
            }
        }
        k = k + 1;
    }
    let mut kids: Vec<PdfObject> = Vec::new();
    let mut j: usize = 0;
    while j < page_ids.len()
        invariant
            j <= page_ids@.len(),
            kids@.len() == j,
            forall|t: int|
                0 <= t < j ==> #[trigger] kids@[t] == PdfObject::Reference(page_ids@[t]),
        decreases page_ids@.len() - j,
    {
        kids.push(PdfObject::Reference(page_ids[j]));
        j = j + 1;
    }
    let mut pd = Dict::new();
    pd.set(PdfKey::Type, PdfObject::Name(PdfName::Pages));
    pd.set(PdfKey::Kids, PdfObject::Array(kids));
    pd.set(PdfKey::Count, PdfObject::Integer(n as i64));
    let ghost dloop = doc;
    doc.set_object(pages_id, PdfObject::Dict(pd));
    let ghost dpages = doc;
    proof {
        assert forall|t: int|
            2 <= t <= dloop.objects@.len() implies #[trigger] dpages.spec_object(t)
            == dloop.spec_object(t) by {
            assert(dpages.objects@[t - 1] == dloop.objects@[t - 1]);
        }
        assert forall|j2: int| 0 <= j2 < n implies spec_page_matches(
            dpages,
            #[trigger] page_ids@[j2] as int,
            imgs0[j2],
            *opts,
        ) by {
            lemma_page_matches_frame(dloop, dpages, page_ids@[j2] as int, imgs0[j2], *opts);
        }
    }
    let mut cd = Dict::new();
    cd.set(PdfKey::Type, PdfObject::Name(PdfName::Catalog));
    cd.set(PdfKey::Pages, PdfObject::Reference(1));
    let cid = doc.add_object(PdfObject::Dict(cd));
    doc.trailer.set(PdfKey::Root, PdfObject::Reference(cid));
    let mut infod = Dict::new();
    let mut producer: Vec<u8> = Vec::new();
    producer.push(111);
    producer.push(118);
    producer.push(105);
    producer.push(100);
    proof {
        assert(producer@ =~= seq![111u8, 118u8, 105u8, 100u8]);
    }
    infod.set(PdfKey::Producer, PdfObject::LiteralString(producer));
    match opts.creation_epoch_secs {
        Some(secs) => {
            let db = pdfdate::pdf_date_string(secs);
            infod.set(PdfKey::CreationDate, PdfObject::LiteralString(db));
        },
        None => {},
    }
    match &opts.title {
        Some(t) => {
            infod.set(
                PdfKey::Title,
                PdfObject::LiteralString(vstd::slice::slice_to_vec(t.as_slice())),
            );
        },
        None => {},
    }
    match &opts.author {
        Some(a) => {
            infod.set(
                PdfKey::Author,
                PdfObject::LiteralString(vstd::slice::slice_to_vec(a.as_slice())),
            );
        },
        None => {},
    }
    let iid = doc.add_object(PdfObject::Dict(infod));
    doc.trailer.set(PdfKey::Info, PdfObject::Reference(iid));
    proof {
        assert(doc.objects@.take(dpages.objects@.len() as int + 1).take(
            dpages.objects@.len() as int,
        ) =~= doc.objects@.take(dpages.objects@.len() as int));
        assert(doc.objects@.take(dpages.objects@.len() as int) =~= dpages.objects@);
        assert forall|t: int|
            2 <= t <= dpages.objects@.len() implies #[trigger] doc.spec_object(t)
            == dpages.spec_object(t) by {
            assert(doc.objects@.take(dpages.objects@.len() as int)[t - 1] == doc.objects@[t
                - 1]);
        }
        assert forall|j2: int| 0 <= j2 < n implies spec_page_matches(
            doc,
            #[trigger] page_ids@[j2] as int,
            imgs0[j2],
            *opts,
        ) by {
            lemma_page_matches_frame(dpages, doc, page_ids@[j2] as int, imgs0[j2], *opts);
        }
        assert(doc.spec_object(1) == dpages.spec_object(1));
        assert forall|i2: int| 0 <= i2 < rs0.len() implies (#[trigger] kids@[i2] matches
            PdfObject::Reference(pid) && (rs0[i2] matches Ok(img) ==> spec_page_matches(
            doc,
            pid as int,
            img,
            *opts,
        ))) by {
            assert(kids@[i2] == PdfObject::Reference(page_ids@[i2]));
            assert(rs0[i2] matches Ok(img) && spec_ok_images(rs0)[i2] == img);
            assert(imgs0[i2] == spec_ok_images(rs0)[i2]);
        }
    }
    Ok(doc)
}

} // verus!
