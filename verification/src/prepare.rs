//! The passthrough decision engine and the pixel transcoder.
//!
//! Given a file's bytes, [`prepare_image_bytes`] classifies it by magic
//! number and produces a [`PreparedImage`]: JPEGs are embedded as-is, opaque
//! non-interlaced PNGs keep their compressed scanline stream, and everything
//! else (PNGs with alpha, interlacing or a transparency chunk, and all other
//! formats) is decoded, split into color and alpha channels, and each
//! channel group deflate-compressed independently.

use vstd::prelude::*;

use crate::codec;
use crate::err::{Error, ErrorKind};
use crate::jpeg;
use crate::png::{self, PngInfo};

verus! {

broadcast use vstd::seq_lib::group_seq_lib_default;

/// An image readied for insertion into the document, produced once per
/// input and consumed once by the assembler.
#[derive(Debug)]
pub enum PreparedImage {
    /// A JPEG embedded as-is (DCT passthrough).
    Jpeg {
        width: u32,
        height: u32,
        components: u8,
        /// Whether the stored CMYK values are inverted and must be flipped
        /// at render time via a `Decode` array.
        invert_cmyk: bool,
        data: Vec<u8>,
        dpi: Option<u32>,
        icc_profile: Option<Vec<u8>>,
    },
    /// A PNG whose compressed scanline stream is embedded as-is, with
    /// PDF-native predictor parameters describing how to undo the row
    /// filtering.
    PngPassthrough { info: PngInfo },
    /// Decoded pixels, split into a color channel group and an optional
    /// alpha channel, each independently deflate-compressed.
    Compressed {
        width: u32,
        height: u32,
        /// 1 (gray) or 3 (RGB).
        color_channels: u8,
        color_compressed: Vec<u8>,
        alpha_compressed: Option<Vec<u8>>,
        dpi: Option<u32>,
        icc_profile: Option<Vec<u8>>,
    },
}

/// Structural soundness of a prepared image: legal channel counts, a
/// passthrough PNG really is passthrough-eligible, and any resolution is
/// positive.
pub open spec fn spec_prepared_wf(img: PreparedImage) -> bool {
    match img {
        PreparedImage::Jpeg { components, dpi, .. } => (components == 1 || components == 3
            || components == 4) && (dpi matches Some(d) ==> d >= 1),
        PreparedImage::PngPassthrough { info } => {
            &&& (info.color_type == 0 || info.color_type == 2 || info.color_type == 3)
            &&& info.interlace == 0
            &&& !info.has_trns
            &&& (info.color_type == 3 ==> info.plte_data@.len() >= 3)
            &&& (info.dpi matches Some(d) ==> d >= 1)
        },
        PreparedImage::Compressed { color_channels, dpi, .. } => (color_channels == 1
            || color_channels == 3) && (dpi matches Some(d) ==> d >= 1),
    }
}

/// The first `k` bytes of each complete `g`-byte group of `px`, in order.
pub open spec fn spec_group_take(px: Seq<u8>, g: int, k: int) -> Seq<u8>
    decreases px.len(),
{
    if g < 1 || px.len() < g {
        Seq::empty()
    } else {
        px.take(k) + spec_group_take(px.skip(g), g, k)
    }
}

/// Byte `j` of each complete `g`-byte group of `px`, in order.
pub open spec fn spec_group_pick(px: Seq<u8>, g: int, j: int) -> Seq<u8>
    decreases px.len(),
{
    if g < 1 || px.len() < g {
        Seq::empty()
    } else {
        seq![px[j]] + spec_group_pick(px.skip(g), g, j)
    }
}

/// Collects the first `k` bytes of every complete `g`-byte group: the color
/// run of interleaved color+alpha pixels, or a channel subset of RGBA data.
pub fn group_take(px: &[u8], g: usize, k: usize) -> (r: Vec<u8>)
    requires
        1 <= g,
        k <= g,
    ensures
        r@ == spec_group_take(px@, g as int, k as int),
{
    let mut out: Vec<u8> = Vec::new();
    let mut pos: usize = 0;
    proof {
        assert(px@.skip(0) =~= px@);
    }
    while px.len() - pos >= g && pos < px.len()
        invariant
            pos <= px@.len(),
            1 <= g,
            k <= g,
            spec_group_take(px@, g as int, k as int) == out@ + spec_group_take(
                px@.skip(pos as int),
                g as int,
                k as int,
            ),
        decreases px@.len() - pos,
    {
        let ghost prev = out@;
        let mut j: usize = 0;
        while j < k
            invariant
                j <= k <= g,
                pos + g <= px@.len(),
                px@.len() <= usize::MAX,
                out@ == prev + px@.subrange(pos as int, pos + j),
            decreases k - j,
        {
            out.push(px[pos + j]);
            proof {
                assert(px@.subrange(pos as int, pos + j + 1) =~= px@.subrange(
                    pos as int,
                    pos + j,
                ).push(px@[pos + j]));
            }
            j = j + 1;
        }
        proof {
            let tail = px@.skip(pos as int);
            assert(tail.take(k as int) =~= px@.subrange(pos as int, pos + k));
            assert(tail.skip(g as int) =~= px@.skip(pos + g));
            assert(prev + (tail.take(k as int) + spec_group_take(
                px@.skip(pos + g),
                g as int,
                k as int,
            )) =~= out@ + spec_group_take(px@.skip(pos + g), g as int, k as int));
        }
        pos = pos + g;
    }
    proof {
        assert(spec_group_take(px@.skip(pos as int), g as int, k as int) =~= Seq::<u8>::empty());
    }
    out
}

/// Collects byte `j` of every complete `g`-byte group: the alpha run of
/// interleaved color+alpha pixels.
pub fn group_pick(px: &[u8], g: usize, j: usize) -> (r: Vec<u8>)
    requires
        1 <= g,
        j < g,
    ensures
        r@ == spec_group_pick(px@, g as int, j as int),
{
    let mut out: Vec<u8> = Vec::new();
    let mut pos: usize = 0;
    proof {
        assert(px@.skip(0) =~= px@);
    }
    while px.len() - pos >= g && pos < px.len()
        invariant
            pos <= px@.len(),
            1 <= g,
            j < g,
            spec_group_pick(px@, g as int, j as int) == out@ + spec_group_pick(
                px@.skip(pos as int),
                g as int,
                j as int,
            ),
        decreases px@.len() - pos,
    {
        let ghost prev = out@;
        out.push(px[pos + j]);
        proof {
            let tail = px@.skip(pos as int);
            assert(tail[j as int] == px@[pos + j]);
            assert(tail.skip(g as int) =~= px@.skip(pos + g));
            assert(prev + (seq![px@[pos + j]] + spec_group_pick(
                px@.skip(pos + g),
                g as int,
                j as int,
            )) =~= out@ + spec_group_pick(px@.skip(pos + g), g as int, j as int));
        }
        pos = pos + g;
    }
    proof {
        assert(spec_group_pick(px@.skip(pos as int), g as int, j as int) =~= Seq::<u8>::empty());
    }
    out
}

/// How a prepared JPEG passthrough relates to the file bytes: the fields of
/// the first start-of-frame marker, the whole file embedded unchanged, and
/// the CMYK-inversion rule (invert unless an Adobe marker says "no
/// transform").
pub open spec fn spec_jpeg_prepared(img: PreparedImage, data: Seq<u8>) -> bool {
    spec_jpeg_header(data) matches Some(s) && img matches PreparedImage::Jpeg {
        width,
        height,
        components,
        invert_cmyk,
        data: stored,
        dpi,
        icc_profile,
    } && {
        &&& width == jpeg::spec_sof_width(data, s.sof)
        &&& height == jpeg::spec_sof_height(data, s.sof)
        &&& components == jpeg::spec_sof_components(data, s.sof)
        &&& invert_cmyk == (components == 4 && (match s.adobe {
            Some(t) => t != 0,
            None => true,
        }))
        &&& stored@ == data
        &&& dpi == s.dpi
        &&& (match icc_profile {
            Some(v) => s.icc.len() > 0 && v@ == s.icc,
            None => s.icc.len() == 0,
        })
    }
}

/// Shorthand for the JPEG spec-level header parse, re-exported here so the
/// conditions below read uniformly.
pub use crate::jpeg::spec_jpeg_header;

/// How a prepared image from the decode-and-split path relates to decoded
/// RGBA samples: alpha sources are split 3+1, single-channel sources keep
/// one byte per pixel, everything else is reduced to RGB; each channel
/// group is independently deflate-compressed.
pub open spec fn spec_split_of_rgba(
    img: PreparedImage,
    pix: Seq<u8>,
    w: int,
    h: int,
    has_alpha: bool,
    channels: int,
    src_dpi: Option<u32>,
    src_icc: Option<Seq<u8>>,
) -> bool {
    img matches PreparedImage::Compressed {
        width,
        height,
        color_channels,
        color_compressed,
        alpha_compressed,
        dpi,
        icc_profile,
    } && {
        &&& width == w
        &&& height == h
        &&& (has_alpha ==> {
            &&& color_channels == 3
            &&& color_compressed@ == codec::spec_zlib_fast(spec_group_take(pix, 4, 3))
            &&& alpha_compressed matches Some(a) && a@ == codec::spec_zlib_fast(
                spec_group_pick(pix, 4, 3),
            )
        })
        &&& (!has_alpha && channels == 1 ==> {
            &&& color_channels == 1
            &&& color_compressed@ == codec::spec_zlib_fast(spec_group_take(pix, 4, 1))
            &&& alpha_compressed is None
        })
        &&& (!has_alpha && channels != 1 ==> {
            &&& color_channels == 3
            &&& color_compressed@ == codec::spec_zlib_fast(spec_group_take(pix, 4, 3))
            &&& alpha_compressed is None
        })
        &&& dpi == src_dpi
        &&& (match (icc_profile, src_icc) {
            (Some(v), Some(z)) => v@ == z,
            (None, None) => true,
            _ => false,
        })
    }
}

/// How a prepared image from the generic decode path relates to the file
/// bytes, via the named result of the outside image decoder.
pub open spec fn spec_generic_prepared(
    img: PreparedImage,
    data: Seq<u8>,
    src_dpi: Option<u32>,
    src_icc: Option<Seq<u8>>,
) -> bool {
    codec::spec_image_decoded(data) matches Some(d) && spec_split_of_rgba(
        img,
        d.0,
        d.1 as int,
        d.2 as int,
        d.3,
        d.4 as int,
        src_dpi,
        src_icc,
    )
}

/// Whether the PNG decoder accepts the file and its output agrees with the
/// parsed header of an alpha-type PNG: the header's dimensions, with one
/// alpha channel beyond the color channels.
pub open spec fn spec_png_alpha_decode_ok(data: Seq<u8>, hdr: png::IhdrFields) -> bool {
    let cc: int = if hdr.color_type == 4 {
        1int
    } else {
        3int
    };
    codec::spec_png_decoded(data) matches Some(dec) && dec.1 == hdr.width && dec.2 == hdr.height
        && dec.3 == cc + 1
}

/// How a prepared image from the PNG alpha fast path relates to the file
/// bytes: the decoded interleaved samples are split into a color run and an
/// alpha run, each deflate-compressed.
pub open spec fn spec_png_alpha_prepared(img: PreparedImage, data: Seq<u8>, s: png::PngScan) -> bool {
    s.ihdr matches Some(hdr) && {
        let cc: int = if hdr.color_type == 4 {
            1int
        } else {
            3int
        };
        &&& spec_png_alpha_decode_ok(data, hdr)
        &&& codec::spec_png_decoded(data) matches Some(dec) && img matches
            PreparedImage::Compressed {
            width,
            height,
            color_channels,
            color_compressed,
            alpha_compressed,
            dpi,
            icc_profile,
        } && {
            &&& width == hdr.width
            &&& height == hdr.height
            &&& color_channels == cc
            &&& color_compressed@ == codec::spec_zlib_fast(spec_group_take(dec.0, cc + 1, cc))
            &&& alpha_compressed matches Some(a) && a@ == codec::spec_zlib_fast(
                spec_group_pick(dec.0, cc + 1, cc),
            )
            &&& dpi == s.dpi
            &&& (match (icc_profile, s.iccp) {
                (Some(v), Some(z)) => codec::spec_zlib_inflate(z) == Some(v@),
                (None, Some(z)) => codec::spec_zlib_inflate(z) is None,
                (None, None) => true,
                (Some(v), None) => false,
            })
        }
    }
}

/// How a prepared image relates to PNG file bytes: full decode for
/// interlaced or transparency-chunk files, passthrough for opaque gray, RGB
/// and palette files, the alpha split for the alpha color types.
pub open spec fn spec_png_prepared(img: PreparedImage, data: Seq<u8>) -> bool {
    &&& png::spec_png_ok(data)
    &&& png::spec_png_header(data) matches Some(s) && s.ihdr matches Some(hdr) && {
        if hdr.interlace != 0 || s.has_trns {
            spec_generic_prepared(
                img,
                data,
                s.dpi,
                match s.iccp {
                    Some(z) => codec::spec_zlib_inflate(z),
                    None => None,
                },
            )
        } else if hdr.color_type == 0 || hdr.color_type == 2 || hdr.color_type == 3 {
            img matches PreparedImage::PngPassthrough { info } && png::png_info_matches(
                info,
                data,
            ) && (hdr.color_type == 3 ==> info.plte_data@.len() >= 3)
        } else if hdr.color_type == 4 || hdr.color_type == 6 {
            spec_png_alpha_prepared(img, data, s)
        } else {
            false
        }
    }
}

/// Whether the bytes begin with the JPEG start-of-image marker.
pub open spec fn spec_jpeg_magic(data: Seq<u8>) -> bool {
    data.len() >= 2 && data[0] == 0xFF && data[1] == 0xD8
}

/// The error kinds [`prepare_image_bytes`] may report for the given bytes,
/// each tied to its cause.
pub open spec fn spec_prepare_err(data: Seq<u8>, kind: ErrorKind) -> bool {
    if data.len() < 4 {
        kind == ErrorKind::MalformedHeader
    } else if spec_jpeg_magic(data) {
        ||| (spec_jpeg_header(data) is None && kind == ErrorKind::MalformedHeader)
        ||| (spec_jpeg_header(data) matches Some(s) && ({
            let c = jpeg::spec_sof_components(data, s.sof);
            c != 1 && c != 3 && c != 4
        }) && kind == ErrorKind::UnsupportedFormat)
    } else if png::spec_png_signature(data) {
        ||| (!png::spec_png_ok(data) && kind == ErrorKind::MalformedHeader)
        ||| ({
            &&& png::spec_png_ok(data)
            &&& png::spec_png_header(data) matches Some(s) && s.ihdr matches Some(hdr) && {
            ||| (hdr.interlace == 0 && !s.has_trns && hdr.color_type != 0 && hdr.color_type != 2
                && hdr.color_type != 3 && hdr.color_type != 4 && hdr.color_type != 6 && kind
                == ErrorKind::UnsupportedFormat)
            ||| (hdr.interlace == 0 && !s.has_trns && hdr.color_type == 3 && s.plte.len() < 3
                && kind == ErrorKind::MalformedHeader)
            ||| ((hdr.interlace != 0 || s.has_trns) && codec::spec_image_decoded(data) is None
                && kind == ErrorKind::EncodeError)
            ||| (hdr.interlace == 0 && !s.has_trns && (hdr.color_type == 4 || hdr.color_type
                == 6) && !spec_png_alpha_decode_ok(data, hdr) && kind == ErrorKind::EncodeError)
        }
        })
    } else {
        codec::spec_image_decoded(data) is None && kind == ErrorKind::EncodeError
    }
}

/// Classifies a file by magic number and prepares it for the assembler.
///
/// JPEGs with 1, 3 or 4 components are embedded as-is. PNGs of color type
/// 0, 2 or 3 without interlacing or a transparency chunk keep their
/// scanline stream; PNGs with an alpha channel are decoded and split into
/// independently compressed color and alpha streams; interlaced PNGs and
/// PNGs with a transparency chunk go through the generic decoder, as does
/// every non-JPEG non-PNG format.
pub fn prepare_image_bytes(data: Vec<u8>) -> (r: Result<PreparedImage, Error>)
    ensures
        match r {
            Ok(img) => spec_prepared_wf(img) && data@.len() >= 4 && {
                if spec_jpeg_magic(data@) {
                    spec_jpeg_prepared(img, data@)
                } else if png::spec_png_signature(data@) {
                    spec_png_prepared(img, data@)
                } else {
                    spec_generic_prepared(img, data@, None, None)
                }
            },
            Err(e) => spec_prepare_err(data@, e.kind()),
        },
{
    if data.len() < 4 {
        return Err(Error::new(ErrorKind::MalformedHeader, "File too small"));
    }
    if data[0] == 0xFF && data[1] == 0xD8 {
        let info = match jpeg::parse_jpeg_info(data.as_slice()) {
            Ok(i) => i,
            Err(e) => {
                return Err(e);
            },
        };
        if !(info.components == 1 || info.components == 3 || info.components == 4) {
            return Err(
                Error::new(ErrorKind::UnsupportedFormat, "Unsupported JPEG component count"),
            );
        }
        let invert_cmyk: bool = info.components == 4 && (match info.adobe_color_transform {
            Some(t) => t != 0,
            None => true,
        });
        proof {
            jpeg::lemma_scan_dpi_positive(data@, 2);
        }
        return Ok(
            PreparedImage::Jpeg {
                width: info.width,
                height: info.height,
                components: info.components,
                invert_cmyk,
                data,
                dpi: info.dpi,
                icc_profile: info.icc_profile,
            },
        );
    }
    let is_png: bool = data.len() >= 8 && data[0] == 137 && data[1] == 80 && data[2] == 78
        && data[3] == 71 && data[4] == 13 && data[5] == 10 && data[6] == 26 && data[7] == 10;
    if is_png {
        let info = match png::parse_png_header(data.as_slice()) {
            Ok(i) => i,
            Err(e) => {
                return Err(e);
            },
        };
        proof {
            png::lemma_png_dpi_positive(data@, 8);
        }
        if info.interlace != 0 || info.has_trns {
            return prepare_generic(data.as_slice(), info.dpi, info.icc_profile);
        }
        if info.color_type == 0 || info.color_type == 2 || info.color_type == 3 {
            if info.color_type == 3 && info.plte_data.len() < 3 {
                return Err(
                    Error::new(ErrorKind::MalformedHeader, "PNG palette image missing PLTE chunk"),
                );
            }
            return Ok(PreparedImage::PngPassthrough { info });
        }
        if info.color_type == 4 || info.color_type == 6 {
            return prepare_png_alpha(data.as_slice(), &info);
        }
        return Err(Error::new(ErrorKind::UnsupportedFormat, "Unsupported PNG color type"));
    }
    prepare_generic(data.as_slice(), None, None)
}

/// Decodes a PNG with an alpha channel, splits color from alpha row stream,
/// and compresses each run independently.
fn prepare_png_alpha(data: &[u8], info: &PngInfo) -> (r: Result<PreparedImage, Error>)
    requires
        info.color_type == 4 || info.color_type == 6,
        png::png_info_matches(*info, data@),
        png::spec_png_ok(data@),
        info.dpi matches Some(d) ==> d >= 1,
    ensures
        match r {
            Ok(img) => {
                &&& spec_prepared_wf(img)
                &&& png::spec_png_header(data@) matches Some(s) && spec_png_alpha_prepared(
                    img,
                    data@,
                    s,
                )
            },
            Err(e) => {
                &&& e.kind() == ErrorKind::EncodeError
                &&& png::spec_png_header(data@) matches Some(s) && s.ihdr matches Some(hdr)
                    && !spec_png_alpha_decode_ok(data@, hdr)
            },
        },
{
    let cc: u8 = if info.color_type == 4 {
        1
    } else {
        3
    };
    let (pix, w, h, ch) = match codec::decode_png_pixels(data) {
        Ok(t) => t,
        Err(e) => {
            return Err(e);
        },
    };
    if !(w == info.width && h == info.height && ch == cc + 1) {
        return Err(Error::new(ErrorKind::EncodeError, "PNG decode mismatch"));
    }
    let color_raw = group_take(pix.as_slice(), (cc + 1) as usize, cc as usize);
    let alpha_raw = group_pick(pix.as_slice(), (cc + 1) as usize, cc as usize);
    let color_compressed = codec::zlib_compress_fast(color_raw.as_slice());
    let alpha_compressed = codec::zlib_compress_fast(alpha_raw.as_slice());
    Ok(
        PreparedImage::Compressed {
            width: info.width,
            height: info.height,
            color_channels: cc,
            color_compressed,
            alpha_compressed: Some(alpha_compressed),
            dpi: info.dpi,
            icc_profile: match &info.icc_profile {
                Some(v) => Some(v.clone()),
                None => None,
            },
        },
    )
}

/// Decodes any image via the generic decoder and compresses its channels
/// for embedding.
fn prepare_generic(data: &[u8], dpi: Option<u32>, icc_profile: Option<Vec<u8>>) -> (r: Result<
    PreparedImage,
    Error,
>)
    requires
        dpi matches Some(d) ==> d >= 1,
    ensures
        match r {
            Ok(img) => spec_prepared_wf(img) && spec_generic_prepared(
                img,
                data@,
                dpi,
                match icc_profile {
                    Some(v) => Some(v@),
                    None => None,
                },
            ),
            Err(e) => codec::spec_image_decoded(data@) is None && e.kind()
                == ErrorKind::EncodeError,
        },
{
    let (pix, w, h, has_alpha, channels) = match codec::decode_image_rgba(data) {
        Ok(t) => t,
        Err(e) => {
            return Err(e);
        },
    };
    if has_alpha {
        let color_raw = group_take(pix.as_slice(), 4, 3);
        let alpha_raw = group_pick(pix.as_slice(), 4, 3);
        let color_compressed = codec::zlib_compress_fast(color_raw.as_slice());
        let alpha_compressed = codec::zlib_compress_fast(alpha_raw.as_slice());
        Ok(
            PreparedImage::Compressed {
                width: w,
                height: h,
                color_channels: 3,
                color_compressed,
                alpha_compressed: Some(alpha_compressed),
                dpi,
                icc_profile,
            },
        )
    } else if channels == 1 {
        let gray_raw = group_take(pix.as_slice(), 4, 1);
        let color_compressed = codec::zlib_compress_fast(gray_raw.as_slice());
        Ok(
            PreparedImage::Compressed {
                width: w,
                height: h,
                color_channels: 1,
                color_compressed,
                alpha_compressed: None,
                dpi,
                icc_profile,
            },
        )
    } else {
        let rgb_raw = group_take(pix.as_slice(), 4, 3);
        let color_compressed = codec::zlib_compress_fast(rgb_raw.as_slice());
        Ok(
            PreparedImage::Compressed {
                width: w,
                height: h,
                color_channels: 3,
                color_compressed,
                alpha_compressed: None,
                dpi,
                icc_profile,
            },
        )
    }
}

} // verus!
