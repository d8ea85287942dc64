//! Trusted wrappers around the outside codec libraries: zlib (deflate)
//! compression and decompression, PNG decoding, and generic image decoding.
//!
//! Each wrapper makes exactly one outside call and converts its arguments and
//! result; what the call returns is either stated directly or given a name
//! that the callers' contracts use.

use vstd::prelude::*;

use crate::err::{Error, ErrorKind};

verus! {

/// The zlib stream that deflate-compressing `data` at the fast compression
/// level produces. The output is a deterministic function of the input bytes
/// and the level.
pub uninterp spec fn spec_zlib_fast(data: Seq<u8>) -> Seq<u8>;

/// Relies on flate2's `write::ZlibEncoder`: writing all input at
/// `Compression::fast()` and finishing yields the zlib-compressed stream of
/// exactly the bytes written. The call cannot fail here: the encoder's only
/// error source is the sink's I/O, and the sink is a `Vec`, whose writes
/// never fail; streaming compression of arbitrary bytes reports no error of
/// its own.
#[verifier::external_body]
pub(crate) fn zlib_compress_fast(data: &[u8]) -> (r: Vec<u8>)
    ensures
        r@ == spec_zlib_fast(data@),
{
    let mut enc = flate2::write::ZlibEncoder::new(Vec::new(), flate2::Compression::fast());
    std::io::Write::write_all(&mut enc, data).expect("writing into a Vec cannot fail");
    enc.finish().expect("writing into a Vec cannot fail")
}

/// What the byte sequence `data` inflates to: the decompressed bytes when it
/// is a valid zlib stream, nothing when it is not. Both halves are
/// deterministic functions of the bytes.
pub uninterp spec fn spec_zlib_inflate(data: Seq<u8>) -> Option<Seq<u8>>;

/// Relies on flate2's `write::ZlibDecoder`: feeding it the bytes and
/// finishing yields the decompressed stream exactly when the bytes are a
/// valid zlib stream (a corrupt or incomplete stream makes the write or the
/// finish fail).
#[verifier::external_body]
pub(crate) fn zlib_decompress(data: &[u8]) -> (r: Option<Vec<u8>>)
    ensures
        match r {
            Some(v) => spec_zlib_inflate(data@) == Some(v@),
            None => spec_zlib_inflate(data@) is None,
        },
{
    let mut dec = flate2::write::ZlibDecoder::new(Vec::new());
    if std::io::Write::write_all(&mut dec, data).is_err() {
        return None;
    }
    dec.finish().ok()
}

/// What the PNG decoder produces for `data`: nothing when it rejects the
/// bytes; otherwise the 8-bit interleaved samples (row-major, 16-bit samples
/// reduced to 8 bits, packed samples expanded to one byte each) with the
/// decoded width, height and channel count. Acceptance and output are
/// functions of the bytes: the decoder imposes no environment-dependent
/// limit below the address space.
pub uninterp spec fn spec_png_decoded(data: Seq<u8>) -> Option<(Seq<u8>, nat, nat, nat)>;

/// Relies on png's `Decoder` / `Reader`: with the EXPAND and STRIP_16
/// transformations, `next_frame` writes `width * height * channels` bytes of
/// 8-bit samples, where `channels` is the sample count of the output color
/// type (1 to 4); malformed or oversized input makes `read_info`,
/// `output_buffer_size` or `next_frame` fail.
#[verifier::external_body]
pub(crate) fn decode_png_pixels(data: &[u8]) -> (r: Result<(Vec<u8>, u32, u32, u8), Error>)
    ensures
        match r {
            Ok(t) => spec_png_decoded(data@) matches Some(d) && t.0@ == d.0 && t.1 == d.1 && t.2
                == d.2 && t.3 == d.3 && t.0@.len() == d.1 * d.2 * d.3 && 1 <= t.3 <= 4,
            Err(e) => spec_png_decoded(data@) is None && e.kind() == ErrorKind::EncodeError,
        },
{
    let mut dec = png::Decoder::new(std::io::Cursor::new(data));
    dec.set_transformations(png::Transformations::EXPAND | png::Transformations::STRIP_16);
    let err = |_e| Error::new(ErrorKind::EncodeError, "PNG decode failed");
    let mut reader = dec.read_info().map_err(err)?;
    let size = reader.output_buffer_size().ok_or(Error::new(ErrorKind::EncodeError, "PNG too large"))?;
    let mut buf = vec![0u8; size];
    let info = reader.next_frame(&mut buf).map_err(err)?;
    let channels = info.color_type.samples() as u8;
    buf.truncate(info.buffer_size());
    Ok((buf, info.width, info.height, channels))
}

/// What the generic image decoder yields for `data`: nothing when it
/// rejects the bytes; otherwise the 8-bit RGBA samples of the decoded image,
/// its width and height, whether the source had an alpha channel, and the
/// source channel count. Acceptance and output are functions of the bytes.
pub uninterp spec fn spec_image_decoded(data: Seq<u8>) -> Option<(Seq<u8>, nat, nat, bool, nat)>;

/// Relies on image's `load_from_memory` and `DynamicImage::into_rgba8`: the
/// decoded image converted to 8-bit RGBA holds exactly
/// `width * height * 4` bytes, and `color()` reports the source color type's
/// alpha presence and channel count; unrecognized or malformed bytes make
/// `load_from_memory` fail.
#[verifier::external_body]
pub(crate) fn decode_image_rgba(data: &[u8]) -> (r: Result<(Vec<u8>, u32, u32, bool, u8), Error>)
    ensures
        match r {
            Ok(t) => spec_image_decoded(data@) matches Some(d) && ({
                &&& t.0@ == d.0
                &&& t.1 as nat == d.1
                &&& t.2 as nat == d.2
                &&& t.3 == d.3
                &&& t.4 as nat == d.4
                &&& t.0@.len() == 4 * (t.1 as nat) * (t.2 as nat)
            }),
            Err(e) => spec_image_decoded(data@) is None && e.kind() == ErrorKind::EncodeError,
        },
{
    let img = match image::load_from_memory(data) {
        Ok(i) => i,
        Err(_) => return Err(Error::new(ErrorKind::EncodeError, "image decode failed")),
    };
    let (w, h) = image::GenericImageView::dimensions(&img);
    let color = img.color();
    Ok((img.into_rgba8().into_raw(), w, h, color.has_alpha(), color.channel_count()))
}

} // verus!
