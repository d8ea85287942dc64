//! Byte-exact JPEG header parsing.
//!
//! The parser walks the marker stream that follows the 0xFFD8 start-of-image
//! marker: fill bytes and standalone markers are skipped, every other marker
//! carries a 2-byte big-endian length. Resolution (JFIF), ICC-profile and
//! Adobe color-transform application markers are collected on the way; the
//! walk stops at the first start-of-frame marker, which carries the image
//! dimensions and component count.

use vstd::prelude::*;

use crate::err::{Error, ErrorKind};

verus! {

/// Big-endian 16-bit value of two bytes.
pub open spec fn spec_be16(hi: u8, lo: u8) -> int {
    hi * 256 + lo
}

/// Start-of-frame markers: 0xC0-0xCF except DHT (0xC4), JPG (0xC8), DAC (0xCC).
pub open spec fn spec_is_sof_marker(m: u8) -> bool {
    &&& 0xC0 <= m <= 0xCF
    &&& m != 0xC4
    &&& m != 0xC8
    &&& m != 0xCC
}

/// Markers without a length field: stuffed 0x00 and RST0-RST7 / SOI / EOI.
pub open spec fn spec_is_standalone_marker(m: u8) -> bool {
    m == 0x00 || (0xD0 <= m <= 0xD9)
}

/// What one scan of the marker stream yields: the position of the first
/// start-of-frame marker and the metadata gathered before it.
pub ghost struct JpegScan {
    /// Position of the 0xFF byte of the start-of-frame marker.
    pub sof: int,
    /// Dots per inch from a JFIF resolution marker, if one was seen.
    pub dpi: Option<u32>,
    /// Concatenated ICC profile bytes from APP2 markers, in file order.
    pub icc: Seq<u8>,
    /// Adobe color-transform code from an APP14 marker, if one was seen.
    pub adobe: Option<u8>,
}

/// Metadata gathered from the markers already walked.
pub ghost struct JpegMeta {
    pub dpi: Option<u32>,
    pub icc: Seq<u8>,
    pub adobe: Option<u8>,
}

/// Prepends already-gathered metadata to the result of scanning the rest of
/// the stream. An earlier resolution or transform marker wins; ICC chunks
/// concatenate in file order.
pub open spec fn spec_meta_combine(m: JpegMeta, r: JpegScan) -> JpegScan {
    JpegScan {
        sof: r.sof,
        dpi: if m.dpi is Some {
            m.dpi
        } else {
            r.dpi
        },
        icc: m.icc + r.icc,
        adobe: if m.adobe is Some {
            m.adobe
        } else {
            r.adobe
        },
    }
}

/// The payload of the marker segment at `pos` with length field `len`
/// (the length field counts itself, so the payload is `len - 2` bytes).
pub open spec fn spec_seg_payload(data: Seq<u8>, pos: int, len: int) -> Seq<u8> {
    if 0 <= pos && 2 <= len && pos + 2 + len <= data.len() {
        data.subrange(pos + 4, pos + 2 + len)
    } else {
        Seq::empty()
    }
}

/// Dots per inch carried by a JFIF APP0 payload, if any. Density unit 1 is
/// dots per inch; unit 2 is dots per centimetre and is converted.
pub open spec fn spec_jfif_dpi(p: Seq<u8>) -> Option<u32> {
    if p.len() >= 12 && p[0] == 0x4A && p[1] == 0x46 && p[2] == 0x49 && p[3] == 0x46 && p[4]
        == 0x00 {
        let units = p[7];
        let xd = spec_be16(p[8], p[9]);
        if (units == 1 || units == 2) && xd > 0 {
            if units == 1 {
                Some(xd as u32)
            } else {
                Some((xd * 254 / 100) as u32)
            }
        } else {
            None
        }
    } else {
        None
    }
}

/// Color-transform code carried by an Adobe APP14 payload, if any.
pub open spec fn spec_adobe_transform(p: Seq<u8>) -> Option<u8> {
    if p.len() >= 12 && p[0] == 0x41 && p[1] == 0x64 && p[2] == 0x6F && p[3] == 0x62 && p[4]
        == 0x65 {
        Some(p[11])
    } else {
        None
    }
}

/// Whether an APP2 payload starts with the "ICC_PROFILE\0" tag.
pub open spec fn spec_icc_tagged(p: Seq<u8>) -> bool {
    &&& p.len() >= 14
    &&& p[0] == 0x49
    &&& p[1] == 0x43
    &&& p[2] == 0x43
    &&& p[3] == 0x5F
    &&& p[4] == 0x50
    &&& p[5] == 0x52
    &&& p[6] == 0x4F
    &&& p[7] == 0x46
    &&& p[8] == 0x49
    &&& p[9] == 0x4C
    &&& p[10] == 0x45
    &&& p[11] == 0x00
}

/// The profile bytes an APP2 payload contributes: everything after the tag
/// and the two chunk-sequence bytes.
pub open spec fn spec_icc_chunk(p: Seq<u8>) -> Seq<u8> {
    if spec_icc_tagged(p) {
        p.subrange(14, p.len() as int)
    } else {
        Seq::empty()
    }
}

pub open spec fn spec_seg_dpi(m: u8, p: Seq<u8>) -> Option<u32> {
    if m == 0xE0 {
        spec_jfif_dpi(p)
    } else {
        None
    }
}

pub open spec fn spec_seg_adobe(m: u8, p: Seq<u8>) -> Option<u8> {
    if m == 0xEE {
        spec_adobe_transform(p)
    } else {
        None
    }
}

pub open spec fn spec_seg_icc(m: u8, p: Seq<u8>) -> Seq<u8> {
    if m == 0xE2 {
        spec_icc_chunk(p)
    } else {
        Seq::empty()
    }
}

/// Scans the marker stream from `pos`. Returns `None` when a byte that should
/// start a marker is not 0xFF, or when the data ends before a complete
/// start-of-frame segment was found.
pub open spec fn spec_jpeg_scan(data: Seq<u8>, pos: int) -> Option<JpegScan>
    decreases data.len() - pos,
{
    if pos < 0 || pos + 4 >= data.len() {
        None
    } else if data[pos] != 0xFF {
        None
    } else {
        let m = data[pos + 1];
        if m == 0xFF {
            spec_jpeg_scan(data, pos + 1)
        } else if spec_is_standalone_marker(m) {
            spec_jpeg_scan(data, pos + 2)
        } else {
            let len = spec_be16(data[pos + 2], data[pos + 3]);
            if spec_is_sof_marker(m) {
                if len >= 8 && pos + 2 + len <= data.len() {
                    Some(JpegScan { sof: pos, dpi: None, icc: Seq::empty(), adobe: None })
                } else {
                    None
                }
            } else if pos + 2 + len > data.len() {
                None
            } else {
                let p = spec_seg_payload(data, pos, len);
                match spec_jpeg_scan(data, pos + 2 + len) {
                    None => None,
                    Some(rest) => Some(
                        spec_meta_combine(
                            JpegMeta {
                                dpi: spec_seg_dpi(m, p),
                                icc: spec_seg_icc(m, p),
                                adobe: spec_seg_adobe(m, p),
                            },
                            rest,
                        ),
                    ),
                }
            }
        }
    }
}

/// The parse of a whole JPEG file: the signature followed by the marker scan.
pub open spec fn spec_jpeg_header(data: Seq<u8>) -> Option<JpegScan> {
    if data.len() >= 2 && data[0] == 0xFF && data[1] == 0xD8 {
        spec_jpeg_scan(data, 2)
    } else {
        None
    }
}

/// Width stored in the start-of-frame segment at `sof`.
pub open spec fn spec_sof_width(data: Seq<u8>, sof: int) -> int {
    spec_be16(data[sof + 7], data[sof + 8])
}

/// Height stored in the start-of-frame segment at `sof`.
pub open spec fn spec_sof_height(data: Seq<u8>, sof: int) -> int {
    spec_be16(data[sof + 5], data[sof + 6])
}

/// Component count stored in the start-of-frame segment at `sof`.
pub open spec fn spec_sof_components(data: Seq<u8>, sof: int) -> u8 {
    data[sof + 9]
}

/// Header metadata of a JPEG file, extracted without decoding.
pub struct JpegInfo {
    pub width: u32,
    pub height: u32,
    pub components: u8,
    pub dpi: Option<u32>,
    pub icc_profile: Option<Vec<u8>>,
    pub adobe_color_transform: Option<u8>,
}

/// How an extracted [`JpegInfo`] relates to the spec-level parse of the bytes.
pub open spec fn jpeg_info_matches(info: JpegInfo, data: Seq<u8>) -> bool {
    spec_jpeg_header(data) matches Some(s) && {
        &&& info.width == spec_sof_width(data, s.sof)
        &&& info.height == spec_sof_height(data, s.sof)
        &&& info.components == spec_sof_components(data, s.sof)
        &&& info.dpi == s.dpi
        &&& match info.icc_profile {
            Some(v) => s.icc.len() > 0 && v@ == s.icc,
            None => s.icc.len() == 0,
        }
        &&& info.adobe_color_transform == s.adobe
    }
}

fn is_sof_marker(m: u8) -> (b: bool)
    ensures
        b == spec_is_sof_marker(m),
{
    0xC0 <= m && m <= 0xCF && m != 0xC4 && m != 0xC8 && m != 0xCC
}

/// Parses the full JPEG header: dimensions, component count, and the
/// resolution / ICC / Adobe metadata that precedes the start-of-frame marker.
pub fn parse_jpeg_info(data: &[u8]) -> (r: Result<JpegInfo, Error>)
    ensures
        match r {
            Ok(info) => jpeg_info_matches(info, data@),
            Err(e) => spec_jpeg_header(data@) is None && e.kind()
                == ErrorKind::MalformedHeader,
        },
{
    if !(data.len() >= 2 && data[0] == 0xFF && data[1] == 0xD8) {
        return Err(Error::new(ErrorKind::MalformedHeader, "Not a valid JPEG file"));
    }
    let mut pos: usize = 2;
    let mut dpi: Option<u32> = None;
    let mut adobe: Option<u8> = None;
    let mut icc: Vec<u8> = Vec::new();
    while pos < data.len() && data.len() - pos > 4
        invariant
            data@.len() >= 2,
            data@[0] == 0xFF,
            data@[1] == 0xD8,
            2 <= pos <= data@.len(),
            match spec_jpeg_scan(data@, pos as int) {
                Some(r) => spec_jpeg_scan(data@, 2) matches Some(t) && {
                    &&& t.sof == r.sof
                    &&& t.dpi == (if dpi is Some {
                        dpi
                    } else {
                        r.dpi
                    })
                    &&& t.icc == icc@ + r.icc
                    &&& t.adobe == (if adobe is Some {
                        adobe
                    } else {
                        r.adobe
                    })
                },
                None => spec_jpeg_scan(data@, 2) is None,
            },
        decreases data@.len() - pos,
    {
        if data[pos] != 0xFF {
            return Err(Error::new(ErrorKind::MalformedHeader, "Invalid JPEG marker"));
        }
        let m = data[pos + 1];
        if m == 0xFF {
            pos = pos + 1;
            continue;
        }
        if m == 0x00 || (0xD0 <= m && m <= 0xD9) {
            pos = pos + 2;
            continue;
        }
        let len: usize = (data[pos + 2] as usize) * 256 + (data[pos + 3] as usize);
        if is_sof_marker(m) {
            if len >= 8 && len <= data.len() - pos - 2 {
                let height = (data[pos + 5] as u32) * 256 + (data[pos + 6] as u32);
                let width = (data[pos + 7] as u32) * 256 + (data[pos + 8] as u32);
                let components = data[pos + 9];
                proof {
                    assert(spec_jpeg_scan(data@, pos as int) matches Some(r) && r.sof
                        == pos as int && r.dpi is None && r.adobe is None && r.icc
                        == Seq::<u8>::empty());
                    assert(icc@ + Seq::<u8>::empty() =~= icc@);
                }
                let icc_profile: Option<Vec<u8>> = if icc.len() > 0 {
                    Some(icc)
                } else {
                    None
                };
                return Ok(
                    JpegInfo { width, height, components, dpi, icc_profile, adobe_color_transform: adobe },
                );
            } else {
                return Err(Error::new(ErrorKind::MalformedHeader, "Truncated SOF segment"));
            }
        }
        if len > data.len() - pos - 2 {
            return Err(Error::new(ErrorKind::MalformedHeader, "No SOF marker found in JPEG"));
        }
        let ghost prev_icc: Seq<u8> = icc@;
        let ghost prev_dpi: Option<u32> = dpi;
        let ghost prev_adobe: Option<u8> = adobe;
        let ghost p: Seq<u8> = spec_seg_payload(data@, pos as int, len as int);
        if len >= 2 {
            let payload: &[u8] = vstd::slice::slice_subrange(data, pos + 4, pos + 2 + len);
            if m == 0xE0 {
                if payload.len() >= 12 && payload[0] == 0x4A && payload[1] == 0x46 && payload[2]
                    == 0x49 && payload[3] == 0x46 && payload[4] == 0x00 {
                    let units = payload[7];
                    let xd: u32 = (payload[8] as u32) * 256 + (payload[9] as u32);
                    if (units == 1 || units == 2) && xd > 0 {
                        let cand: u32 = if units == 1 {
                            xd
                        } else {
                            xd * 254 / 100
                        };
                        if dpi.is_none() {
                            dpi = Some(cand);
                        }
                    }
                }
            } else if m == 0xEE {
                if payload.len() >= 12 && payload[0] == 0x41 && payload[1] == 0x64 && payload[2]
                    == 0x6F && payload[3] == 0x62 && payload[4] == 0x65 {
                    if adobe.is_none() {
                        adobe = Some(payload[11]);
                    }
                }
            } else if m == 0xE2 {
                if payload.len() >= 14 && payload[0] == 0x49 && payload[1] == 0x43 && payload[2]
                    == 0x43 && payload[3] == 0x5F && payload[4] == 0x50 && payload[5] == 0x52
                    && payload[6] == 0x4F && payload[7] == 0x46 && payload[8] == 0x49 && payload[9]
                    == 0x4C && payload[10] == 0x45 && payload[11] == 0x00 {
                    let rest: &[u8] = vstd::slice::slice_subrange(payload, 14, payload.len());
                    icc.extend_from_slice(rest);
                    proof {
                        assert(icc@ =~= prev_icc + spec_seg_icc(m, p));
                    }
                }
            }
        }
        proof {
            let nxt = pos + 2 + len;
            assert(spec_jpeg_scan(data@, pos as int) == (match spec_jpeg_scan(data@, nxt as int) {
                None => None::<JpegScan>,
                Some(rest) => Some(
                    spec_meta_combine(
                        JpegMeta {
                            dpi: spec_seg_dpi(m, p),
                            icc: spec_seg_icc(m, p),
                            adobe: spec_seg_adobe(m, p),
                        },
                        rest,
                    ),
                ),
            }));
            match spec_jpeg_scan(data@, nxt as int) {
                Some(rest) => {
                    assert(prev_icc + (spec_seg_icc(m, p) + rest.icc) =~= icc@ + rest.icc);
                },
                None => {},
            }
        }
        pos = pos + 2 + len;
    }
    Err(Error::new(ErrorKind::MalformedHeader, "No SOF marker found in JPEG"))
}

/// A resolution extracted from a JFIF marker is always positive.
pub proof fn lemma_scan_dpi_positive(data: Seq<u8>, pos: int)
    ensures
        spec_jpeg_scan(data, pos) matches Some(r) ==> (r.dpi matches Some(d) ==> d >= 1),
    decreases data.len() - pos,
{
    if pos < 0 || pos + 4 >= data.len() {
    } else if data[pos] != 0xFF {
    } else {
        let m = data[pos + 1];
        if m == 0xFF {
            lemma_scan_dpi_positive(data, pos + 1);
        } else if spec_is_standalone_marker(m) {
            lemma_scan_dpi_positive(data, pos + 2);
        } else {
            let len = spec_be16(data[pos + 2], data[pos + 3]);
            if !spec_is_sof_marker(m) && pos + 2 + len <= data.len() {
                lemma_scan_dpi_positive(data, pos + 2 + len);
            }
        }
    }
}

/// A successful scan always points at a complete start-of-frame segment
/// inside the data.
pub proof fn lemma_scan_sof_bounds(data: Seq<u8>, pos: int)
    ensures
        spec_jpeg_scan(data, pos) matches Some(r) ==> pos <= r.sof && r.sof + 10 <= data.len()
            && data[r.sof] == 0xFF && spec_is_sof_marker(data[r.sof + 1]),
    decreases data.len() - pos,
{
    if pos < 0 || pos + 4 >= data.len() {
    } else if data[pos] != 0xFF {
    } else {
        let m = data[pos + 1];
        if m == 0xFF {
            lemma_scan_sof_bounds(data, pos + 1);
        } else if spec_is_standalone_marker(m) {
            lemma_scan_sof_bounds(data, pos + 2);
        } else {
            let len = spec_be16(data[pos + 2], data[pos + 3]);
            if !spec_is_sof_marker(m) && pos + 2 + len <= data.len() {
                lemma_scan_sof_bounds(data, pos + 2 + len);
            }
        }
    }
}

/// Bytes at aligned offsets of two streams with equal tails agree.
proof fn lemma_tail_index_align(d1: Seq<u8>, d2: Seq<u8>, pos1: int, pos2: int, k: int)
    requires
        0 <= pos1 <= d1.len(),
        0 <= pos2 <= d2.len(),
        d1.skip(pos1) == d2.skip(pos2),
        0 <= k < d1.len() - pos1,
    ensures
        d1.len() - pos1 == d2.len() - pos2,
        d1[pos1 + k] == d2[pos2 + k],
{
    assert(d1.skip(pos1).len() == d1.len() - pos1);
    assert(d2.skip(pos2).len() == d2.len() - pos2);
    assert(d1.skip(pos1)[k] == d1[pos1 + k]);
    assert(d2.skip(pos2)[k] == d2[pos2 + k]);
}

/// Equal tails stay equal when both starting points advance by the same
/// amount.
proof fn lemma_tail_align_advance(d1: Seq<u8>, d2: Seq<u8>, pos1: int, pos2: int, k: int)
    requires
        0 <= pos1 <= d1.len(),
        0 <= pos2 <= d2.len(),
        d1.skip(pos1) == d2.skip(pos2),
        0 <= k,
        pos1 + k <= d1.len(),
    ensures
        d2.len() - pos2 == d1.len() - pos1,
        d1.skip(pos1 + k) == d2.skip(pos2 + k),
{
    assert(d1.skip(pos1).len() == d1.len() - pos1);
    assert(d2.skip(pos2).len() == d2.len() - pos2);
    let s1 = d1.skip(pos1 + k);
    let s2 = d2.skip(pos2 + k);
    assert forall|i: int| 0 <= i < s1.len() implies s1[i] == s2[i] by {
        assert(s1[i] == d1[pos1 + k + i]);
        assert(d1.skip(pos1)[k + i] == d1[pos1 + k + i]);
        assert(d2.skip(pos2)[k + i] == d2[pos2 + k + i]);
        assert(s2[i] == d2[pos2 + k + i]);
    }
    assert(s1 =~= s2);
}

/// Scanning two byte streams that agree from `pos1` and `pos2` onwards gives
/// the same outcome, with the start-of-frame position shifted accordingly.
pub proof fn lemma_scan_shift(d1: Seq<u8>, d2: Seq<u8>, pos1: int, pos2: int)
    requires
        0 <= pos1 <= d1.len(),
        0 <= pos2 <= d2.len(),
        d1.skip(pos1) == d2.skip(pos2),
    ensures
        spec_jpeg_scan(d1, pos1) is Some <==> spec_jpeg_scan(d2, pos2) is Some,
        spec_jpeg_scan(d1, pos1) matches Some(r1) ==> spec_jpeg_scan(d2, pos2) matches Some(r2)
            && r2.sof == r1.sof + (pos2 - pos1) && r2.dpi == r1.dpi && r2.icc == r1.icc
            && r2.adobe == r1.adobe,
    decreases d1.len() - pos1,
{
    assert(d1.skip(pos1).len() == d1.len() - pos1);
    assert(d2.skip(pos2).len() == d2.len() - pos2);
    if pos1 + 4 >= d1.len() {
    } else {
        lemma_tail_index_align(d1, d2, pos1, pos2, 0);
        lemma_tail_index_align(d1, d2, pos1, pos2, 1);
        if d1[pos1] != 0xFF {
        } else {
            let m = d1[pos1 + 1];
            if m == 0xFF {
                lemma_tail_align_advance(d1, d2, pos1, pos2, 1);
                lemma_scan_shift(d1, d2, pos1 + 1, pos2 + 1);
            } else if spec_is_standalone_marker(m) {
                lemma_tail_align_advance(d1, d2, pos1, pos2, 2);
                lemma_scan_shift(d1, d2, pos1 + 2, pos2 + 2);
            } else {
                lemma_tail_index_align(d1, d2, pos1, pos2, 2);
                lemma_tail_index_align(d1, d2, pos1, pos2, 3);
                let len = spec_be16(d1[pos1 + 2], d1[pos1 + 3]);
                if spec_is_sof_marker(m) {
                } else if pos1 + 2 + len > d1.len() {
                } else {
                    if len >= 2 {
                        let p1 = spec_seg_payload(d1, pos1, len);
                        let p2 = spec_seg_payload(d2, pos2, len);
                        assert forall|i: int| 0 <= i < p1.len() implies p1[i] == p2[i] by {
                            lemma_tail_index_align(d1, d2, pos1, pos2, 4 + i);
                            assert(p1[i] == d1[pos1 + 4 + i]);
                            assert(p2[i] == d2[pos2 + 4 + i]);
                        }
                        assert(p1 =~= p2);
                    }
                    lemma_tail_align_advance(d1, d2, pos1, pos2, 2 + len);
                    lemma_scan_shift(d1, d2, pos1 + 2 + len, pos2 + 2 + len);
                }
            }
        }
    }
}

/// Parsing is unaffected by a skippable marker segment inserted right after
/// the start-of-image marker: the dimensions and component count of the first
/// start-of-frame marker are the same with and without it. Applied
/// repeatedly, any number of such segments (application markers, comments)
/// may precede the start-of-frame marker without changing the result.
pub proof fn lemma_jpeg_header_ignores_leading_segment(data: Seq<u8>, seg: Seq<u8>)
    requires
        data.len() >= 2,
        data[0] == 0xFF,
        data[1] == 0xD8,
        seg.len() >= 4,
        seg[0] == 0xFF,
        seg[1] != 0xFF,
        !spec_is_standalone_marker(seg[1]),
        !spec_is_sof_marker(seg[1]),
        spec_be16(seg[2], seg[3]) == seg.len() - 2,
    ensures
        ({
            let d2 = data.take(2) + seg + data.skip(2);
            &&& (spec_jpeg_header(d2) is Some <==> spec_jpeg_header(data) is Some)
            &&& (spec_jpeg_header(data) matches Some(r) ==> spec_jpeg_header(d2) matches Some(
                r2,
            ) && spec_sof_width(d2, r2.sof) == spec_sof_width(data, r.sof) && spec_sof_height(
                d2,
                r2.sof,
            ) == spec_sof_height(data, r.sof) && spec_sof_components(d2, r2.sof)
                == spec_sof_components(data, r.sof))
        }),
{
    let d2 = data.take(2) + seg + data.skip(2);
    assert(d2.len() == data.len() + seg.len());
    assert(d2[0] == 0xFF && d2[1] == 0xD8);
    let shift = seg.len() as int;
    let pos2 = 2 + shift;
    assert forall|i: int| 0 <= i < d2.skip(pos2).len() implies d2.skip(pos2)[i] == data.skip(2)[i]
        by {
        assert(d2.skip(pos2)[i] == d2[pos2 + i]);
        assert(d2[pos2 + i] == data.skip(2)[i]);
    }
    assert(data.skip(2) =~= d2.skip(pos2));
    lemma_scan_shift(data, d2, 2, pos2);
    if 2 + 4 < d2.len() {
        assert(d2[2] == seg[0]);
        assert(d2[3] == seg[1]);
        assert(d2[4] == seg[2]);
        assert(d2[5] == seg[3]);
        assert(spec_be16(d2[4], d2[5]) == seg.len() - 2);
        assert(spec_jpeg_scan(d2, 2) == (match spec_jpeg_scan(d2, pos2) {
            None => None::<JpegScan>,
            Some(rest) => Some(
                spec_meta_combine(
                    JpegMeta {
                        dpi: spec_seg_dpi(d2[3], spec_seg_payload(d2, 2, seg.len() - 2)),
                        icc: spec_seg_icc(d2[3], spec_seg_payload(d2, 2, seg.len() - 2)),
                        adobe: spec_seg_adobe(d2[3], spec_seg_payload(d2, 2, seg.len() - 2)),
                    },
                    rest,
                ),
            ),
        }));
    } else {
        assert(data.len() <= 2 + 4 - seg.len());
        assert(spec_jpeg_scan(data, 2) is None);
        assert(spec_jpeg_scan(d2, 2) is None);
    }
    match spec_jpeg_scan(data, 2) {
        Some(r) => {
            lemma_scan_sof_bounds(data, 2);
            assert(spec_jpeg_scan(d2, pos2) matches Some(rm) && rm.sof == r.sof + shift);
            match spec_jpeg_scan(d2, 2) {
                Some(r2) => {
                    assert(r2.sof == r.sof + shift);
                    lemma_tail_index_align(data, d2, 2, pos2, r.sof + 3);
                    lemma_tail_index_align(data, d2, 2, pos2, r.sof + 4);
                    lemma_tail_index_align(data, d2, 2, pos2, r.sof + 5);
                    lemma_tail_index_align(data, d2, 2, pos2, r.sof + 6);
                    lemma_tail_index_align(data, d2, 2, pos2, r.sof + 7);
                    assert(d2[r.sof + shift + 5] == data[r.sof + 5]);
                    assert(d2[r.sof + shift + 6] == data[r.sof + 6]);
                    assert(d2[r.sof + shift + 7] == data[r.sof + 7]);
                    assert(d2[r.sof + shift + 8] == data[r.sof + 8]);
                    assert(d2[r.sof + shift + 9] == data[r.sof + 9]);
                },
                None => {
                    assert(false);
                },
            }
        },
        None => {},
    }
}

/// Parsing is likewise unaffected by a standalone marker (a restart marker
/// or a stuffed zero byte) inserted right after the start-of-image marker.
pub proof fn lemma_jpeg_header_ignores_leading_standalone(data: Seq<u8>, m: u8)
    requires
        data.len() >= 2,
        data[0] == 0xFF,
        data[1] == 0xD8,
        spec_is_standalone_marker(m),
    ensures
        ({
            let d2 = data.take(2) + seq![0xFFu8, m] + data.skip(2);
            &&& (spec_jpeg_header(d2) is Some <==> spec_jpeg_header(data) is Some)
            &&& (spec_jpeg_header(data) matches Some(r) ==> spec_jpeg_header(d2) matches Some(
                r2,
            ) && spec_sof_width(d2, r2.sof) == spec_sof_width(data, r.sof) && spec_sof_height(
                d2,
                r2.sof,
            ) == spec_sof_height(data, r.sof) && spec_sof_components(d2, r2.sof)
                == spec_sof_components(data, r.sof))
        }),
{
    let d2 = data.take(2) + seq![0xFFu8, m] + data.skip(2);
    assert(d2.len() == data.len() + 2);
    assert(d2[0] == 0xFF && d2[1] == 0xD8);
    assert(d2[2] == 0xFF && d2[3] == m);
    let pos2 = 4int;
    assert forall|i: int| 0 <= i < d2.skip(pos2).len() implies d2.skip(pos2)[i] == data.skip(2)[i]
        by {
        assert(d2.skip(pos2)[i] == d2[pos2 + i]);
        assert(d2[pos2 + i] == data.skip(2)[i]);
    }
    assert(data.skip(2) =~= d2.skip(pos2));
    lemma_scan_shift(data, d2, 2, pos2);
    if 2 + 4 < d2.len() {
        assert(spec_jpeg_scan(d2, 2) == spec_jpeg_scan(d2, 4));
    } else {
        assert(data.len() <= 4);
        assert(spec_jpeg_scan(data, 2) is None);
        assert(spec_jpeg_scan(d2, 2) is None);
        assert(spec_jpeg_scan(d2, 4) is None);
    }
    match spec_jpeg_scan(data, 2) {
        Some(r) => {
            lemma_scan_sof_bounds(data, 2);
            match spec_jpeg_scan(d2, 2) {
                Some(r2) => {
                    assert(r2.sof == r.sof + 2);
                    lemma_tail_index_align(data, d2, 2, pos2, r.sof + 3);
                    lemma_tail_index_align(data, d2, 2, pos2, r.sof + 4);
                    lemma_tail_index_align(data, d2, 2, pos2, r.sof + 5);
                    lemma_tail_index_align(data, d2, 2, pos2, r.sof + 6);
                    lemma_tail_index_align(data, d2, 2, pos2, r.sof + 7);
                    assert(d2[r.sof + 2 + 5] == data[r.sof + 5]);
                    assert(d2[r.sof + 2 + 6] == data[r.sof + 6]);
                    assert(d2[r.sof + 2 + 7] == data[r.sof + 7]);
                    assert(d2[r.sof + 2 + 8] == data[r.sof + 8]);
                    assert(d2[r.sof + 2 + 9] == data[r.sof + 9]);
                },
                None => {
                    assert(false);
                },
            }
        },
        None => {},
    }
}

/// A marker that the scan skips without reading: either a length-prefixed
/// non-start-of-frame segment (an application marker, a comment) or a
/// standalone marker pair.
pub open spec fn spec_skippable_segment(seg: Seq<u8>) -> bool {
    ||| ({
        &&& seg.len() >= 4
        &&& seg[0] == 0xFF
        &&& seg[1] != 0xFF
        &&& !spec_is_standalone_marker(seg[1])
        &&& !spec_is_sof_marker(seg[1])
        &&& spec_be16(seg[2], seg[3]) == seg.len() - 2
    })
    ||| (seg.len() == 2 && seg[0] == 0xFF && spec_is_standalone_marker(seg[1]))
}

pub open spec fn spec_concat_all(segs: Seq<Seq<u8>>) -> Seq<u8>
    decreases segs.len(),
{
    if segs.len() == 0 {
        Seq::empty()
    } else {
        segs.first() + spec_concat_all(segs.drop_first())
    }
}

/// Law: any number of skippable marker segments inserted between the
/// start-of-image marker and the rest of the stream leaves the parsed
/// dimensions and component count unchanged, and does not change whether
/// parsing succeeds.
pub proof fn lemma_jpeg_header_ignores_leading_segments(data: Seq<u8>, segs: Seq<Seq<u8>>)
    requires
        data.len() >= 2,
        data[0] == 0xFF,
        data[1] == 0xD8,
        forall|i: int| 0 <= i < segs.len() ==> spec_skippable_segment(#[trigger] segs[i]),
    ensures
        ({
            let d2 = data.take(2) + spec_concat_all(segs) + data.skip(2);
            &&& (spec_jpeg_header(d2) is Some <==> spec_jpeg_header(data) is Some)
            &&& (spec_jpeg_header(data) matches Some(r) ==> spec_jpeg_header(d2) matches Some(
                r2,
            ) && spec_sof_width(d2, r2.sof) == spec_sof_width(data, r.sof) && spec_sof_height(
                d2,
                r2.sof,
            ) == spec_sof_height(data, r.sof) && spec_sof_components(d2, r2.sof)
                == spec_sof_components(data, r.sof))
        }),
    decreases segs.len(),
{
    let d2 = data.take(2) + spec_concat_all(segs) + data.skip(2);
    if segs.len() == 0 {
        assert(d2 =~= data);
    } else {
        let rest = segs.drop_first();
        let d1 = data.take(2) + spec_concat_all(rest) + data.skip(2);
        lemma_jpeg_header_ignores_leading_segments(data, rest);
        assert(d1.len() >= 2 && d1[0] == 0xFF && d1[1] == 0xD8);
        let seg = segs.first();
        assert(spec_skippable_segment(seg));
        assert(d2 =~= d1.take(2) + seg + d1.skip(2));
        if seg.len() == 2 {
            assert(seg =~= seq![0xFFu8, seg[1]]);
            lemma_jpeg_header_ignores_leading_standalone(d1, seg[1]);
        } else {
            lemma_jpeg_header_ignores_leading_segment(d1, seg);
        }
    }
}

/// Parses a JPEG file's start-of-frame marker and returns
/// `(width, height, component_count)`.
pub fn parse_jpeg_header(data: &[u8]) -> (r: Result<(u32, u32, u8), Error>)
    ensures
        match r {
            Ok(whc) => spec_jpeg_header(data@) matches Some(s) && {
                &&& whc.0 == spec_sof_width(data@, s.sof)
                &&& whc.1 == spec_sof_height(data@, s.sof)
                &&& whc.2 == spec_sof_components(data@, s.sof)
            },
            Err(e) => spec_jpeg_header(data@) is None && e.kind()
                == ErrorKind::MalformedHeader,
        },
{
    match parse_jpeg_info(data) {
        Ok(info) => Ok((info.width, info.height, info.components)),
        Err(e) => Err(e),
    }
}

} // verus!
