//! Byte-exact PNG header parsing.
//!
//! After the 8-byte signature, a PNG file is a sequence of length-prefixed
//! chunks: a 4-byte big-endian payload length, a 4-byte type, the payload,
//! and a 4-byte CRC (not re-verified here). The parser accumulates the IHDR
//! fields, concatenates every IDAT payload in file order, captures the
//! palette, transparency presence, resolution and ICC profile, and stops at
//! IEND.

use vstd::prelude::*;

use crate::codec;
use crate::err::{Error, ErrorKind};

verus! {

broadcast use vstd::seq_lib::group_seq_lib_default;

/// Big-endian 32-bit value of four bytes.
pub open spec fn spec_be32(b0: u8, b1: u8, b2: u8, b3: u8) -> int {
    ((b0 * 256 + b1) * 256 + b2) * 256 + b3
}

/// The 8-byte PNG file signature.
pub open spec fn spec_png_signature(data: Seq<u8>) -> bool {
    &&& data.len() >= 8
    &&& data[0] == 137
    &&& data[1] == 80
    &&& data[2] == 78
    &&& data[3] == 71
    &&& data[4] == 13
    &&& data[5] == 10
    &&& data[6] == 26
    &&& data[7] == 10
}

/// The fields of an IHDR chunk payload.
pub ghost struct IhdrFields {
    pub width: int,
    pub height: int,
    pub bit_depth: u8,
    pub color_type: u8,
    pub interlace: u8,
}

/// What scanning the chunk sequence yields.
pub ghost struct PngScan {
    /// Fields of the first IHDR chunk, if one was seen.
    pub ihdr: Option<IhdrFields>,
    /// Concatenation of every IDAT payload, in file order.
    pub idat: Seq<u8>,
    /// Concatenation of every PLTE payload, in file order.
    pub plte: Seq<u8>,
    /// Whether a tRNS chunk is present.
    pub has_trns: bool,
    /// Dots per inch from a pHYs chunk with the per-metre unit, if present.
    pub dpi: Option<u32>,
    /// The still-compressed profile bytes of the first iCCP chunk, if any.
    pub iccp: Option<Seq<u8>>,
}

pub open spec fn spec_png_empty() -> PngScan {
    PngScan {
        ihdr: None,
        idat: Seq::empty(),
        plte: Seq::empty(),
        has_trns: false,
        dpi: None,
        iccp: None,
    }
}

/// Prepends the chunks already walked to the scan of the remaining chunks.
/// The first IHDR, pHYs and iCCP win; IDAT and PLTE payloads concatenate;
/// transparency is present if any tRNS chunk is.
pub open spec fn spec_png_combine(a: PngScan, b: PngScan) -> PngScan {
    PngScan {
        ihdr: if a.ihdr is Some {
            a.ihdr
        } else {
            b.ihdr
        },
        idat: a.idat + b.idat,
        plte: a.plte + b.plte,
        has_trns: a.has_trns || b.has_trns,
        dpi: if a.dpi is Some {
            a.dpi
        } else {
            b.dpi
        },
        iccp: if a.iccp is Some {
            a.iccp
        } else {
            b.iccp
        },
    }
}

/// Dots per inch carried by a pHYs payload: pixels per metre converted and
/// rounded to dots per inch; absent unless the unit is per-metre and the
/// result is positive.
pub open spec fn spec_phys_dpi(p: Seq<u8>) -> Option<u32> {
    if p.len() >= 9 && p[8] == 1 {
        let d = (spec_be32(p[0], p[1], p[2], p[3]) * 254 + 5000) / 10000;
        if d > 0 {
            Some(d as u32)
        } else {
            None
        }
    } else {
        None
    }
}

/// Position of the first zero byte of `p` at or after `i`.
pub open spec fn spec_find_nul(p: Seq<u8>, i: int) -> Option<int>
    decreases p.len() - i,
{
    if i < 0 || i >= p.len() {
        None
    } else if p[i] == 0 {
        Some(i)
    } else {
        spec_find_nul(p, i + 1)
    }
}

/// The still-compressed profile bytes of an iCCP payload: everything after
/// the nul-terminated profile name and the compression-method byte.
pub open spec fn spec_iccp_profile(p: Seq<u8>) -> Option<Seq<u8>> {
    match spec_find_nul(p, 0) {
        Some(k) => if k + 2 <= p.len() {
            Some(p.subrange(k + 2, p.len() as int))
        } else {
            None
        },
        None => None,
    }
}

/// What the chunk at `pos` (with payload length `clen`) contributes to the
/// scan. The chunk type is at `pos + 4`, the payload at `pos + 8`.
pub open spec fn spec_chunk_contrib(data: Seq<u8>, pos: int, clen: int) -> PngScan {
    let t0 = data[pos + 4];
    let t1 = data[pos + 5];
    let t2 = data[pos + 6];
    let t3 = data[pos + 7];
    let p = data.subrange(pos + 8, pos + 8 + clen);
    if t0 == 73 && t1 == 72 && t2 == 68 && t3 == 82 {
        // IHDR
        PngScan {
            ihdr: Some(
                IhdrFields {
                    width: spec_be32(p[0], p[1], p[2], p[3]),
                    height: spec_be32(p[4], p[5], p[6], p[7]),
                    bit_depth: p[8],
                    color_type: p[9],
                    interlace: p[12],
                },
            ),
            ..spec_png_empty()
        }
    } else if t0 == 80 && t1 == 76 && t2 == 84 && t3 == 69 {
        // PLTE
        PngScan { plte: p, ..spec_png_empty() }
    } else if t0 == 73 && t1 == 68 && t2 == 65 && t3 == 84 {
        // IDAT
        PngScan { idat: p, ..spec_png_empty() }
    } else if t0 == 116 && t1 == 82 && t2 == 78 && t3 == 83 {
        // tRNS
        PngScan { has_trns: true, ..spec_png_empty() }
    } else if t0 == 112 && t1 == 72 && t2 == 89 && t3 == 115 {
        // pHYs
        PngScan { dpi: spec_phys_dpi(p), ..spec_png_empty() }
    } else if t0 == 105 && t1 == 67 && t2 == 67 && t3 == 80 {
        // iCCP
        PngScan { iccp: spec_iccp_profile(p), ..spec_png_empty() }
    } else {
        spec_png_empty()
    }
}

/// Scans the chunk sequence from `pos`. `None` means a structural error: a
/// chunk whose declared length runs past the buffer end, or an undersized
/// IHDR. Running off the end without an IEND chunk is accepted.
pub open spec fn spec_png_scan(data: Seq<u8>, pos: int) -> Option<PngScan>
    decreases data.len() - pos,
{
    if pos < 0 {
        None
    } else if pos + 8 > data.len() {
        Some(spec_png_empty())
    } else {
        let clen = spec_be32(data[pos], data[pos + 1], data[pos + 2], data[pos + 3]);
        let end = pos + 8 + clen + 4;
        if end > data.len() {
            None
        } else if data[pos + 4] == 73 && data[pos + 5] == 69 && data[pos + 6] == 78 && data[pos
            + 7] == 68 {
            // IEND
            Some(spec_png_empty())
        } else if data[pos + 4] == 73 && data[pos + 5] == 72 && data[pos + 6] == 68 && data[pos
            + 7] == 82 && clen < 13 {
            // undersized IHDR
            None
        } else {
            match spec_png_scan(data, end) {
                None => None,
                Some(rest) => Some(spec_png_combine(spec_chunk_contrib(data, pos, clen), rest)),
            }
        }
    }
}

/// The declared payload lengths of the IDAT chunks from `pos` on, in file
/// order.
pub open spec fn spec_idat_chunk_lens(data: Seq<u8>, pos: int) -> Seq<int>
    decreases data.len() - pos,
{
    if pos < 0 || pos + 8 > data.len() {
        Seq::empty()
    } else {
        let clen = spec_be32(data[pos], data[pos + 1], data[pos + 2], data[pos + 3]);
        let end = pos + 8 + clen + 4;
        if end > data.len() {
            Seq::empty()
        } else if data[pos + 4] == 73 && data[pos + 5] == 69 && data[pos + 6] == 78 && data[pos
            + 7] == 68 {
            Seq::empty()
        } else if data[pos + 4] == 73 && data[pos + 5] == 68 && data[pos + 6] == 65 && data[pos
            + 7] == 84 {
            seq![clen] + spec_idat_chunk_lens(data, end)
        } else {
            spec_idat_chunk_lens(data, end)
        }
    }
}

pub open spec fn spec_sum(s: Seq<int>) -> int
    decreases s.len(),
{
    if s.len() == 0 {
        0
    } else {
        s[0] + spec_sum(s.drop_first())
    }
}

/// Law: the concatenated IDAT stream of a structurally sound PNG is exactly
/// as long as the sum of the individual IDAT chunk lengths, however the
/// stream is split across chunks.
pub proof fn lemma_idat_len_is_sum(data: Seq<u8>, pos: int)
    ensures
        spec_png_scan(data, pos) matches Some(s) ==> s.idat.len() == spec_sum(
            spec_idat_chunk_lens(data, pos),
        ),
    decreases data.len() - pos,
{
    if pos < 0 || pos + 8 > data.len() {
    } else {
        let clen = spec_be32(data[pos], data[pos + 1], data[pos + 2], data[pos + 3]);
        let end = pos + 8 + clen + 4;
        if end > data.len() {
        } else if data[pos + 4] == 73 && data[pos + 5] == 69 && data[pos + 6] == 78 && data[pos
            + 7] == 68 {
        } else {
            lemma_idat_len_is_sum(data, end);
            match spec_png_scan(data, end) {
                Some(rest) => {
                    if data[pos + 4] == 73 && data[pos + 5] == 68 && data[pos + 6] == 65
                        && data[pos + 7] == 84 {
                        let lens = seq![clen] + spec_idat_chunk_lens(data, end);
                        assert(lens.drop_first() =~= spec_idat_chunk_lens(data, end));
                        assert(lens[0] == clen);
                    }
                },
                None => {},
            }
        }
    }
}

/// A resolution extracted from a pHYs chunk is always positive.
pub proof fn lemma_png_dpi_positive(data: Seq<u8>, pos: int)
    ensures
        spec_png_scan(data, pos) matches Some(s) ==> (s.dpi matches Some(d) ==> d >= 1),
    decreases data.len() - pos,
{
    if pos < 0 || pos + 8 > data.len() {
    } else {
        let clen = spec_be32(data[pos], data[pos + 1], data[pos + 2], data[pos + 3]);
        let end = pos + 8 + clen + 4;
        if end <= data.len() {
            lemma_png_dpi_positive(data, end);
        }
    }
}

/// The parse of a whole PNG file: the signature followed by the chunk scan.
pub open spec fn spec_png_header(data: Seq<u8>) -> Option<PngScan> {
    if spec_png_signature(data) {
        spec_png_scan(data, 8)
    } else {
        None
    }
}

/// A PNG parses successfully when the signature and chunk structure are
/// sound, an IHDR chunk is present, and at least one IDAT chunk is present.
pub open spec fn spec_png_ok(data: Seq<u8>) -> bool {
    spec_png_header(data) matches Some(s) && s.ihdr is Some && s.idat.len() > 0
}

/// Header metadata of a PNG file, extracted without decoding the pixel data.
#[derive(Debug)]
pub struct PngInfo {
    pub width: u32,
    pub height: u32,
    pub bit_depth: u8,
    /// 0 = gray, 2 = RGB, 3 = palette, 4 = gray+alpha, 6 = RGB+alpha.
    pub color_type: u8,
    /// Interlace method byte from IHDR; 0 means not interlaced.
    pub interlace: u8,
    /// Whether a tRNS transparency chunk is present.
    pub has_trns: bool,
    /// All IDAT payloads, concatenated in file order.
    pub idat_data: Vec<u8>,
    /// The PLTE payload (palette), empty when absent.
    pub plte_data: Vec<u8>,
    pub dpi: Option<u32>,
    /// The decompressed iCCP profile: present exactly when the file carries
    /// an iCCP chunk whose profile is a valid zlib stream.
    pub icc_profile: Option<Vec<u8>>,
}

/// How an extracted [`PngInfo`] relates to the spec-level parse of the bytes.
pub open spec fn png_info_matches(info: PngInfo, data: Seq<u8>) -> bool {
    spec_png_header(data) matches Some(s) && s.ihdr matches Some(h) && {
        &&& info.width == h.width
        &&& info.height == h.height
        &&& info.bit_depth == h.bit_depth
        &&& info.color_type == h.color_type
        &&& info.interlace == h.interlace
        &&& info.has_trns == s.has_trns
        &&& info.idat_data@ == s.idat
        &&& info.plte_data@ == s.plte
        &&& info.dpi == s.dpi
        &&& match (info.icc_profile, s.iccp) {
            (Some(v), Some(z)) => codec::spec_zlib_inflate(z) == Some(v@),
            (None, Some(z)) => codec::spec_zlib_inflate(z) is None,
            (None, None) => true,
            (Some(v), None) => false,
        }
    }
}

fn find_nul(p: &[u8]) -> (r: Option<usize>)
    ensures
        match r {
            Some(k) => spec_find_nul(p@, 0) == Some(k as int),
            None => spec_find_nul(p@, 0) is None,
        },
{
    let mut i: usize = 0;
    while i < p.len()
        invariant
            i <= p@.len(),
            spec_find_nul(p@, 0) == spec_find_nul(p@, i as int),
        decreases p@.len() - i,
    {
        if p[i] == 0 {
            return Some(i);
        }
        i = i + 1;
    }
    None
}

/// Parses a PNG file: IHDR fields, concatenated IDAT payloads, palette,
/// transparency, resolution and ICC profile.
#[verifier::rlimit(100)]
pub fn parse_png_header(data: &[u8]) -> (r: Result<PngInfo, Error>)
    ensures
        match r {
            Ok(info) => spec_png_ok(data@) && png_info_matches(info, data@),
            Err(e) => !spec_png_ok(data@) && e.kind() == ErrorKind::MalformedHeader,
        },
{
    if data.len() < 8 || !(data[0] == 137 && data[1] == 80 && data[2] == 78 && data[3] == 71
        && data[4] == 13 && data[5] == 10 && data[6] == 26 && data[7] == 10) {
        return Err(Error::new(ErrorKind::MalformedHeader, "Not a valid PNG file"));
    }
    let mut pos: usize = 8;
    let mut got_ihdr: bool = false;
    let mut width: u32 = 0;
    let mut height: u32 = 0;
    let mut bit_depth: u8 = 0;
    let mut color_type: u8 = 0;
    let mut interlace: u8 = 0;
    let mut has_trns: bool = false;
    let mut idat: Vec<u8> = Vec::new();
    let mut plte: Vec<u8> = Vec::new();
    let mut dpi: Option<u32> = None;
    let mut iccp_raw: Option<Vec<u8>> = None;
    while pos < data.len() && data.len() - pos >= 8
        invariant_except_break
            data@.len() >= 8,
            8 <= pos <= data@.len(),
            match spec_png_scan(data@, pos as int) {
                Some(r) => spec_png_scan(data@, 8) matches Some(t) && {
                    &&& t.ihdr == (if got_ihdr {
                        Some(
                            IhdrFields {
                                width: width as int,
                                height: height as int,
                                bit_depth,
                                color_type,
                                interlace,
                            },
                        )
                    } else {
                        r.ihdr
                    })
                    &&& t.idat == idat@ + r.idat
                    &&& t.plte == plte@ + r.plte
                    &&& t.has_trns == (has_trns || r.has_trns)
                    &&& t.dpi == (if dpi is Some {
                        dpi
                    } else {
                        r.dpi
                    })
                    &&& t.iccp == (match iccp_raw {
                        Some(v) => Some(v@),
                        None => r.iccp,
                    })
                },
                None => spec_png_scan(data@, 8) is None,
            },
        ensures
            spec_png_scan(data@, 8) matches Some(t) && {
                &&& t.ihdr == (if got_ihdr {
                    Some(
                        IhdrFields {
                            width: width as int,
                            height: height as int,
                            bit_depth,
                            color_type,
                            interlace,
                        },
                    )
                } else {
                    None::<IhdrFields>
                })
                &&& t.idat == idat@
                &&& t.plte == plte@
                &&& t.has_trns == has_trns
                &&& t.dpi == dpi
                &&& t.iccp == (match iccp_raw {
                    Some(v) => Some(v@),
                    None => None::<Seq<u8>>,
                })
            },
        decreases data@.len() - pos,
    {
        let clen_u: u32 = (((data[pos] as u32) * 256 + (data[pos + 1] as u32)) * 256 + (data[pos
            + 2] as u32)) * 256 + (data[pos + 3] as u32);
        let clen: usize = clen_u as usize;
        if data.len() - pos < 12 || clen > data.len() - pos - 12 {
            return Err(Error::new(ErrorKind::MalformedHeader, "Truncated PNG chunk"));
        }
        let end: usize = pos + 12 + clen;
        let t0 = data[pos + 4];
        let t1 = data[pos + 5];
        let t2 = data[pos + 6];
        let t3 = data[pos + 7];
        if t0 == 73 && t1 == 69 && t2 == 78 && t3 == 68 {
            // IEND
            break;
        }
        let ghost prev_idat: Seq<u8> = idat@;
        let ghost prev_plte: Seq<u8> = plte@;
        let ghost cur: PngScan = spec_chunk_contrib(data@, pos as int, clen as int);
        if t0 == 73 && t1 == 72 && t2 == 68 && t3 == 82 {
            // IHDR
            if clen < 13 {
                return Err(Error::new(ErrorKind::MalformedHeader, "Truncated IHDR"));
            }
            if !got_ihdr {
                width = (((data[pos + 8] as u32) * 256 + (data[pos + 9] as u32)) * 256 + (data[pos
                    + 10] as u32)) * 256 + (data[pos + 11] as u32);
                height = (((data[pos + 12] as u32) * 256 + (data[pos + 13] as u32)) * 256
                    + (data[pos + 14] as u32)) * 256 + (data[pos + 15] as u32);
                bit_depth = data[pos + 16];
                color_type = data[pos + 17];
                interlace = data[pos + 20];
                got_ihdr = true;
            }
        } else if t0 == 80 && t1 == 76 && t2 == 84 && t3 == 69 {
            // PLTE
            let payload = vstd::slice::slice_subrange(data, pos + 8, pos + 8 + clen);
            plte.extend_from_slice(payload);
        } else if t0 == 73 && t1 == 68 && t2 == 65 && t3 == 84 {
            // IDAT
            let payload = vstd::slice::slice_subrange(data, pos + 8, pos + 8 + clen);
            idat.extend_from_slice(payload);
        } else if t0 == 116 && t1 == 82 && t2 == 78 && t3 == 83 {
            // tRNS
            has_trns = true;
        } else if t0 == 112 && t1 == 72 && t2 == 89 && t3 == 115 {
            // pHYs
            if clen >= 9 && data[pos + 16] == 1 {
                let ppm: u64 = ((((data[pos + 8] as u64) * 256 + (data[pos + 9] as u64)) * 256
                    + (data[pos + 10] as u64)) * 256 + (data[pos + 11] as u64));
                let d: u64 = (ppm * 254 + 5000) / 10000;
                if d > 0 && dpi.is_none() {
                    dpi = Some(d as u32);
                }
            }
        } else if t0 == 105 && t1 == 67 && t2 == 67 && t3 == 80 {
            // iCCP
            let payload = vstd::slice::slice_subrange(data, pos + 8, pos + 8 + clen);
            match find_nul(payload) {
                Some(k) => {
                    if payload.len() >= 2 && k <= payload.len() - 2 && iccp_raw.is_none() {
                        let prof = vstd::slice::slice_subrange(payload, k + 2, payload.len());
                        iccp_raw = Some(vstd::slice::slice_to_vec(prof));
                    }
                },
                None => {},
            }
        }
        proof {
            assert(spec_png_scan(data@, pos as int) == (match spec_png_scan(data@, end as int) {
                None => None::<PngScan>,
                Some(rest) => Some(spec_png_combine(cur, rest)),
            }));
            match spec_png_scan(data@, end as int) {
                Some(rest) => {
                    assert(prev_idat + (cur.idat + rest.idat) =~= idat@ + rest.idat);
                    assert(prev_plte + (cur.plte + rest.plte) =~= plte@ + rest.plte);
                },
                None => {},
            }
        }
        pos = end;
    }
    if !got_ihdr {
        return Err(Error::new(ErrorKind::MalformedHeader, "No IHDR chunk found in PNG"));
    }
    if idat.len() == 0 {
        return Err(Error::new(ErrorKind::MalformedHeader, "No IDAT chunks found in PNG"));
    }
    let icc_profile: Option<Vec<u8>> = match iccp_raw {
        Some(z) => codec::zlib_decompress(z.as_slice()),
        None => None,
    };
    Ok(
        PngInfo {
            width,
            height,
            bit_depth,
            color_type,
            interlace,
            has_trns,
            idat_data: idat,
            plte_data: plte,
            dpi,
            icc_profile,
        },
    )
}

} // verus!
