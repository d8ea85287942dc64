//! Parsing of page-range selections such as `"1,3-5,10"` into zero-based
//! page indices.
//!
//! A selection is a comma-separated list of parts; each part is a single
//! one-based page number or an inclusive range `start-end`. Whitespace around
//! parts and numbers is ignored, empty parts are skipped, and adjacent
//! duplicate indices are removed from the result.

use vstd::prelude::*;
use vstd::string::StringSliceAdditionalSpecFns;

use crate::err::{Error, ErrorKind};

verus! {

broadcast use vstd::seq_lib::group_seq_lib_default;

/// ASCII whitespace, as trimmed from parts and numbers.
pub open spec fn spec_is_space(b: u8) -> bool {
    b == 32 || b == 9 || b == 10 || b == 11 || b == 12 || b == 13
}

pub open spec fn spec_trim_start(s: Seq<u8>) -> Seq<u8>
    decreases s.len(),
{
    if s.len() > 0 && spec_is_space(s[0]) {
        spec_trim_start(s.drop_first())
    } else {
        s
    }
}

pub open spec fn spec_trim_end(s: Seq<u8>) -> Seq<u8>
    decreases s.len(),
{
    if s.len() > 0 && spec_is_space(s.last()) {
        spec_trim_end(s.drop_last())
    } else {
        s
    }
}

pub open spec fn spec_trim(s: Seq<u8>) -> Seq<u8> {
    spec_trim_end(spec_trim_start(s))
}

/// Position of the first `target` byte of `s` at or after `i`.
pub open spec fn spec_find_byte(s: Seq<u8>, target: u8, i: int) -> Option<int>
    decreases s.len() - i,
{
    if i < 0 || i >= s.len() {
        None
    } else if s[i] == target {
        Some(i)
    } else {
        spec_find_byte(s, target, i + 1)
    }
}

pub open spec fn spec_all_digits(s: Seq<u8>) -> bool {
    forall|i: int| 0 <= i < s.len() ==> 48 <= #[trigger] s[i] <= 57
}

/// The value of a sequence of ASCII digits, most significant first.
pub open spec fn spec_digits_val(s: Seq<u8>) -> int
    decreases s.len(),
{
    if s.len() == 0 {
        0
    } else {
        spec_digits_val(s.drop_last()) * 10 + (s.last() - 48)
    }
}

/// The integer a byte sequence denotes: an optional `+` or `-` sign followed
/// by one or more digits, nothing else.
pub open spec fn spec_parse_int(s: Seq<u8>) -> Option<int> {
    if s.len() == 0 {
        None
    } else if s[0] == 43 || s[0] == 45 {
        let d = s.drop_first();
        if d.len() > 0 && spec_all_digits(d) {
            if s[0] == 45 {
                Some(-spec_digits_val(d))
            } else {
                Some(spec_digits_val(d))
            }
        } else {
            None
        }
    } else if spec_all_digits(s) {
        Some(spec_digits_val(s))
    } else {
        None
    }
}

/// [`spec_parse_int`] restricted to values representable as `i32`, matching
/// what parsing into a 32-bit integer accepts.
pub open spec fn spec_parse_i32(s: Seq<u8>) -> Option<int> {
    match spec_parse_int(s) {
        Some(x) => if -0x8000_0000 <= x <= 0x7FFF_FFFF {
            Some(x)
        } else {
            None
        },
        None => None,
    }
}

/// The zero-based pages one part contributes: nothing for an empty part, an
/// inclusive range for `start-end` (split at the first dash), a single page
/// otherwise. Pages must lie in `1 ..= num_pages` and ranges must not be
/// reversed.
pub open spec fn spec_part_pages(part: Seq<u8>, num_pages: int) -> Option<Seq<int>> {
    let t = spec_trim(part);
    if t.len() == 0 {
        Some(Seq::empty())
    } else {
        match spec_find_byte(t, 45, 0) {
            Some(k) => {
                let sv = spec_parse_i32(spec_trim(t.take(k)));
                let ev = spec_parse_i32(spec_trim(t.skip(k + 1)));
                match (sv, ev) {
                    (Some(s), Some(e)) => if 1 <= s && s <= e && e <= num_pages {
                        Some(Seq::new((e - s + 1) as nat, |i: int| s - 1 + i))
                    } else {
                        None
                    },
                    _ => None,
                }
            },
            None => match spec_parse_i32(t) {
                Some(p) => if 1 <= p && p <= num_pages {
                    Some(seq![p - 1])
                } else {
                    None
                },
                None => None,
            },
        }
    }
}

/// A found byte lies within the sequence and matches the target.
pub proof fn lemma_find_byte_bounds(s: Seq<u8>, target: u8, i: int)
    ensures
        spec_find_byte(s, target, i) matches Some(k) ==> i <= k < s.len() && s[k] == target,
    decreases s.len() - i,
{
    if 0 <= i < s.len() && s[i] != target {
        lemma_find_byte_bounds(s, target, i + 1);
    }
}

/// The concatenated pages of all comma-separated parts, or `None` if any
/// part is invalid.
pub open spec fn spec_parts_pages(bytes: Seq<u8>, num_pages: int) -> Option<Seq<int>>
    decreases bytes.len(),
{
    match spec_find_byte(bytes, 44, 0) {
        Some(k) => {
            proof {
                lemma_find_byte_bounds(bytes, 44, 0);
            }
            match (
                spec_part_pages(bytes.take(k), num_pages),
                spec_parts_pages(bytes.skip(k + 1), num_pages),
            ) {
                (Some(a), Some(b)) => Some(a + b),
                _ => None,
            }
        },
        None => spec_part_pages(bytes, num_pages),
    }
}

/// Adjacent-duplicate removal, tracking the last kept value.
pub open spec fn spec_dedup_from(s: Seq<int>, prev: Option<int>) -> Seq<int>
    decreases s.len(),
{
    if s.len() == 0 {
        Seq::empty()
    } else if prev matches Some(p) && p == s[0] {
        spec_dedup_from(s.drop_first(), prev)
    } else {
        seq![s[0]] + spec_dedup_from(s.drop_first(), Some(s[0]))
    }
}

pub open spec fn spec_dedup_adjacent(s: Seq<int>) -> Seq<int> {
    spec_dedup_from(s, None)
}

/// The meaning of a whole selection string: every part must parse, at least
/// one page must be selected, and adjacent duplicates are removed.
pub open spec fn spec_page_ranges(bytes: Seq<u8>, num_pages: int) -> Option<Seq<int>> {
    match spec_parts_pages(bytes, num_pages) {
        Some(ps) => if ps.len() == 0 {
            None
        } else {
            Some(spec_dedup_adjacent(ps))
        },
        None => None,
    }
}

fn find_in_range(bytes: &[u8], target: u8, lo: usize, hi: usize) -> (r: Option<usize>)
    requires
        lo <= hi <= bytes@.len(),
    ensures
        ({
            let sub = bytes@.subrange(lo as int, hi as int);
            match r {
                Some(k) => lo <= k < hi && spec_find_byte(sub, target, 0) == Some(k - lo),
                None => spec_find_byte(sub, target, 0) is None,
            }
        }),
{
    let ghost sub = bytes@.subrange(lo as int, hi as int);
    let mut i: usize = lo;
    while i < hi
        invariant
            lo <= i <= hi <= bytes@.len(),
            sub == bytes@.subrange(lo as int, hi as int),
            spec_find_byte(sub, target, 0) == spec_find_byte(sub, target, i - lo),
        decreases hi - i,
    {
        if bytes[i] == target {
            proof {
                assert(sub[i - lo] == bytes@[i as int]);
            }
            return Some(i);
        }
        proof {
            assert(sub[i - lo] == bytes@[i as int]);
        }
        i = i + 1;
    }
    None
}

fn trim_range(bytes: &[u8], lo: usize, hi: usize) -> (r: (usize, usize))
    requires
        lo <= hi <= bytes@.len(),
    ensures
        lo <= r.0 <= r.1 <= hi,
        bytes@.subrange(r.0 as int, r.1 as int) == spec_trim(
            bytes@.subrange(lo as int, hi as int),
        ),
{
    let mut a: usize = lo;
    while a < hi && (bytes[a] == 32 || bytes[a] == 9 || bytes[a] == 10 || bytes[a] == 11
        || bytes[a] == 12 || bytes[a] == 13)
        invariant
            lo <= a <= hi <= bytes@.len(),
            spec_trim_start(bytes@.subrange(lo as int, hi as int)) == spec_trim_start(
                bytes@.subrange(a as int, hi as int),
            ),
        decreases hi - a,
    {
        proof {
            let s = bytes@.subrange(a as int, hi as int);
            assert(s[0] == bytes@[a as int]);
            assert(s.drop_first() =~= bytes@.subrange(a as int + 1, hi as int));
        }
        a = a + 1;
    }
    proof {
        let s = bytes@.subrange(a as int, hi as int);
        if s.len() > 0 {
            assert(s[0] == bytes@[a as int]);
        }
        assert(spec_trim_start(s) == s);
    }
    let mut b: usize = hi;
    while b > a && (bytes[b - 1] == 32 || bytes[b - 1] == 9 || bytes[b - 1] == 10 || bytes[b - 1]
        == 11 || bytes[b - 1] == 12 || bytes[b - 1] == 13)
        invariant
            lo <= a <= b <= hi <= bytes@.len(),
            spec_trim_start(bytes@.subrange(lo as int, hi as int)) == bytes@.subrange(
                a as int,
                hi as int,
            ),
            spec_trim_end(bytes@.subrange(a as int, hi as int)) == spec_trim_end(
                bytes@.subrange(a as int, b as int),
            ),
        decreases b,
    {
        proof {
            let s = bytes@.subrange(a as int, b as int);
            assert(s.last() == bytes@[b - 1]);
            assert(s.drop_last() =~= bytes@.subrange(a as int, b as int - 1));
        }
        b = b - 1;
    }
    proof {
        let s = bytes@.subrange(a as int, b as int);
        if s.len() > 0 {
            assert(s.last() == bytes@[b - 1]);
        }
        assert(spec_trim_end(s) == s);
    }
    (a, b)
}

proof fn lemma_digits_val_nonneg(s: Seq<u8>)
    requires
        spec_all_digits(s),
    ensures
        spec_digits_val(s) >= 0,
    decreases s.len(),
{
    if s.len() > 0 {
        assert(forall|i: int| 0 <= i < s.drop_last().len() ==> s.drop_last()[i] == s[i]);
        lemma_digits_val_nonneg(s.drop_last());
    }
}

fn parse_int_range(bytes: &[u8], lo: usize, hi: usize) -> (r: Option<i32>)
    requires
        lo <= hi <= bytes@.len(),
    ensures
        ({
            let sub = bytes@.subrange(lo as int, hi as int);
            match r {
                Some(v) => spec_parse_i32(sub) == Some(v as int),
                None => spec_parse_i32(sub) is None,
            }
        }),
{
    let ghost sub = bytes@.subrange(lo as int, hi as int);
    if lo == hi {
        return None;
    }
    let first = bytes[lo];
    proof {
        assert(sub[0] == bytes@[lo as int]);
    }
    let neg: bool = first == 45;
    let dlo: usize = if first == 45 || first == 43 {
        lo + 1
    } else {
        lo
    };
    if dlo == hi {
        return None;
    }
    let ghost d = bytes@.subrange(dlo as int, hi as int);
    proof {
        if first == 45 || first == 43 {
            assert(sub.drop_first() =~= d);
        } else {
            assert(sub =~= d);
        }
    }
    let mut i: usize = dlo;
    let mut acc: u64 = 0;
    let mut over: bool = false;
    while i < hi
        invariant
            lo <= dlo <= i <= hi <= bytes@.len(),
            sub == bytes@.subrange(lo as int, hi as int),
            d == bytes@.subrange(dlo as int, hi as int),
            sub.len() > 0,
            d.len() > 0,
            (sub[0] == 43 || sub[0] == 45) ==> dlo == lo + 1 && d == sub.drop_first(),
            !(sub[0] == 43 || sub[0] == 45) ==> dlo == lo && d == sub,
            forall|j: int| 0 <= j < i - dlo ==> 48 <= #[trigger] d[j] <= 57,
            !over ==> acc == spec_digits_val(d.take(i - dlo)) && acc <= 0x8000_0000,
            over ==> spec_digits_val(d.take(i - dlo)) > 0x8000_0000,
        decreases hi - i,
    {
        let b = bytes[i];
        proof {
            assert(d[i - dlo] == bytes@[i as int]);
        }
        if b < 48 || b > 57 {
            proof {
                assert(!spec_all_digits(d));
            }
            return None;
        }
        let ghost t = d.take(i - dlo);
        let ghost t1 = d.take(i + 1 - dlo);
        proof {
            assert(t1.drop_last() =~= t);
            assert(t1.last() == d[i - dlo]);
            assert(spec_digits_val(t1) == spec_digits_val(t) * 10 + (b - 48));
            if over {
                assert(forall|j: int| 0 <= j < t.len() ==> t[j] == d[j]);
                lemma_digits_val_nonneg(t);
            }
        }
        if !over {
            let next: u64 = acc * 10 + ((b - 48) as u64);
            if next > 0x8000_0000 {
                over = true;
            } else {
                acc = next;
            }
        }
        i = i + 1;
    }
    proof {
        assert(d.take(hi - dlo as int) =~= d);
        assert(spec_all_digits(d));
    }
    if over {
        proof {
            assert(spec_digits_val(d) > 0x8000_0000);
            assert(spec_parse_i32(sub) is None);
        }
        return None;
    }
    if neg {
        Some((-(acc as i64)) as i32)
    } else {
        if acc > 0x7FFF_FFFF {
            return None;
        }
        Some(acc as i32)
    }
}

fn push_range(out: &mut Vec<i32>, s: i32, e: i32)
    requires
        1 <= s <= e,
    ensures
        final(out)@.len() == old(out)@.len() + (e - s + 1),
        forall|i: int| 0 <= i < old(out)@.len() ==> final(out)@[i] == old(out)@[i],
        forall|i: int|
            old(out)@.len() <= i < final(out)@.len() ==> #[trigger] final(out)@[i] == s - 1 + (i
                - old(out)@.len()),
{
    let count: usize = (e - s) as usize + 1;
    let mut j: usize = 0;
    while j < count
        invariant
            count == e - s + 1,
            1 <= s <= e,
            0 <= j <= count,
            out@.len() == old(out)@.len() + j,
            forall|i: int| 0 <= i < old(out)@.len() ==> out@[i] == old(out)@[i],
            forall|i: int|
                old(out)@.len() <= i < out@.len() ==> #[trigger] out@[i] == s - 1 + (i - old(
                    out,
                )@.len()),
        decreases count - j,
    {
        out.push(s - 1 + (j as i32));
        j = j + 1;
    }
}

fn part_pages_into(bytes: &[u8], lo: usize, hi: usize, num_pages: i32, out: &mut Vec<i32>) -> (r:
    Result<(), Error>)
    requires
        lo <= hi <= bytes@.len(),
    ensures
        ({
            let part = bytes@.subrange(lo as int, hi as int);
            match r {
                Ok(u) => spec_part_pages(part, num_pages as int) matches Some(a)
                    && final(out)@.len() == old(out)@.len() + a.len() && (forall|i: int|
                    0 <= i < old(out)@.len() ==> final(out)@[i] == old(out)@[i]) && (forall|i: int|
                    old(out)@.len() <= i < final(out)@.len() ==> #[trigger] final(out)@[i] == a[i
                        - old(out)@.len()]),
                Err(e) => spec_part_pages(part, num_pages as int) is None && e.kind()
                    == ErrorKind::ValidationError && final(out)@ == old(out)@,
            }
        }),
{
    let ghost part = bytes@.subrange(lo as int, hi as int);
    let (tlo, thi) = trim_range(bytes, lo, hi);
    let ghost t = bytes@.subrange(tlo as int, thi as int);
    if tlo == thi {
        return Ok(());
    }
    match find_in_range(bytes, 45, tlo, thi) {
        Some(k) => {
            proof {
                assert(t.take(k - tlo) =~= bytes@.subrange(tlo as int, k as int));
                assert(t.skip(k - tlo + 1) =~= bytes@.subrange(k as int + 1, thi as int));
            }
            let (slo, shi) = trim_range(bytes, tlo, k);
            let (elo, ehi) = trim_range(bytes, k + 1, thi);
            let sv = parse_int_range(bytes, slo, shi);
            let ev = parse_int_range(bytes, elo, ehi);
            match (sv, ev) {
                (Some(s), Some(e)) => {
                    if 1 <= s && s <= e && e <= num_pages {
                        push_range(out, s, e);
                        Ok(())
                    } else {
                        Err(
                            Error::new(
                                ErrorKind::ValidationError,
                                "Page range out of bounds",
                            ),
                        )
                    }
                },
                _ => Err(
                    Error::new(ErrorKind::ValidationError, "Invalid page number in range"),
                ),
            }
        },
        None => {
            match parse_int_range(bytes, tlo, thi) {
                Some(p) => {
                    if 1 <= p && p <= num_pages {
                        out.push(p - 1);
                        Ok(())
                    } else {
                        Err(Error::new(ErrorKind::ValidationError, "Page out of bounds"))
                    }
                },
                None => Err(Error::new(ErrorKind::ValidationError, "Invalid page number")),
            }
        },
    }
}

fn dedup_adjacent(v: &Vec<i32>) -> (out: Vec<i32>)
    ensures
        ({
            let pv = Seq::new(v@.len(), |i: int| v@[i] as int);
            let dv = spec_dedup_adjacent(pv);
            out@.len() == dv.len() && forall|i: int| 0 <= i < dv.len() ==> out@[i] == dv[i]
        }),
{
    let ghost pv = Seq::new(v@.len(), |i: int| v@[i] as int);
    let mut out: Vec<i32> = Vec::new();
    let mut i: usize = 0;
    proof {
        assert(pv.skip(0) =~= pv);
        assert(Seq::new(out@.len(), |j: int| out@[j] as int) =~= Seq::<int>::empty());
    }
    while i < v.len()
        invariant
            i <= v@.len(),
            pv == Seq::new(v@.len(), |j: int| v@[j] as int),
            spec_dedup_adjacent(pv) == Seq::new(out@.len(), |j: int| out@[j] as int)
                + spec_dedup_from(
                pv.skip(i as int),
                if out@.len() == 0 {
                    None
                } else {
                    Some(out@.last() as int)
                },
            ),
            out@.len() == 0 ==> i == 0,
        decreases v@.len() - i,
    {
        let x = v[i];
        let ghost ov = Seq::new(out@.len(), |j: int| out@[j] as int);
        let ghost lastopt: Option<int> = if out@.len() == 0 {
            None
        } else {
            Some(out@.last() as int)
        };
        proof {
            assert(pv.skip(i as int)[0] == pv[i as int]);
            assert(pv[i as int] == v@[i as int] as int);
            assert(pv.skip(i as int).drop_first() =~= pv.skip(i as int + 1));
        }
        if out.len() == 0 || *vstd::std_specs::vec::vec_index(&out, out.len() - 1) != x {
            out.push(x);
            proof {
                let ov1 = Seq::new(out@.len(), |j: int| out@[j] as int);
                assert(ov1 =~= ov.push(x as int));
                assert(ov + (seq![x as int] + spec_dedup_from(
                    pv.skip(i as int + 1),
                    Some(x as int),
                )) =~= ov.push(x as int) + spec_dedup_from(pv.skip(i as int + 1), Some(x as int)));
            }
        } else {
            proof {
                assert(lastopt matches Some(p) && p == pv.skip(i as int)[0]);
            }
        }
        i = i + 1;
    }
    proof {
        assert(pv.skip(i as int).len() == 0);
        assert(spec_dedup_from(
            pv.skip(i as int),
            if out@.len() == 0 {
                None
            } else {
                Some(out@.last() as int)
            },
        ) =~= Seq::<int>::empty());
    }
    out
}

/// Parses a page-range selection such as `"1,3-5,10"` into zero-based page
/// indices, validated against the page count `num_pages`.
pub fn parse_page_ranges(s: &str, num_pages: i32) -> (r: Result<Vec<i32>, Error>)
    ensures
        match r {
            Ok(v) => spec_page_ranges(s.spec_bytes(), num_pages as int) matches Some(ps)
                && v@.len() == ps.len() && forall|i: int|
                0 <= i < ps.len() ==> v@[i] as int == ps[i],
            Err(e) => spec_page_ranges(s.spec_bytes(), num_pages as int) is None && e.kind()
                == ErrorKind::ValidationError,
        },
{
    let bytes: &[u8] = s.as_bytes();
    let n: usize = bytes.len();
    let mut pages: Vec<i32> = Vec::new();
    let mut cur: usize = 0;
    proof {
        assert(bytes@.skip(0) =~= bytes@);
    }
    loop
        invariant_except_break
            match spec_parts_pages(bytes@.skip(cur as int), num_pages as int) {
                Some(rest) => spec_parts_pages(bytes@, num_pages as int) matches Some(tot) && {
                    &&& tot.len() == pages@.len() + rest.len()
                    &&& forall|j: int| 0 <= j < pages@.len() ==> tot[j] == pages@[j] as int
                    &&& forall|j: int|
                        pages@.len() <= j < tot.len() ==> #[trigger] tot[j] == rest[j - pages@.len()]
                },
                None => spec_parts_pages(bytes@, num_pages as int) is None,
            },
        invariant
            cur <= n,
            n == bytes@.len(),
            bytes@ == s.spec_bytes(),
        ensures
            n == bytes@.len(),
            bytes@ == s.spec_bytes(),
            spec_parts_pages(bytes@, num_pages as int) matches Some(tot) && tot.len()
                == pages@.len() && forall|j: int|
                0 <= j < pages@.len() ==> tot[j] == pages@[j] as int,
        decreases n - cur,
    {
        let ghost suffix = bytes@.skip(cur as int);
        proof {
            assert(suffix =~= bytes@.subrange(cur as int, n as int));
        }
        match find_in_range(bytes, 44, cur, n) {
            Some(k) => {
                proof {
                    assert(suffix.take(k - cur) =~= bytes@.subrange(cur as int, k as int));
                    assert(suffix.skip(k - cur + 1) =~= bytes@.skip(k as int + 1));
                }
                match part_pages_into(bytes, cur, k, num_pages, &mut pages) {
                    Ok(u) => {},
                    Err(e) => {
                        return Err(e);
                    },
                }
                cur = k + 1;
            },
            None => {
                let ghost prev = pages@;
                match part_pages_into(bytes, cur, n, num_pages, &mut pages) {
                    Ok(u) => {},
                    Err(e) => {
                        return Err(e);
                    },
                }
                proof {
                    match spec_parts_pages(bytes@, num_pages as int) {
                        Some(tot) => {
                            assert forall|j: int| 0 <= j < pages@.len() implies tot[j] == pages@[j]
                                as int by {
                                if j >= prev.len() {
                                    assert(tot[j] == spec_parts_pages(suffix, num_pages as int)
                                        .unwrap()[j - prev.len()]);
                                }
                            }
                        },
                        None => {},
                    }
                }
                break;
            },
        }
    }
    if pages.len() == 0 {
        return Err(Error::new(ErrorKind::ValidationError, "No pages specified"));
    }
    let out = dedup_adjacent(&pages);
    proof {
        let pv = Seq::new(pages@.len(), |i: int| pages@[i] as int);
        match spec_parts_pages(bytes@, num_pages as int) {
            Some(tot) => {
                assert(tot =~= pv);
            },
            None => {},
        }
    }
    Ok(out)
}

} // verus!
