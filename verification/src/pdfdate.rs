//! PDF date strings from epoch seconds: a self-contained proleptic Gregorian
//! calendar computation (UTC only), producing `D:YYYYMMDDHHmmSSZ`.

use vstd::prelude::*;

verus! {

/// Days since 1970-01-01 of the civil date `(y, m, d)` (proleptic Gregorian,
/// for dates on or after year 1). Months 1-12, days 1-31.
pub open spec fn spec_days_from_civil(y: int, m: int, d: int) -> int {
    let yy = if m <= 2 {
        y - 1
    } else {
        y
    };
    let era = yy / 400;
    let yoe = yy - era * 400;
    let mp = (m + 9) % 12;
    let doy = (153 * mp + 2) / 5 + d - 1;
    let doe = yoe * 365 + yoe / 4 - yoe / 100 + doy;
    era * 146097 + doe - 719468
}

/// Converts days since 1970-01-01 back to a civil date. The returned date
/// is the unique one mapping to `days` under [`spec_days_from_civil`].
pub fn civil_from_days(days: u64) -> (r: (u64, u8, u8))
    requires
        days <= 0xFFFF_FFFF,
    ensures
        spec_days_from_civil(r.0 as int, r.1 as int, r.2 as int) == days,
        1 <= r.1 <= 12,
        1 <= r.2 <= 31,
{
    let z: u64 = days + 719468;
    let era: u64 = z / 146097;
    proof {
        assert(z - 146097 * (z as int / 146097) < 146097 && z - 146097 * (z as int / 146097)
            >= 0) by (nonlinear_arith)
            requires
                z >= 0,
        ;
    }
    let doe: u64 = z - era * 146097;
    let yoe: u64 = (doe - doe / 1460 + doe / 36524 - doe / 146096) / 365;
    let y1: u64 = yoe + era * 400;
    let doy: u64 = doe - (365 * yoe + yoe / 4 - yoe / 100);
    let mp: u64 = (5 * doy + 2) / 153;
    let d: u64 = doy - (153 * mp + 2) / 5 + 1;
    let m: u64 = if mp < 10 {
        mp + 3
    } else {
        mp - 9
    };
    let y: u64 = if m <= 2 {
        y1 + 1
    } else {
        y1
    };
    proof {
        let doeI = doe as int;
        let yoeI = yoe as int;
        let doyI = doy as int;
        let mpI = mp as int;
        assert(0 <= yoeI <= 399 && 0 <= doyI <= 365 && 365 * yoeI + yoeI / 4 - yoeI / 100
            <= doeI) by (nonlinear_arith)
            requires
                0 <= doeI < 146097,
                yoeI == (doeI - doeI / 1460 + doeI / 36524 - doeI / 146096) / 365,
                doyI == doeI - (365 * yoeI + yoeI / 4 - yoeI / 100),
        ;
        assert(0 <= mpI <= 11 && (153 * mpI + 2) / 5 <= doyI && doyI - (153 * mpI + 2) / 5 + 1
            <= 31) by (nonlinear_arith)
            requires
                0 <= doyI <= 365,
                mpI == (5 * doyI + 2) / 153,
        ;
        let yy = if m <= 2 {
            y as int - 1
        } else {
            y as int
        };
        assert(yy == y1);
        assert(yy / 400 == era && yy - (yy / 400) * 400 == yoeI) by (nonlinear_arith)
            requires
                yy == yoeI + (era as int) * 400,
                0 <= yoeI <= 399,
                era >= 0,
        ;
        assert((m as int + 9) % 12 == mpI) by (nonlinear_arith)
            requires
                0 <= mpI <= 11,
                (mpI < 10 && m == mpI + 3) || (mpI >= 10 && m == mpI - 9),
        ;
    }
    (y, m as u8, d as u8)
}

/// The ASCII decimal rendering of `n`'s last `width` digits, zero-padded.
pub open spec fn spec_dec(n: int, width: int) -> Seq<u8>
    decreases width,
{
    if width <= 0 {
        Seq::empty()
    } else {
        spec_dec(n / 10, width - 1).push((48 + n % 10) as u8)
    }
}

/// A PDF date string for the given UTC civil date and time of day:
/// `D:YYYYMMDDHHmmSSZ`.
pub open spec fn spec_pdf_date_bytes(y: int, m: int, d: int, hh: int, mi: int, ss: int) -> Seq<
    u8,
> {
    seq![68u8, 58u8] + spec_dec(y, 4) + spec_dec(m, 2) + spec_dec(d, 2) + spec_dec(hh, 2)
        + spec_dec(mi, 2) + spec_dec(ss, 2) + seq![90u8]
}

fn push_dec2(out: &mut Vec<u8>, v: u64)
    requires
        v <= 0xFFFF_FFFF,
    ensures
        final(out)@ == old(out)@ + spec_dec(v as int, 2),
{
    let ghost prev = out@;
    proof {
        assert((v as int) / 10 / 10 == (v as int) / 100) by (nonlinear_arith)
            requires
                v >= 0,
        ;
    }
    out.push(48 + ((v / 10) % 10) as u8);
    out.push(48 + (v % 10) as u8);
    proof {
        reveal_with_fuel(spec_dec, 3);
        assert(spec_dec(v as int, 2) =~= seq![
            (48 + (v as int) / 10 % 10) as u8,
            (48 + (v as int) % 10) as u8,
        ]);
        assert(out@ =~= prev + spec_dec(v as int, 2));
    }
}

fn push_dec4(out: &mut Vec<u8>, v: u64)
    requires
        v <= 0xFFFF_FFFF,
    ensures
        final(out)@ == old(out)@ + spec_dec(v as int, 4),
{
    let ghost prev = out@;
    proof {
        let x = v as int;
        assert(x / 10 / 10 == x / 100 && x / 10 / 10 / 10 == x / 1000) by (nonlinear_arith)
            requires
                x >= 0,
        ;
    }
    out.push(48 + ((v / 1000) % 10) as u8);
    out.push(48 + ((v / 100) % 10) as u8);
    out.push(48 + ((v / 10) % 10) as u8);
    out.push(48 + (v % 10) as u8);
    proof {
        reveal_with_fuel(spec_dec, 5);
        assert(spec_dec(v as int, 4) =~= seq![
            (48 + (v as int) / 1000 % 10) as u8,
            (48 + (v as int) / 100 % 10) as u8,
            (48 + (v as int) / 10 % 10) as u8,
            (48 + (v as int) % 10) as u8,
        ]);
        assert(out@ =~= prev + spec_dec(v as int, 4));
    }
}

/// Formats epoch seconds as a PDF date string. The witnesses `y`, `m`, `d`
/// are the unique civil date of the given day number.
pub fn pdf_date_string(secs: u64) -> (r: Vec<u8>)
    requires
        secs <= 0xFFFF_FFFF_FFFF,
    ensures
        exists|y: int, m: int, d: int|
            {
                &&& spec_days_from_civil(y, m, d) == secs / 86400
                &&& 1 <= m <= 12
                &&& 1 <= d <= 31
                &&& r@ == #[trigger] spec_pdf_date_bytes(
                    y,
                    m,
                    d,
                    secs as int % 86400 / 3600,
                    secs as int % 86400 % 3600 / 60,
                    secs as int % 86400 % 60,
                )
            },
{
    let days: u64 = secs / 86400;
    let rem: u64 = secs % 86400;
    let hh: u64 = rem / 3600;
    let mi: u64 = (rem % 3600) / 60;
    let ss: u64 = rem % 60;
    let (y, m, d) = civil_from_days(days);
    let mut out: Vec<u8> = Vec::new();
    out.push(68);
    out.push(58);
    push_dec4(&mut out, y);
    push_dec2(&mut out, m as u64);
    push_dec2(&mut out, d as u64);
    push_dec2(&mut out, hh);
    push_dec2(&mut out, mi);
    push_dec2(&mut out, ss);
    out.push(90);
    proof {
        assert(out@ =~= spec_pdf_date_bytes(
            y as int,
            m as int,
            d as int,
            hh as int,
            mi as int,
            ss as int,
        ));
        assert(rem == secs as int % 86400);
        assert(spec_pdf_date_bytes(
            y as int,
            m as int,
            d as int,
            secs as int % 86400 / 3600,
            secs as int % 86400 % 3600 / 60,
            secs as int % 86400 % 60,
        ) == out@);
    }
    out
}

} // verus!
